//! Laws of the generated server API that relate several generations or
//! several parts of one file.

use vstd::prelude::*;

use crate::names::{seq_has_string, spec_snake_to_camel};
use crate::output::{text, PieceView};
use crate::protocol::{
    differ_only_in_builtin, is_builtin_interface, Arg, Interface, Message, Protocol,
};
use crate::server_gen::{
    arg_sig_pieces, copyright_text, dispatcher_registration_text, doc_pieces, event_head_text,
    interface_header_text, message_handlers_text, struct_head_text, struct_tail_text, dispatcher_alias_text, dispatcher_decode_text,
    dispatcher_queue_text, dispatcher_start_text, dispatcher_transmute_text, enum_type_text,
    enums_pieces, event_body_text, event_pieces, events_pieces, first_import_text,
    header_comment_text, iface_impl_pieces, iface_struct_pieces, iface_struct_text, impl_tail_text,
    handler_arm_text, handler_arms_text, interface_section, interface_sections, post_arg_text, post_args_text, preamble_text,
    request_enum_doc_text, request_enum_text, request_machinery_text, request_variant_text,
    request_variants_text, server_api_pieces, sig_pieces,
};

verus! {

// ---------------------------------------------------------------------------
// The start of the file
// ---------------------------------------------------------------------------

/// The file opens with its header comment, then the protocol's copyright
/// notice exactly when it has one (`copyright_text`), then the first import.
pub proof fn lemma_file_starts_with_header(p: Protocol, bitfields: Seq<String>)
    ensures
        server_api_pieces(p, bitfields)[0] == text(preamble_text(p)),
        (header_comment_text() + copyright_text(p.copyright) + first_import_text()).is_prefix_of(
            preamble_text(p),
        ),
{
    reveal(preamble_text);
    let h = header_comment_text() + copyright_text(p.copyright);
    let rest = crate::server_gen::other_imports_text();
    assert(preamble_text(p) =~= (h + first_import_text()) + rest);
    assert((h + first_import_text()).is_prefix_of((h + first_import_text()) + rest)) by {
        assert(((h + first_import_text()) + rest).subrange(0, (h + first_import_text()).len() as int)
            =~= h + first_import_text());
    }
}

/// Generation only appends: whatever was written before stays, unchanged,
/// at the start of the output.
pub proof fn lemma_generation_only_appends(before: Seq<PieceView>, p: Protocol, bitfields: Seq<String>)
    ensures
        before.is_prefix_of(before + server_api_pieces(p, bitfields)),
{
    assert((before + server_api_pieces(p, bitfields)).subrange(0, before.len() as int) =~= before);
}

// ---------------------------------------------------------------------------
// Interfaces the library handles itself
// ---------------------------------------------------------------------------

proof fn lemma_variants_ignore_builtin(p1: Protocol, p2: Protocol, n: int)
    requires
        differ_only_in_builtin(p1, p2),
        0 <= n <= p1.interfaces@.len(),
    ensures
        request_variants_text(p1.interfaces@, n) == request_variants_text(p2.interfaces@, n),
    decreases n,
{
    if n > 0 {
        lemma_variants_ignore_builtin(p1, p2, n - 1);
        assert(p1.interfaces@[n - 1].name == p2.interfaces@[n - 1].name);
    }
}

proof fn lemma_sections_ignore_builtin(p1: Protocol, p2: Protocol, bitfields: Seq<String>, n: int)
    requires
        differ_only_in_builtin(p1, p2),
        0 <= n <= p1.interfaces@.len(),
    ensures
        interface_sections(p1, bitfields, n) == interface_sections(p2, bitfields, n),
    decreases n,
{
    if n > 0 {
        lemma_sections_ignore_builtin(p1, p2, bitfields, n - 1);
        assert(p1.interfaces@[n - 1].name == p2.interfaces@[n - 1].name);
    }
}

/// The contents of `wl_display` and `wl_registry` do not matter: two
/// protocols that differ only in the requests, events, description or
/// version of those interfaces give the same file.
pub proof fn lemma_builtin_contents_do_not_matter(p1: Protocol, p2: Protocol, bitfields: Seq<String>)
    requires
        differ_only_in_builtin(p1, p2),
    ensures
        server_api_pieces(p1, bitfields) == server_api_pieces(p2, bitfields),
{
    reveal(preamble_text);
    reveal(request_machinery_text);
    lemma_variants_ignore_builtin(p1, p2, p1.interfaces@.len() as int);
    lemma_sections_ignore_builtin(p1, p2, bitfields, p1.interfaces@.len() as int);
    assert(preamble_text(p1) == preamble_text(p2));
    assert(request_machinery_text(p1) == request_machinery_text(p2));
}

// ---------------------------------------------------------------------------
// The request machinery
// ---------------------------------------------------------------------------

/// The request machinery, in order: the doc comment of the request enum,
/// the enum (one variant per interface with requests that the library does
/// not handle itself), the type alias of the decoding functions, then the
/// dispatcher, which converts its decoding function to that alias, decodes
/// the request and ends by queueing it.
pub proof fn lemma_request_machinery_layout(p: Protocol)
    ensures
        request_machinery_text(p) == request_enum_doc_text(p.name@) + request_enum_text(p)
            + dispatcher_alias_text(p.name@) + dispatcher_start_text() + dispatcher_transmute_text(
            p.name@,
        ) + dispatcher_decode_text() + dispatcher_queue_text(spec_snake_to_camel(p.name@)),
        ("/// A request generated by the protocol "@ + p.name@ + ".\n"@ + "///\n"@).is_prefix_of(
            request_machinery_text(p),
        ),
        dispatcher_queue_text(spec_snake_to_camel(p.name@)).is_suffix_of(request_machinery_text(p)),
{
    reveal(request_machinery_text);
    let d = request_enum_doc_text(p.name@);
    let t = request_machinery_text(p);
    let q = dispatcher_queue_text(spec_snake_to_camel(p.name@));
    assert(t =~= request_enum_doc_text(p.name@) + request_enum_text(p) + dispatcher_alias_text(
        p.name@,
    ) + dispatcher_start_text() + dispatcher_transmute_text(p.name@) + dispatcher_decode_text()
        + q);
    let pre = "/// A request generated by the protocol "@ + p.name@ + ".\n"@ + "///\n"@;
    assert(pre.is_prefix_of(d)) by {
        assert(d.subrange(0, pre.len() as int) =~= pre);
    }
    assert(pre.is_prefix_of(t)) by {
        assert(t.subrange(0, pre.len() as int) =~= d.subrange(0, pre.len() as int));
    }
    assert(q =~= t.subrange(t.len() - q.len(), t.len() as int));
}

proof fn lemma_variants_depend_on_names(ifaces1: Seq<Interface>, ifaces2: Seq<Interface>, n: int)
    requires
        0 <= n <= ifaces1.len(),
        ifaces1.len() == ifaces2.len(),
        forall|i: int|
            0 <= i < ifaces1.len() ==> #[trigger] ifaces1[i].name@ == ifaces2[i].name@ && (
            ifaces1[i].requests@.len() > 0) == (ifaces2[i].requests@.len() > 0),
    ensures
        request_variants_text(ifaces1, n) == request_variants_text(ifaces2, n),
    decreases n,
{
    if n > 0 {
        lemma_variants_depend_on_names(ifaces1, ifaces2, n - 1);
        assert(ifaces1[n - 1].name@ == ifaces2[n - 1].name@);
    }
}

/// The request machinery depends only on the protocol's name and, for each
/// interface in order, its name and whether it has requests.
pub proof fn lemma_request_machinery_depends_on_names(p1: Protocol, p2: Protocol)
    requires
        p1.name@ == p2.name@,
        p1.interfaces@.len() == p2.interfaces@.len(),
        forall|i: int|
            0 <= i < p1.interfaces@.len() ==> #[trigger] p1.interfaces@[i].name@
                == p2.interfaces@[i].name@ && (p1.interfaces@[i].requests@.len() > 0) == (
            p2.interfaces@[i].requests@.len() > 0),
    ensures
        request_machinery_text(p1) == request_machinery_text(p2),
{
    reveal(request_machinery_text);
    lemma_variants_depend_on_names(p1.interfaces@, p2.interfaces@, p1.interfaces@.len() as int);
}

// ---------------------------------------------------------------------------
// The resource type and the methods of an interface
// ---------------------------------------------------------------------------

/// The resource type of an interface depends only on its name, version,
/// description and whether it has requests.
pub proof fn lemma_iface_struct_depends_on(
    camel_iname: Seq<char>,
    i1: Interface,
    i2: Interface,
    pname: Seq<char>,
)
    requires
        i1.name@ == i2.name@,
        i1.version == i2.version,
        i1.description == i2.description,
        (i1.requests@.len() > 0) == (i2.requests@.len() > 0),
    ensures
        iface_struct_pieces(camel_iname, i1, pname) == iface_struct_pieces(camel_iname, i2, pname),
{
    reveal(iface_struct_text);
}

proof fn lemma_events_prefix(
    e1: Seq<Message>,
    e2: Seq<Message>,
    iname: Seq<char>,
    camel_iname: Seq<char>,
    bitfields: Seq<String>,
    n: int,
)
    requires
        0 <= n <= e1.len(),
        n <= e2.len(),
        forall|k: int| 0 <= k < n ==> e1[k] == e2[k],
    ensures
        events_pieces(e1, iname, camel_iname, bitfields, n) == events_pieces(
            e2,
            iname,
            camel_iname,
            bitfields,
            n,
        ),
    decreases n,
{
    if n > 0 {
        lemma_events_prefix(e1, e2, iname, camel_iname, bitfields, n - 1);
    }
}

proof fn lemma_events_concat_upto(
    e1: Seq<Message>,
    e2: Seq<Message>,
    iname: Seq<char>,
    camel_iname: Seq<char>,
    bitfields: Seq<String>,
    m: int,
)
    requires
        0 <= m <= e2.len(),
    ensures
        events_pieces(e1 + e2, iname, camel_iname, bitfields, e1.len() + m) == events_pieces(
            e1,
            iname,
            camel_iname,
            bitfields,
            e1.len() as int,
        ) + events_pieces(e2, iname, camel_iname, bitfields, m),
    decreases m,
{
    if m == 0 {
        lemma_events_prefix(e1 + e2, e1, iname, camel_iname, bitfields, e1.len() as int);
        assert(events_pieces(e2, iname, camel_iname, bitfields, 0) =~= Seq::<PieceView>::empty());
        assert(events_pieces(e1, iname, camel_iname, bitfields, e1.len() as int) + Seq::<
            PieceView,
        >::empty() =~= events_pieces(e1, iname, camel_iname, bitfields, e1.len() as int));
    } else {
        lemma_events_concat_upto(e1, e2, iname, camel_iname, bitfields, m - 1);
        assert((e1 + e2)[e1.len() + m - 1] == e2[m - 1]);
        let a = events_pieces(e1, iname, camel_iname, bitfields, e1.len() as int);
        let b = events_pieces(e2, iname, camel_iname, bitfields, m - 1);
        let c = event_pieces(e2[m - 1], iname, camel_iname, bitfields);
        assert((a + b) + c =~= a + (b + c));
    }
}

/// The methods of an interface whose events are `e1` followed by `e2` are
/// those of `e1` followed by those of `e2`, between the same opening line
/// and closing text.
pub proof fn lemma_events_concat(
    e1: Seq<Message>,
    e2: Seq<Message>,
    iname: Seq<char>,
    camel_iname: Seq<char>,
    bitfields: Seq<String>,
)
    ensures
        events_pieces(e1 + e2, iname, camel_iname, bitfields, (e1 + e2).len() as int)
            == events_pieces(e1, iname, camel_iname, bitfields, e1.len() as int) + events_pieces(
            e2,
            iname,
            camel_iname,
            bitfields,
            e2.len() as int,
        ),
        iface_impl_pieces(e1 + e2, iname, camel_iname, bitfields) == seq![
            text("impl "@ + camel_iname + " {\n"@),
        ] + events_pieces(e1, iname, camel_iname, bitfields, e1.len() as int) + events_pieces(
            e2,
            iname,
            camel_iname,
            bitfields,
            e2.len() as int,
        ) + seq![text(impl_tail_text(camel_iname))],
{
    lemma_events_concat_upto(e1, e2, iname, camel_iname, bitfields, e2.len() as int);
    let h = seq![text("impl "@ + camel_iname + " {\n"@)];
    let a = events_pieces(e1, iname, camel_iname, bitfields, e1.len() as int);
    let b = events_pieces(e2, iname, camel_iname, bitfields, e2.len() as int);
    let t = seq![text(impl_tail_text(camel_iname))];
    assert(h + (a + b) + t =~= h + a + b + t);
}

/// Two lists of bit-set enum names with the same members.
pub open spec fn same_members(bf1: Seq<String>, bf2: Seq<String>) -> bool {
    forall|x: Seq<char>|
        #![trigger seq_has_string(bf1, x)]
        #![trigger seq_has_string(bf2, x)]
        seq_has_string(bf1, x) == seq_has_string(bf2, x)
}

proof fn lemma_sig_members(
    args: Seq<crate::protocol::Arg>,
    iname: Seq<char>,
    camel_iname: Seq<char>,
    bf1: Seq<String>,
    bf2: Seq<String>,
    n: int,
)
    requires
        same_members(bf1, bf2),
    ensures
        sig_pieces(args, iname, camel_iname, bf1, n) == sig_pieces(args, iname, camel_iname, bf2, n),
        post_args_text(args, iname, bf1, n) == post_args_text(args, iname, bf2, n),
    decreases n,
{
    if n > 0 {
        lemma_sig_members(args, iname, camel_iname, bf1, bf2, n - 1);
        reveal(arg_sig_pieces);
        let a = args[n - 1];
        match a.enum_ {
            Some(e) => {
                assert(seq_has_string(bf1, e@) == seq_has_string(bf2, e@));
                assert(seq_has_string(bf1, iname + "."@ + e@) == seq_has_string(
                    bf2,
                    iname + "."@ + e@,
                ));
                assert(enum_type_text(e@, iname, camel_iname, bf1) == enum_type_text(
                    e@,
                    iname,
                    camel_iname,
                    bf2,
                ));
                assert(post_arg_text(a, iname, bf1) == post_arg_text(a, iname, bf2));
            },
            None => {},
        }
        assert(arg_sig_pieces(a, iname, camel_iname, bf1) == arg_sig_pieces(
            a,
            iname,
            camel_iname,
            bf2,
        ));
    }
}

proof fn lemma_events_members(
    events: Seq<Message>,
    iname: Seq<char>,
    camel_iname: Seq<char>,
    bf1: Seq<String>,
    bf2: Seq<String>,
    n: int,
)
    requires
        same_members(bf1, bf2),
    ensures
        events_pieces(events, iname, camel_iname, bf1, n) == events_pieces(
            events,
            iname,
            camel_iname,
            bf2,
            n,
        ),
    decreases n,
{
    if n > 0 {
        lemma_events_members(events, iname, camel_iname, bf1, bf2, n - 1);
        let e = events[n - 1];
        lemma_sig_members(e.args@, iname, camel_iname, bf1, bf2, e.args@.len() as int);
        reveal(event_body_text);
        assert(event_body_text(e, iname, bf1) == event_body_text(e, iname, bf2));
    }
}

/// Only which enums are bit sets matters, not how the list of them is
/// ordered or repeated.
pub proof fn lemma_bitfields_membership(
    events: Seq<Message>,
    iname: Seq<char>,
    camel_iname: Seq<char>,
    bf1: Seq<String>,
    bf2: Seq<String>,
)
    requires
        same_members(bf1, bf2),
    ensures
        iface_impl_pieces(events, iname, camel_iname, bf1) == iface_impl_pieces(
            events,
            iname,
            camel_iname,
            bf2,
        ),
{
    lemma_events_members(events, iname, camel_iname, bf1, bf2, events.len() as int);
}

/// No argument of any event takes its values from an enum.
pub open spec fn no_enum_args(events: Seq<Message>) -> bool {
    forall|j: int, k: int|
        0 <= j < events.len() && 0 <= k < events[j].args@.len() ==> #[trigger] events[j].args@[k].enum_
            is None
}

proof fn lemma_sig_ignores_bitfields(
    args: Seq<Arg>,
    iname: Seq<char>,
    camel_iname: Seq<char>,
    bf1: Seq<String>,
    bf2: Seq<String>,
    n: int,
)
    requires
        n <= args.len(),
        forall|k: int| 0 <= k < args.len() ==> (#[trigger] args[k]).enum_ is None,
    ensures
        sig_pieces(args, iname, camel_iname, bf1, n) == sig_pieces(args, iname, camel_iname, bf2, n),
        post_args_text(args, iname, bf1, n) == post_args_text(args, iname, bf2, n),
    decreases n,
{
    if n > 0 {
        lemma_sig_ignores_bitfields(args, iname, camel_iname, bf1, bf2, n - 1);
        reveal(arg_sig_pieces);
        assert(args[n - 1].enum_ is None);
    }
}

proof fn lemma_events_ignore_bitfields(
    events: Seq<Message>,
    iname: Seq<char>,
    camel_iname: Seq<char>,
    bf1: Seq<String>,
    bf2: Seq<String>,
    n: int,
)
    requires
        n <= events.len(),
        no_enum_args(events),
    ensures
        events_pieces(events, iname, camel_iname, bf1, n) == events_pieces(
            events,
            iname,
            camel_iname,
            bf2,
            n,
        ),
    decreases n,
{
    if n > 0 {
        lemma_events_ignore_bitfields(events, iname, camel_iname, bf1, bf2, n - 1);
        let e = events[n - 1];
        assert forall|k: int| 0 <= k < e.args@.len() implies (#[trigger] e.args@[k]).enum_ is None by {
            assert(events[n - 1].args@[k].enum_ is None);
        }
        lemma_sig_ignores_bitfields(e.args@, iname, camel_iname, bf1, bf2, e.args@.len() as int);
        reveal(event_body_text);
        assert(event_body_text(e, iname, bf1) == event_body_text(e, iname, bf2));
    }
}

/// Where no argument of an event takes its values from an enum, the
/// `send_` methods do not depend on which enums are bit sets.
pub proof fn lemma_methods_ignore_bitfields_without_enums(
    events: Seq<Message>,
    iname: Seq<char>,
    camel_iname: Seq<char>,
    bf1: Seq<String>,
    bf2: Seq<String>,
)
    requires
        no_enum_args(events),
    ensures
        iface_impl_pieces(events, iname, camel_iname, bf1) == iface_impl_pieces(
            events,
            iname,
            camel_iname,
            bf2,
        ),
{
    lemma_events_ignore_bitfields(events, iname, camel_iname, bf1, bf2, events.len() as int);
}

// ---------------------------------------------------------------------------
// Where the comment that opens an interface's code can stand
// ---------------------------------------------------------------------------

/// Whether piece `v` is text that starts with the character `c`.
pub open spec fn starts_with_char(v: PieceView, c: char) -> bool {
    match v {
        PieceView::Text(s) => s.len() > 0 && s[0] == c,
        _ => false,
    }
}

/// A piece that is not text, or text that starts with neither `/` nor `f`.
pub open spec fn plain_piece(v: PieceView) -> bool {
    match v {
        PieceView::Text(s) => s.len() > 0 && s[0] != '/' && s[0] != 'f',
        _ => true,
    }
}

/// Every piece is plain.
pub open spec fn all_plain(ps: Seq<PieceView>) -> bool {
    forall|k: int| 0 <= k < ps.len() ==> plain_piece(#[trigger] ps[k])
}

proof fn lemma_all_plain_concat(a: Seq<PieceView>, b: Seq<PieceView>)
    requires
        all_plain(a),
        all_plain(b),
    ensures
        all_plain(a + b),
{
    assert forall|k: int| 0 <= k < (a + b).len() implies plain_piece(#[trigger] (a + b)[k]) by {
        if k < a.len() {
            assert((a + b)[k] == a[k]);
        } else {
            assert((a + b)[k] == b[k - a.len()]);
        }
    }
}

proof fn lemma_arg_sig_plain(a: Arg, iname: Seq<char>, camel_iname: Seq<char>, bitfields: Seq<String>)
    ensures
        all_plain(arg_sig_pieces(a, iname, camel_iname, bitfields)),
{
    reveal(arg_sig_pieces);
    reveal_strlit(" ");
    reveal_strlit(">,");
    reveal_strlit(",");
}

proof fn lemma_sig_plain(args: Seq<Arg>, iname: Seq<char>, camel_iname: Seq<char>, bitfields: Seq<String>, n: int)
    ensures
        all_plain(sig_pieces(args, iname, camel_iname, bitfields, n)),
    decreases n,
{
    if n > 0 {
        lemma_sig_plain(args, iname, camel_iname, bitfields, n - 1);
        lemma_arg_sig_plain(args[n - 1], iname, camel_iname, bitfields);
        lemma_all_plain_concat(
            sig_pieces(args, iname, camel_iname, bitfields, n - 1),
            arg_sig_pieces(args[n - 1], iname, camel_iname, bitfields),
        );
    }
}

proof fn lemma_event_plain(e: Message, iname: Seq<char>, camel_iname: Seq<char>, bitfields: Seq<String>)
    ensures
        all_plain(event_pieces(e, iname, camel_iname, bitfields)),
{
    reveal(event_head_text);
    reveal(event_body_text);
    reveal_strlit("    ///\n    /// Requires interface version `>= ");
    reveal_strlit("    pub  fn send_");
    reveal_strlit(")");
    let d = doc_pieces(e.description, "    "@);
    let h = seq![text(event_head_text(e))];
    let sg = sig_pieces(e.args@, iname, camel_iname, bitfields, e.args@.len() as int);
    let b = seq![text(event_body_text(e, iname, bitfields))];
    assert(plain_piece(h[0]));
    assert(plain_piece(b[0]));
    lemma_sig_plain(e.args@, iname, camel_iname, bitfields, e.args@.len() as int);
    lemma_all_plain_concat(d, h);
    lemma_all_plain_concat(d + h, sg);
    lemma_all_plain_concat(d + h + sg, b);
}

proof fn lemma_events_plain(events: Seq<Message>, iname: Seq<char>, camel_iname: Seq<char>, bitfields: Seq<String>, n: int)
    ensures
        all_plain(events_pieces(events, iname, camel_iname, bitfields, n)),
    decreases n,
{
    if n > 0 {
        lemma_events_plain(events, iname, camel_iname, bitfields, n - 1);
        lemma_event_plain(events[n - 1], iname, camel_iname, bitfields);
        lemma_all_plain_concat(
            events_pieces(events, iname, camel_iname, bitfields, n - 1),
            event_pieces(events[n - 1], iname, camel_iname, bitfields),
        );
    }
}

proof fn lemma_impl_plain(events: Seq<Message>, iname: Seq<char>, camel_iname: Seq<char>, bitfields: Seq<String>)
    ensures
        all_plain(iface_impl_pieces(events, iname, camel_iname, bitfields)),
{
    reveal(impl_tail_text);
    reveal_strlit("impl ");
    reveal_strlit("}\n\n");
    let h = seq![text("impl "@ + camel_iname + " {\n"@)];
    let ev = events_pieces(events, iname, camel_iname, bitfields, events.len() as int);
    let t = seq![text(impl_tail_text(camel_iname))];
    assert(plain_piece(h[0]));
    assert(plain_piece(t[0]));
    lemma_events_plain(events, iname, camel_iname, bitfields, events.len() as int);
    lemma_all_plain_concat(h, ev);
    lemma_all_plain_concat(h + ev, t);
}

proof fn lemma_struct_plain(camel_iname: Seq<char>, iface: Interface, pname: Seq<char>)
    ensures
        all_plain(iface_struct_pieces(camel_iname, iface, pname)),
{
    reveal(iface_struct_text);
    reveal_strlit("pub struct ");
    let d = doc_pieces(iface.description, ""@);
    let t = seq![text(iface_struct_text(camel_iname, iface, pname))];
    assert(plain_piece(t[0]));
    lemma_all_plain_concat(d, t);
}

/// What the comment that opens an interface's code looks like: it starts
/// with `//\n// i`, and different interface names give different comments.
proof fn lemma_header_shape(a: Seq<char>, b: Seq<char>)
    ensures
        interface_header_text(a).len() > 6,
        interface_header_text(a)[0] == '/',
        interface_header_text(a)[2] == '\n',
        interface_header_text(a)[6] == 'i',
        interface_header_text(a) == interface_header_text(b) ==> a == b,
{
    reveal_strlit("//\n// interface ");
    reveal_strlit("\n//\n\n");
    if interface_header_text(a) == interface_header_text(b) {
        assert(a =~= interface_header_text(a).subrange(16, 16 + a.len() as int));
        assert(b =~= interface_header_text(b).subrange(16, 16 + b.len() as int));
    }
}

/// The decoding function of an interface starts with `f`.
proof fn lemma_handlers_start(msgs: Seq<Message>, iname: Seq<char>, camel_iname: Seq<char>, pname: Seq<char>)
    ensures
        starts_with_char(text(message_handlers_text(msgs, iname, camel_iname, pname)), 'f'),
{
    reveal(message_handlers_text);
    reveal_strlit("fn ");
}

/// The file's opening pieces differ from the comment of any interface.
proof fn lemma_head_not_header(p: Protocol, name: Seq<char>)
    ensures
        text(preamble_text(p)) != text(interface_header_text(name)),
        text(request_machinery_text(p)) != text(interface_header_text(name)),
{
    reveal(preamble_text);
    reveal(request_machinery_text);
    reveal_strlit("//\n// This file was auto-generated, do not edit directly\n//\n\n");
    reveal_strlit("/// A request generated by the protocol ");
    lemma_header_shape(name, name);
    assert(preamble_text(p)[6] == 'T');
    assert(request_machinery_text(p)[2] == '/');
}

/// In the code of interface `j`, only the first piece can start with `/`,
/// and it is the comment naming the interface; text that starts with `f` is
/// its decoding function, present exactly for an interface with requests.
proof fn lemma_section_shape(p: Protocol, bitfields: Seq<String>, j: int)
    requires
        0 <= j < p.interfaces@.len(),
    ensures
        ({
            let s = interface_section(p, bitfields, j);
            let iface = p.interfaces@[j];
            &&& forall|k: int| 0 < k < s.len() ==> !starts_with_char(#[trigger] s[k], '/')
            &&& s.len() > 0 <==> !is_builtin_interface(iface.name@)
            &&& s.len() > 0 ==> s[0] == text(interface_header_text(iface.name@))
            &&& s.contains(
                text(
                    message_handlers_text(
                        iface.requests@,
                        iface.name@,
                        spec_snake_to_camel(iface.name@),
                        p.name@,
                    ),
                ),
            ) <==> (!is_builtin_interface(iface.name@) && iface.requests@.len() > 0)
            &&& forall|k: int|
                0 <= k < s.len() && starts_with_char(#[trigger] s[k], 'f') ==> s[k] == text(
                    message_handlers_text(
                        iface.requests@,
                        iface.name@,
                        spec_snake_to_camel(iface.name@),
                        p.name@,
                    ),
                ) && !is_builtin_interface(iface.name@) && iface.requests@.len() > 0
            &&& !is_builtin_interface(iface.name@) ==> s.contains(
                text(iface_struct_text(spec_snake_to_camel(iface.name@), iface, p.name@)),
            )
        }),
{
    let iface = p.interfaces@[j];
    let s = interface_section(p, bitfields, j);
    if !is_builtin_interface(iface.name@) {
        let camel = spec_snake_to_camel(iface.name@);
        let h = text(message_handlers_text(iface.requests@, iface.name@, camel, p.name@));
        let hd = seq![text(interface_header_text(iface.name@))];
        let st = iface_struct_pieces(camel, iface, p.name@);
        let o = seq![PieceView::Opcodes(j as nat)];
        let r = if iface.requests@.len() > 0 {
            seq![PieceView::RequestEnums(j as nat), h]
        } else {
            Seq::empty()
        };
        let im = iface_impl_pieces(iface.events@, iface.name@, camel, bitfields);
        lemma_struct_plain(camel, iface, p.name@);
        lemma_impl_plain(iface.events@, iface.name@, camel, bitfields);
        lemma_handlers_start(iface.requests@, iface.name@, camel, p.name@);
        let rest = st + o + r + im;
        assert(s =~= hd + rest);
        assert forall|k: int| 0 < k < s.len() implies !starts_with_char(#[trigger] s[k], '/') by {
            assert(s[k] == rest[k - 1]);
            let q = k - 1;
            if q < st.len() {
                assert(rest[q] == st[q]);
                assert(plain_piece(st[q]));
            } else if q < st.len() + 1 {
                assert(rest[q] == o[q - st.len()]);
            } else if q < st.len() + 1 + r.len() {
                assert(rest[q] == r[q - st.len() - 1]);
            } else {
                assert(rest[q] == im[q - st.len() - 1 - r.len()]);
                assert(plain_piece(im[q - st.len() - 1 - r.len()]));
            }
        }
        lemma_header_shape(iface.name@, iface.name@);
        assert forall|k: int| 0 <= k < s.len() && starts_with_char(#[trigger] s[k], 'f') implies s[k]
            == h && iface.requests@.len() > 0 by {
            if k == 0 {
                assert(s[0] == hd[0]);
            } else {
                assert(s[k] == rest[k - 1]);
                let q = k - 1;
                if q < st.len() {
                    assert(rest[q] == st[q]);
                    assert(plain_piece(st[q]));
                } else if q < st.len() + 1 {
                    assert(rest[q] == o[q - st.len()]);
                } else if q < st.len() + 1 + r.len() {
                    assert(rest[q] == r[q - st.len() - 1]);
                } else {
                    assert(rest[q] == im[q - st.len() - 1 - r.len()]);
                    assert(plain_piece(im[q - st.len() - 1 - r.len()]));
                }
            }
        }
        let sv = text(iface_struct_text(camel, iface, p.name@));
        assert(st[st.len() - 1] == sv);
        assert(s[st.len() as int] == rest[st.len() - 1]);
        assert(rest[st.len() - 1] == st[st.len() - 1]);
        crate::server_gen::lemma_contains_concat(hd + st + o + r, im, h);
        crate::server_gen::lemma_contains_concat(hd + st + o, r, h);
        crate::server_gen::lemma_contains_concat(hd + st, o, h);
        crate::server_gen::lemma_contains_concat(hd, st, h);
        if st.contains(h) {
            let k = choose|k: int| 0 <= k < st.len() && st[k] == h;
            assert(plain_piece(st[k]));
        }
        if im.contains(h) {
            let k = choose|k: int| 0 <= k < im.len() && im[k] == h;
            assert(plain_piece(im[k]));
        }
        if hd.contains(h) {
            assert(hd[0] == h);
        }
        if iface.requests@.len() > 0 {
            assert(r[1] == h);
        }
    }
}

proof fn lemma_sections_len_step(p: Protocol, bitfields: Seq<String>, a: int, b: int)
    requires
        0 <= a <= b,
    ensures
        interface_sections(p, bitfields, a).len() <= interface_sections(p, bitfields, b).len(),
    decreases b - a,
{
    if a < b {
        lemma_sections_len_step(p, bitfields, a, b - 1);
    }
}

/// Piece `r` of the code of interface `j` stands at `r` past the start of
/// that code among the code of the first `n` interfaces.
proof fn lemma_sections_at(p: Protocol, bitfields: Seq<String>, n: int, j: int, r: int)
    requires
        0 <= j < n,
        0 <= r < interface_section(p, bitfields, j).len(),
    ensures
        interface_sections(p, bitfields, j).len() + r < interface_sections(p, bitfields, n).len(),
        interface_sections(p, bitfields, n)[interface_sections(p, bitfields, j).len() + r]
            == interface_section(p, bitfields, j)[r],
    decreases n,
{
    if j < n - 1 {
        lemma_sections_at(p, bitfields, n - 1, j, r);
    }
}

/// Every piece of the code of the first `n` interfaces belongs to the code
/// of one of them.
proof fn lemma_sections_locate(p: Protocol, bitfields: Seq<String>, n: int, k: int) -> (j: int)
    requires
        0 <= n,
        0 <= k < interface_sections(p, bitfields, n).len(),
    ensures
        0 <= j < n,
        interface_sections(p, bitfields, j).len() <= k,
        k - interface_sections(p, bitfields, j).len() < interface_section(p, bitfields, j).len(),
        interface_sections(p, bitfields, n)[k] == interface_section(p, bitfields, j)[k
            - interface_sections(p, bitfields, j).len()],
    decreases n,
{
    let prev = interface_sections(p, bitfields, n - 1);
    if k < prev.len() {
        lemma_sections_locate(p, bitfields, n - 1, k)
    } else {
        n - 1
    }
}

/// The comment that opens the code of interface `i` appears in the file
/// exactly when the interface is not one the library handles itself; it
/// then appears once, at the start of that interface's code, and the code
/// of the interfaces comes in their order.
pub proof fn lemma_interface_headers(p: Protocol, bitfields: Seq<String>, i: int)
    requires
        0 <= i < p.interfaces@.len(),
        forall|a: int, b: int|
            0 <= a < p.interfaces@.len() && 0 <= b < p.interfaces@.len() && a != b
                ==> #[trigger] p.interfaces@[a].name@ != #[trigger] p.interfaces@[b].name@,
    ensures
        server_api_pieces(p, bitfields).contains(text(interface_header_text(p.interfaces@[i].name@)))
            <==> !is_builtin_interface(p.interfaces@[i].name@),
        forall|k: int|
            0 <= k < server_api_pieces(p, bitfields).len() && server_api_pieces(p, bitfields)[k]
                == text(interface_header_text(p.interfaces@[i].name@)) ==> k == 2
                + p.interfaces@.len() + interface_sections(p, bitfields, i).len(),
        forall|j: int|
            i < j <= p.interfaces@.len() && !is_builtin_interface(p.interfaces@[i].name@)
                ==> interface_sections(p, bitfields, i).len() < #[trigger] interface_sections(
                p,
                bitfields,
                j,
            ).len(),
{
    let n = p.interfaces@.len() as int;
    let name = p.interfaces@[i].name@;
    let hv = text(interface_header_text(name));
    let head = seq![text(preamble_text(p)), text(request_machinery_text(p))];
    let en = enums_pieces(n as nat);
    let secs = interface_sections(p, bitfields, n);
    let all = server_api_pieces(p, bitfields);
    assert(all == head + en + secs);
    lemma_head_not_header(p, name);
    lemma_section_shape(p, bitfields, i);
    assert forall|k: int| 0 <= k < all.len() && all[k] == hv implies k == 2 + n
        + interface_sections(p, bitfields, i).len() by {
        if k < 2 {
            assert(all[k] == head[k]);
        } else if k < 2 + n {
            assert(all[k] == en[k - 2]);
        } else {
            assert(all[k] == secs[k - 2 - n]);
            let j = lemma_sections_locate(p, bitfields, n, k - 2 - n);
            let r = k - 2 - n - interface_sections(p, bitfields, j).len();
            lemma_section_shape(p, bitfields, j);
            lemma_header_shape(name, p.interfaces@[j].name@);
            let sj = interface_section(p, bitfields, j);
            assert(sj[r] == hv);
            assert(starts_with_char(hv, '/'));
            assert(r == 0);
            assert(p.interfaces@[j].name@ == name);
            assert(j == i);
        }
    }
    if !is_builtin_interface(name) {
        lemma_sections_at(p, bitfields, n, i, 0);
        let k = 2 + n + interface_sections(p, bitfields, i).len();
        assert(all[k] == secs[k - 2 - n]);
        assert(all[k] == hv);
    } else {
        if all.contains(hv) {
            let k = choose|k: int| 0 <= k < all.len() && all[k] == hv;
            let k2 = k - 2 - n;
            assert(all[k] == secs[k2]);
            let j = lemma_sections_locate(p, bitfields, n, k2);
            let r = k2 - interface_sections(p, bitfields, j).len();
            lemma_section_shape(p, bitfields, j);
            lemma_header_shape(name, p.interfaces@[j].name@);
            let sj = interface_section(p, bitfields, j);
            assert(sj[r] == hv);
            assert(starts_with_char(hv, '/'));
            assert(r == 0);
            assert(p.interfaces@[j].name@ == name);
            assert(j == i);
            assert(interface_section(p, bitfields, i).len() == 0);
            assert(false);
        }
    }
    assert forall|j: int|
        i < j <= n && !is_builtin_interface(name) implies interface_sections(p, bitfields, i).len()
        < #[trigger] interface_sections(p, bitfields, j).len() by {
        lemma_sections_len_step(p, bitfields, i + 1, j);
    }
}

/// Request decoding is wired up exactly for the interfaces with requests
/// that the library does not handle itself: the variant of the request
/// enum, the request enum of the interface, its decoding function; and the
/// resource registers its decoding function exactly when it has requests.
pub proof fn lemma_request_decoding_wired(p: Protocol, bitfields: Seq<String>, i: int)
    requires
        0 <= i < p.interfaces@.len(),
    ensures
        ({
            let iface = p.interfaces@[i];
            let wired = !is_builtin_interface(iface.name@) && iface.requests@.len() > 0;
            &&& (request_variant_text(iface).len() > 0 <==> wired)
            &&& (server_api_pieces(p, bitfields).contains(PieceView::RequestEnums(i as nat))
                <==> wired)
            &&& (interface_section(p, bitfields, i).contains(
                text(
                    message_handlers_text(
                        iface.requests@,
                        iface.name@,
                        spec_snake_to_camel(iface.name@),
                        p.name@,
                    ),
                ),
            ) <==> wired)
            &&& (dispatcher_registration_text(iface).len() > 0 <==> iface.requests@.len() > 0)
            &&& iface_struct_text(spec_snake_to_camel(iface.name@), iface, p.name@) == struct_head_text(
                spec_snake_to_camel(iface.name@),
                iface.name@,
                iface.version,
            ) + dispatcher_registration_text(iface) + struct_tail_text(
                spec_snake_to_camel(iface.name@),
                iface.name@,
                p.name@,
            )
        }),
{
    reveal(iface_struct_text);
    reveal_strlit("    ");
    reveal_strlit(
        "        ffi_dispatch!(WAYLAND_SERVER_HANDLE, wl_resource_set_dispatcher, ptr, event_dispatcher, ",
    );
    crate::server_gen::lemma_interface_shared_sections(p, bitfields, i);
    lemma_section_shape(p, bitfields, i);
}

/// The decoding function of an interface names it: for names without `(`,
/// equal decoding functions belong to interfaces of the same name.
proof fn lemma_handlers_name(
    ma: Seq<Message>,
    a: Seq<char>,
    ca: Seq<char>,
    pa: Seq<char>,
    mb: Seq<Message>,
    b: Seq<char>,
    cb: Seq<char>,
    pb: Seq<char>,
)
    requires
        !a.contains('('),
        !b.contains('('),
        message_handlers_text(ma, a, ca, pa) == message_handlers_text(mb, b, cb, pb),
    ensures
        a == b,
{
    reveal(message_handlers_text);
    let l = "_implem(resource: *mut wl_resource, opcode: u32, args: *const wl_argument) -> Option<"@;
    reveal_strlit("fn ");
    reveal_strlit(
        "_implem(resource: *mut wl_resource, opcode: u32, args: *const wl_argument) -> Option<",
    );
    let ta = message_handlers_text(ma, a, ca, pa);
    let tb = message_handlers_text(mb, b, cb, pb);
    let xa = "fn "@ + a + l;
    let xb = "fn "@ + b + l;
    assert(xa.is_prefix_of(ta)) by {
        assert(ta.subrange(0, xa.len() as int) =~= xa);
    }
    assert(xb.is_prefix_of(tb)) by {
        assert(tb.subrange(0, xb.len() as int) =~= xb);
    }
    assert(l[7] == '(');
    assert(forall|x: int| 0 <= x < 7 ==> l[x] != '(');
    if a.len() < b.len() {
        let idx: int = 3 + a.len() as int + 7;
        assert(ta[idx] == xa[idx]);
        assert(xa[idx] == '(');
        assert(tb[idx] == xb[idx]);
        if a.len() + 7 < b.len() {
            assert(xb[idx] == b[a.len() + 7 as int]);
        } else {
            assert(xb[idx] == l[a.len() + 7 - b.len() as int]);
        }
        assert(false);
    } else if b.len() < a.len() {
        let idx: int = 3 + b.len() as int + 7;
        assert(tb[idx] == xb[idx]);
        assert(xb[idx] == '(');
        assert(ta[idx] == xa[idx]);
        if b.len() + 7 < a.len() {
            assert(xa[idx] == a[b.len() + 7 as int]);
        } else {
            assert(xa[idx] == l[b.len() + 7 - a.len() as int]);
        }
        assert(false);
    } else {
        assert forall|x: int| 0 <= x < a.len() implies a[x] == b[x] by {
            assert(ta[3 + x] == xa[3 + x]);
            assert(tb[3 + x] == xb[3 + x]);
        }
        assert(a =~= b);
    }
}

/// The opening pieces of the file start with `/`.
proof fn lemma_head_starts_with_slash(p: Protocol)
    ensures
        starts_with_char(text(preamble_text(p)), '/'),
        starts_with_char(text(request_machinery_text(p)), '/'),
{
    reveal(preamble_text);
    reveal(request_machinery_text);
    reveal_strlit("//\n// This file was auto-generated, do not edit directly\n//\n\n");
    reveal_strlit("/// A request generated by the protocol ");
}

/// Across the whole file, request decoding is wired up exactly for the
/// interfaces with requests that the library does not handle itself: for
/// those, and only those, the file holds the interface's decoding function,
/// its request enum and a variant of the protocol's request enum, and the
/// resource type (present for every interface that gets code) registers the
/// decoding function with the dispatcher exactly when it has requests.
/// Interface names are distinct identifiers (without `(`).
pub proof fn lemma_request_decoding_wired_in_file(p: Protocol, bitfields: Seq<String>, i: int)
    requires
        0 <= i < p.interfaces@.len(),
        forall|a: int, b: int|
            0 <= a < p.interfaces@.len() && 0 <= b < p.interfaces@.len() && a != b
                ==> #[trigger] p.interfaces@[a].name@ != #[trigger] p.interfaces@[b].name@,
        forall|a: int| 0 <= a < p.interfaces@.len() ==> !(#[trigger] p.interfaces@[a].name@).contains('('),
    ensures
        ({
            let iface = p.interfaces@[i];
            let camel = spec_snake_to_camel(iface.name@);
            let all = server_api_pieces(p, bitfields);
            let wired = !is_builtin_interface(iface.name@) && iface.requests@.len() > 0;
            &&& (all.contains(text(message_handlers_text(iface.requests@, iface.name@, camel, p.name@)))
                <==> wired)
            &&& (all.contains(PieceView::RequestEnums(i as nat)) <==> wired)
            &&& (request_variant_text(iface).len() > 0 <==> wired)
            &&& !is_builtin_interface(iface.name@) ==> all.contains(
                text(iface_struct_text(camel, iface, p.name@)),
            )
            &&& (dispatcher_registration_text(iface).len() > 0 <==> iface.requests@.len() > 0)
            &&& iface_struct_text(camel, iface, p.name@) == struct_head_text(
                camel,
                iface.name@,
                iface.version,
            ) + dispatcher_registration_text(iface) + struct_tail_text(camel, iface.name@, p.name@)
        }),
{
    let n = p.interfaces@.len() as int;
    let iface = p.interfaces@[i];
    let camel = spec_snake_to_camel(iface.name@);
    let h = text(message_handlers_text(iface.requests@, iface.name@, camel, p.name@));
    let head = seq![text(preamble_text(p)), text(request_machinery_text(p))];
    let en = enums_pieces(n as nat);
    let secs = interface_sections(p, bitfields, n);
    let all = server_api_pieces(p, bitfields);
    assert(all == head + en + secs);
    lemma_request_decoding_wired(p, bitfields, i);
    lemma_section_shape(p, bitfields, i);
    lemma_handlers_start(iface.requests@, iface.name@, camel, p.name@);
    lemma_head_starts_with_slash(p);
    let si = interface_section(p, bitfields, i);
    if si.contains(h) {
        let r = choose|r: int| 0 <= r < si.len() && si[r] == h;
        lemma_sections_at(p, bitfields, n, i, r);
        let k = 2 + n + interface_sections(p, bitfields, i).len() + r;
        assert(all[k] == secs[k - 2 - n]);
        assert(all[k] == h);
    }
    if all.contains(h) {
        let k = choose|k: int| 0 <= k < all.len() && all[k] == h;
        if k < 2 {
            assert(all[k] == head[k]);
        } else if k < 2 + n {
            assert(all[k] == en[k - 2]);
        } else {
            let k2 = k - 2 - n;
            assert(all[k] == secs[k2]);
            let j = lemma_sections_locate(p, bitfields, n, k2);
            let r = k2 - interface_sections(p, bitfields, j).len();
            lemma_section_shape(p, bitfields, j);
            let sj = interface_section(p, bitfields, j);
            assert(sj[r] == h);
            let ij = p.interfaces@[j];
            assert(starts_with_char(sj[r], 'f'));
            lemma_handlers_name(
                ij.requests@,
                ij.name@,
                spec_snake_to_camel(ij.name@),
                p.name@,
                iface.requests@,
                iface.name@,
                camel,
                p.name@,
            );
            assert(j == i);
        }
    }
    if !is_builtin_interface(iface.name@) {
        let sv = text(iface_struct_text(camel, iface, p.name@));
        let r = choose|r: int| 0 <= r < si.len() && si[r] == sv;
        lemma_sections_at(p, bitfields, n, i, r);
        let k = 2 + n + interface_sections(p, bitfields, i).len() + r;
        assert(all[k] == secs[k - 2 - n]);
        assert(all[k] == sv);
    }
}

// ---------------------------------------------------------------------------
// The decoding function of an interface
// ---------------------------------------------------------------------------

/// The start of the decoding function of interface `iname`, up to its match arms.
pub open spec fn handler_head_text(iname: Seq<char>, pname: Seq<char>) -> Seq<char> {
    "fn "@ + iname
        + "_implem(resource: *mut wl_resource, opcode: u32, args: *const wl_argument) -> Option<"@
        + spec_snake_to_camel(pname) + "ProtocolRequest> {\n"@ + "    let event = match opcode {\n"@
}

/// The end of the decoding function: any other opcode gives no request, and
/// a decoded request is wrapped in the protocol's request enum.
pub open spec fn handler_tail_text(camel_iname: Seq<char>, pname: Seq<char>) -> Seq<char> {
    "        _ => None\n"@ + "    };\n"@
        + "    let client = unsafe { ffi_dispatch!(WAYLAND_SERVER_HANDLE, wl_resource_get_client, resource) };\n"@
        + "    event.map(|event| "@ + spec_snake_to_camel(pname) + "ProtocolRequest::"@ + camel_iname
        + "(wrap_client(client), wrap_resource(resource), event))\n"@ + "}\n\n"@
}

/// The decoding function starts with its head, then has one match arm per
/// request, arm `k` for opcode `k` decoding request `k`, in order, then the
/// arm that gives no request for any other opcode, and ends by wrapping the
/// decoded request.
pub proof fn lemma_message_handlers_layout(
    msgs: Seq<Message>,
    iname: Seq<char>,
    camel_iname: Seq<char>,
    pname: Seq<char>,
)
    ensures
        message_handlers_text(msgs, iname, camel_iname, pname) == handler_head_text(iname, pname)
            + handler_arms_text(msgs, iname, camel_iname, msgs.len() as int) + handler_tail_text(
            camel_iname,
            pname,
        ),
        handler_head_text(iname, pname).is_prefix_of(
            message_handlers_text(msgs, iname, camel_iname, pname),
        ),
        handler_tail_text(camel_iname, pname).is_suffix_of(
            message_handlers_text(msgs, iname, camel_iname, pname),
        ),
        forall|k: int|
            0 <= k < msgs.len() ==> (handler_arms_text(msgs, iname, camel_iname, k) + handler_arm_text(
                #[trigger] msgs[k],
                k,
                iname,
                camel_iname,
            )).is_prefix_of(handler_arms_text(msgs, iname, camel_iname, msgs.len() as int)),
{
    reveal(crate::server_gen::message_handlers_text);
    let t = message_handlers_text(msgs, iname, camel_iname, pname);
    let h = handler_head_text(iname, pname);
    let a = handler_arms_text(msgs, iname, camel_iname, msgs.len() as int);
    let tl = handler_tail_text(camel_iname, pname);
    assert(t =~= h + a + tl);
    assert(t.subrange(0, h.len() as int) =~= h);
    assert(t.subrange(t.len() - tl.len(), t.len() as int) =~= tl);
    assert forall|k: int| 0 <= k < msgs.len() implies (handler_arms_text(
        msgs,
        iname,
        camel_iname,
        k,
    ) + handler_arm_text(#[trigger] msgs[k], k, iname, camel_iname)).is_prefix_of(a) by {
        lemma_arms_prefix(msgs, iname, camel_iname, k + 1, msgs.len() as int);
    }
}

proof fn lemma_arms_prefix(msgs: Seq<Message>, iname: Seq<char>, camel_iname: Seq<char>, m: int, n: int)
    requires
        0 <= m <= n,
    ensures
        handler_arms_text(msgs, iname, camel_iname, m).is_prefix_of(
            handler_arms_text(msgs, iname, camel_iname, n),
        ),
    decreases n - m,
{
    let x = handler_arms_text(msgs, iname, camel_iname, m);
    if m < n {
        lemma_arms_prefix(msgs, iname, camel_iname, m, n - 1);
        let y = handler_arms_text(msgs, iname, camel_iname, n - 1);
        let z = handler_arms_text(msgs, iname, camel_iname, n);
        assert(z == y + handler_arm_text(msgs[n - 1], n - 1, iname, camel_iname));
        assert(z.subrange(0, x.len() as int) =~= y.subrange(0, x.len() as int));
    } else {
        assert(x.subrange(0, x.len() as int) =~= x);
    }
}

// ---------------------------------------------------------------------------
// The resource type of an interface
// ---------------------------------------------------------------------------

/// The resource type is the interface's doc comment, where it has one,
/// followed by text that does not depend on the description; the
/// registration of the decoding function stands between the start of
/// `from_ptr` (the end of `struct_head_text`) and the rest, which holds
/// `from_ptr_no_own`.
pub proof fn lemma_iface_struct_layout(camel_iname: Seq<char>, iface: Interface, other: Interface, pname: Seq<char>)
    requires
        other.name@ == iface.name@,
        other.version == iface.version,
        (other.requests@.len() > 0) == (iface.requests@.len() > 0),
    ensures
        iface_struct_pieces(camel_iname, iface, pname) == crate::server_gen::doc_pieces(
            iface.description,
            ""@,
        ) + seq![text(iface_struct_text(camel_iname, other, pname))],
        iface_struct_text(camel_iname, iface, pname) == struct_head_text(
            camel_iname,
            iface.name@,
            iface.version,
        ) + dispatcher_registration_text(iface) + struct_tail_text(camel_iname, iface.name@, pname),
{
    reveal(iface_struct_text);
}

} // verus!
