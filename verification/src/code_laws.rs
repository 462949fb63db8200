//! Laws on what the generated code does: how each request argument is read
//! from the wire, which Rust type each `send_` parameter gets, which
//! variants the protocol's request enum lists, and that every `send_`
//! method posts its event with all its arguments.

use vstd::prelude::*;

use crate::names::spec_snake_to_camel;
use crate::names::spec_snake_to_screaming;
use crate::output::{text, PieceView};
use crate::names::{spec_enum_parts, seq_has_string};
use crate::protocol::{is_builtin_interface, Arg, Interface, Message, Protocol, Type};
use crate::server_gen::{
    arg_read_text, arg_reads_text, arg_sig_pieces, arg_value_text, dec, event_body_text,
    event_head_text, handler_arm_text, iface_struct_text, interface_header_text, post_arg_text,
    post_args_text, preamble_text, request_enum_text, request_machinery_text,
    request_variant_text, request_variants_text, server_api_pieces, tuple_items_text,
};

verus! {

/// `needle` occurs in `hay`.
pub open spec fn occurs_in(needle: Seq<char>, hay: Seq<char>) -> bool {
    exists|k: int|
        0 <= k && k + needle.len() <= hay.len() && #[trigger] hay.subrange(k, k + needle.len())
            == needle
}

proof fn lemma_occurs_at(x: Seq<char>, needle: Seq<char>, y: Seq<char>)
    ensures
        occurs_in(needle, x + needle + y),
{
    let hay = x + needle + y;
    assert(hay.subrange(x.len() as int, x.len() + needle.len() as int) =~= needle);
}

// ---------------------------------------------------------------------------
// Reading request arguments
// ---------------------------------------------------------------------------

/// An object argument is read as a pointer to a resource and wrapped, whether
/// or not it names its interface.
pub proof fn lemma_object_argument_read(a: Arg, i: int, iname: Seq<char>)
    requires
        a.typ == Type::Object,
    ensures
        ("            let arg_"@ + dec(i) + " = unsafe {"@ + "wrap_resource(*(args.offset("@ + dec(i)
            + ") as *const *mut wl_resource))"@ + "};\n"@).is_prefix_of(arg_read_text(a, i, iname)),
{
    let x = "            let arg_"@ + dec(i) + " = unsafe {"@ + "wrap_resource(*(args.offset("@ + dec(i)
        + ") as *const *mut wl_resource))"@ + "};\n"@;
    assert(arg_read_text(a, i, iname).subrange(0, x.len() as int) =~= x);
}

/// How an argument is read depends on its wire type, its position and the
/// enum it takes its values from; the interface it names matters only for a
/// `new_id` argument, and its name and nullability not at all.
pub proof fn lemma_read_depends_on_wire_type(a: Arg, b: Arg, i: int, iname: Seq<char>)
    requires
        a.typ == b.typ,
        a.enum_ == b.enum_,
        a.typ == Type::NewId ==> a.interface == b.interface,
    ensures
        arg_read_text(a, i, iname) == arg_read_text(b, i, iname),
{
}

/// The C type in which the wire carries a value of wire type `t`.
pub open spec fn wire_c_type(t: Type) -> Seq<char> {
    match t {
        Type::Uint | Type::NewId => "u32"@,
        Type::Int | Type::Fd | Type::Fixed => "i32"@,
        Type::Object => "*mut wl_resource"@,
        Type::String => "*mut c_char"@,
        Type::Array => "*mut wl_array"@,
        Type::Destructor => Seq::empty(),
    }
}

/// The read of slot `i` of the raw argument array as the C type of wire
/// type `t`.
pub open spec fn slot_read_text(t: Type, i: int) -> Seq<char> {
    "*(args.offset("@ + dec(i) + ") as *const "@ + wire_c_type(t) + ")"@
}

/// Argument `i` of a request is read from slot `i` of the raw argument
/// array, as the C type that carries its wire type, in the line that binds
/// `arg_i`; a `new_id` argument creates a resource of the interface it
/// names.
pub proof fn lemma_argument_read_from_its_slot(a: Arg, i: int, iname: Seq<char>)
    requires
        a.typ != Type::Destructor,
    ensures
        occurs_in(slot_read_text(a.typ, i), arg_value_text(a.typ, a.interface, i)),
        ("            let arg_"@ + dec(i) + " = unsafe {"@ + arg_value_text(a.typ, a.interface, i)
            + "};\n"@).is_prefix_of(arg_read_text(a, i, iname)),
        occurs_in(slot_read_text(a.typ, i), arg_read_text(a, i, iname)),
        (a.typ == Type::NewId && a.interface is Some) ==> {
            let f = a.interface->Some_0@;
            &&& occurs_in(resource_create_text(f), arg_read_text(a, i, iname))
            &&& occurs_in(
                "let obj = "@ + spec_snake_to_camel(f) + "::from_ptr(ptr);"@,
                arg_read_text(a, i, iname),
            )
        },
{
    let v = arg_value_text(a.typ, a.interface, i);
    let pre = "            let arg_"@ + dec(i) + " = unsafe {"@;
    let line = pre + v + "};\n"@;
    let r = arg_read_text(a, i, iname);
    let conv = crate::server_gen::enum_conversion_text(a, i, iname);
    assert(r =~= line + conv);
    assert(r.subrange(0, line.len() as int) =~= line);
    lemma_value_reads_slot(a.typ, a.interface, i);
    lemma_occurs_extend(slot_read_text(a.typ, i), v, Seq::<char>::empty());
    assert(v + Seq::<char>::empty() =~= v);
    lemma_occurs_within(slot_read_text(a.typ, i), pre, v, "};\n"@ + conv);
    assert(pre + v + ("};\n"@ + conv) =~= r);
    if a.typ == Type::NewId && a.interface is Some {
        let f = a.interface->Some_0@;
        lemma_new_id_creates_resource(a.interface, i);
        lemma_occurs_within(resource_create_text(f), pre, v, "};\n"@ + conv);
        lemma_occurs_within(
            "let obj = "@ + spec_snake_to_camel(f) + "::from_ptr(ptr);"@,
            pre,
            v,
            "};\n"@ + conv,
        );
    }
}

proof fn lemma_occurs_within(w: Seq<char>, x: Seq<char>, v: Seq<char>, y: Seq<char>)
    requires
        occurs_in(w, v),
    ensures
        occurs_in(w, x + v + y),
{
    let c = choose|c: int| 0 <= c && c + w.len() <= v.len() && #[trigger] v.subrange(c, c + w.len()) == w;
    assert((x + v + y).subrange(x.len() + c, x.len() + c + w.len()) =~= v.subrange(c, c + w.len()));
}

proof fn lemma_value_reads_slot(t: Type, f: Option<String>, i: int)
    requires
        t != Type::Destructor,
    ensures
        occurs_in(slot_read_text(t, i), arg_value_text(t, f, i)),
{
    let v = arg_value_text(t, f, i);
    let w = slot_read_text(t, i);
    if t == Type::NewId {
        lemma_new_id_creates_resource(f, i);
        return;
    }
    reveal_strlit("*(args.offset(");
    reveal_strlit(") as *const ");
    reveal_strlit(")");
    match t {
        Type::Uint => {
            reveal_strlit(") as *const u32)");
            reveal_strlit("u32");
            assert(v =~= Seq::<char>::empty() + w + Seq::<char>::empty());
            lemma_occurs_at(Seq::<char>::empty(), w, Seq::<char>::empty());
        },
        Type::Int | Type::Fd => {
            reveal_strlit(") as *const i32)");
            reveal_strlit("i32");
            assert(v =~= Seq::<char>::empty() + w + Seq::<char>::empty());
            lemma_occurs_at(Seq::<char>::empty(), w, Seq::<char>::empty());
        },
        Type::Fixed => {
            reveal_strlit("wl_fixed_to_double(*(args.offset(");
            reveal_strlit("wl_fixed_to_double(");
            reveal_strlit(") as *const i32))");
            reveal_strlit("i32");
            assert(v =~= "wl_fixed_to_double("@ + w + ")"@);
            lemma_occurs_at("wl_fixed_to_double("@, w, ")"@);
        },
        Type::Object => {
            reveal_strlit("wrap_resource(*(args.offset(");
            reveal_strlit("wrap_resource(");
            reveal_strlit(") as *const *mut wl_resource))");
            reveal_strlit("*mut wl_resource");
            assert(v =~= "wrap_resource("@ + w + ")"@);
            lemma_occurs_at("wrap_resource("@, w, ")"@);
        },
        Type::String => {
            reveal_strlit("String::from_utf8_lossy(CStr::from_ptr(*(args.offset(");
            reveal_strlit("String::from_utf8_lossy(CStr::from_ptr(");
            reveal_strlit(") as *const *mut c_char)).to_bytes()).into_owned()");
            reveal_strlit(").to_bytes()).into_owned()");
            reveal_strlit("*mut c_char");
            assert(v =~= "String::from_utf8_lossy(CStr::from_ptr("@ + w
                + ").to_bytes()).into_owned()"@);
            lemma_occurs_at(
                "String::from_utf8_lossy(CStr::from_ptr("@,
                w,
                ").to_bytes()).into_owned()"@,
            );
        },
        _ => {
            let tail = "; ::std::slice::from_raw_parts((*array).data as *const u8, (*array).size as usize).to_owned() }"@;
            reveal_strlit("{ let array = *(args.offset(");
            reveal_strlit("{ let array = ");
            reveal_strlit(") as *const *mut wl_array); ::std::slice::from_raw_parts((*array).data as *const u8, (*array).size as usize).to_owned() }");
            reveal_strlit("; ::std::slice::from_raw_parts((*array).data as *const u8, (*array).size as usize).to_owned() }");
            reveal_strlit("*mut wl_array");
            assert(v =~= "{ let array = "@ + w + tail);
            lemma_occurs_at("{ let array = "@, w, tail);
        },
    }
}

/// The call that creates the resource of interface `f` for a new id.
pub open spec fn resource_create_text(f: Seq<char>) -> Seq<char> {
    "let ptr = ffi_dispatch!(WAYLAND_SERVER_HANDLE, wl_resource_create, client, &"@ + f
        + "_interface, version, id);"@
}

/// The read of a `new_id` argument takes the id from its slot and creates
/// a resource of the named interface.
proof fn lemma_new_id_creates_resource(f: Option<String>, i: int)
    ensures
        occurs_in(slot_read_text(Type::NewId, i), arg_value_text(Type::NewId, f, i)),
        occurs_in(
            resource_create_text(crate::server_gen::opt_text(f)),
            arg_value_text(Type::NewId, f, i),
        ),
        occurs_in(
            "let obj = "@ + spec_snake_to_camel(crate::server_gen::opt_text(f)) + "::from_ptr(ptr);"@,
            arg_value_text(Type::NewId, f, i),
        ),
{
    let v = arg_value_text(Type::NewId, f, i);
    let n = dec(i);
    let g = crate::server_gen::opt_text(f);
    let idl = "let id = *(args.offset("@ + n + ") as *const u32);"@;
    let cl = "let client = ffi_dispatch!(WAYLAND_SERVER_HANDLE, wl_resource_get_client, resource);"@
        + "let version = ffi_dispatch!(WAYLAND_SERVER_HANDLE, wl_resource_get_version, resource);"@;
    let cr = resource_create_text(g);
    let ud = "let udata = ffi_dispatch!(WAYLAND_SERVER_HANDLE, wl_resource_get_user_data, resource);"@;
    let ob = "let obj = "@ + spec_snake_to_camel(g) + "::from_ptr(ptr);"@;
    let end = "ffi_dispatch!(WAYLAND_SERVER_HANDLE, wl_resource_set_user_data, obj.ptr(), udata);"@
        + "obj }"@;
    assert(v =~= "{"@ + idl + cl + cr + ud + ob + end);
    assert(v =~= ("{"@ + idl + cl) + cr + (ud + ob + end));
    lemma_occurs_at("{"@ + idl + cl, cr, ud + ob + end);
    assert(v =~= ("{"@ + idl + cl + cr + ud) + ob + end);
    lemma_occurs_at("{"@ + idl + cl + cr + ud, ob, end);
    assert(v =~= "{"@ + idl + (cl + cr + ud + ob + end));
    lemma_id_slot(n);
    lemma_occurs_within(slot_read_text(Type::NewId, i), "{"@, idl, cl + cr + ud + ob + end);
}

proof fn lemma_id_slot(n: Seq<char>)
    ensures
        occurs_in(
            "*(args.offset("@ + n + ") as *const "@ + wire_c_type(Type::NewId) + ")"@,
            "let id = *(args.offset("@ + n + ") as *const u32);"@,
        ),
{
    reveal_strlit("*(args.offset(");
    reveal_strlit(") as *const ");
    reveal_strlit(")");
    reveal_strlit("let id = *(args.offset(");
    reveal_strlit("let id = ");
    reveal_strlit(") as *const u32);");
    reveal_strlit(";");
    reveal_strlit("u32");
    let w = "*(args.offset("@ + n + ") as *const "@ + wire_c_type(Type::NewId) + ")"@;
    assert("let id = *(args.offset("@ + n + ") as *const u32);"@ =~= "let id = "@ + w + ";"@);
    lemma_occurs_at("let id = "@, w, ";"@);
}

/// Whether two wire types are read the same way: only `int` and `fd` share
/// their read (both are 32-bit signed values on the wire).
pub open spec fn same_read(t1: Type, t2: Type) -> bool {
    t1 == t2 || ((t1 == Type::Int || t1 == Type::Fd) && (t2 == Type::Int || t2 == Type::Fd))
}

/// Different wire types are read differently, but for `int` and `fd`.
pub proof fn lemma_reads_tell_types_apart(
    t1: Type,
    t2: Type,
    f1: Option<String>,
    f2: Option<String>,
    i: int,
)
    requires
        !same_read(t1, t2),
        t1 != Type::Destructor,
        t2 != Type::Destructor,
    ensures
        arg_value_text(t1, f1, i) != arg_value_text(t2, f2, i),
{
    reveal_strlit("*(args.offset(");
    reveal_strlit(") as *const u32)");
    reveal_strlit(") as *const i32)");
    reveal_strlit("wl_fixed_to_double(*(args.offset(");
    reveal_strlit("wrap_resource(*(args.offset(");
    reveal_strlit("String::from_utf8_lossy(CStr::from_ptr(*(args.offset(");
    reveal_strlit("{ let array = *(args.offset(");
    reveal_strlit("{");
    reveal_strlit("let id = *(args.offset(");
    let v1 = arg_value_text(t1, f1, i);
    let v2 = arg_value_text(t2, f2, i);
    let n = dec(i);
    if v1 == v2 {
        if (t1 == Type::Uint && (t2 == Type::Int || t2 == Type::Fd)) || (t2 == Type::Uint && (t1
            == Type::Int || t1 == Type::Fd)) {
            let k: int = 14 + n.len() as int + 12;
            let u = "*(args.offset("@ + n + ") as *const u32)"@;
            let s = "*(args.offset("@ + n + ") as *const i32)"@;
            assert(u[k] == 'u');
            assert(s[k] == 'i');
            assert(u[k] == s[k]);
        } else {
            assert(v1.len() > 1 && v2.len() > 1);
            assert(v1[0] == v2[0]);
            assert(v1[1] == v2[1]);
        }
    }
}

// ---------------------------------------------------------------------------
// Parameters of `send_` methods
// ---------------------------------------------------------------------------

/// A parameter starts with the argument's name; an argument that is not
/// `new_id`, not an enum and not an object has the Rust type of its own wire
/// type, and no parameter has the Rust type of another wire type.
pub proof fn lemma_parameter_type(a: Arg, iname: Seq<char>, camel_iname: Seq<char>, bitfields: Seq<String>)
    ensures
        ({
            let ps = arg_sig_pieces(a, iname, camel_iname, bitfields);
            let plain = a.typ != Type::NewId && a.enum_ is None && a.typ != Type::Object;
            &&& ps.len() > 0
            &&& ps[0] is Text
            &&& (" "@ + a.name@ + ": "@).is_prefix_of(ps[0]->Text_0)
            &&& plain ==> ps.contains(PieceView::RustType(a.typ))
            &&& forall|k: int|
                0 <= k < ps.len() && (#[trigger] ps[k]) is RustType ==> plain && ps[k]
                    == PieceView::RustType(a.typ)
        }),
{
    reveal(crate::server_gen::arg_sig_pieces);
    let ps = arg_sig_pieces(a, iname, camel_iname, bitfields);
    let x = " "@ + a.name@ + ": "@;
    reveal_strlit(": &");
    reveal_strlit(": ");
    reveal_strlit(": Option<");
    let t = ps[0]->Text_0;
    if a.typ == Type::NewId {
        assert(t == x + "&"@ + spec_snake_to_camel(crate::server_gen::opt_text(a.interface))
            + ","@) by {
            reveal_strlit("&");
            assert(t =~= x + "&"@ + spec_snake_to_camel(crate::server_gen::opt_text(a.interface))
                + ","@);
        }
    } else if a.allow_null && (a.enum_ is None) {
        reveal_strlit("Option<");
        assert(t.subrange(0, x.len() as int) =~= x);
    }
    assert(t.subrange(0, x.len() as int) =~= x);
    if a.typ != Type::NewId && a.enum_ is None && a.typ != Type::Object {
        assert(ps[1] == PieceView::RustType(a.typ));
    }
}

/// A `new_id` parameter is a reference to the resource type of the
/// interface the argument names.
pub proof fn lemma_new_id_parameter(a: Arg, iname: Seq<char>, camel_iname: Seq<char>, bitfields: Seq<String>)
    requires
        a.typ == Type::NewId,
        a.interface is Some,
    ensures
        arg_sig_pieces(a, iname, camel_iname, bitfields) == seq![
            text(" "@ + a.name@ + ": "@ + "&"@ + spec_snake_to_camel(a.interface->Some_0@) + ","@),
        ],
{
    reveal(crate::server_gen::arg_sig_pieces);
    reveal_strlit(": &");
    reveal_strlit(": ");
    reveal_strlit("&");
    assert(" "@ + a.name@ + ": &"@ =~= " "@ + a.name@ + ": "@ + "&"@);
}

/// An object parameter that is not an enum is a reference to the resource
/// type of the interface it names, or a raw pointer when it names none,
/// wrapped in `Option<...>` exactly when it may be null.
pub proof fn lemma_object_parameter(a: Arg, iname: Seq<char>, camel_iname: Seq<char>, bitfields: Seq<String>)
    requires
        a.typ == Type::Object,
        a.enum_ is None,
    ensures
        ({
            let ty = match a.interface {
                Some(f) => "&"@ + spec_snake_to_camel(f@),
                None => "*mut ()"@,
            };
            arg_sig_pieces(a, iname, camel_iname, bitfields) == seq![
                text(
                    " "@ + a.name@ + ": "@ + (if a.allow_null {
                        "Option<"@ + ty + ">"@
                    } else {
                        ty
                    }) + ","@,
                ),
            ]
        }),
{
    reveal(crate::server_gen::arg_sig_pieces);
    reveal_strlit(": ");
    reveal_strlit(": Option<");
    reveal_strlit("Option<");
    reveal_strlit(">,");
    reveal_strlit(">");
    reveal_strlit(",");
    let ty = match a.interface {
        Some(f) => "&"@ + spec_snake_to_camel(f@),
        None => "*mut ()"@,
    };
    if a.allow_null {
        assert(" "@ + a.name@ + ": Option<"@ + ty + ">,"@ =~= " "@ + a.name@ + ": "@ + ("Option<"@
            + ty + ">"@) + ","@);
    } else {
        assert(" "@ + a.name@ + ": "@ + ty + ","@ =~= " "@ + a.name@ + ": "@ + ty + ","@);
    }
}

// ---------------------------------------------------------------------------
// The protocol's request enum
// ---------------------------------------------------------------------------

/// The request enum lists the variant of every interface, in the order of
/// the interfaces: after the enum's opening line, the variants of the
/// interfaces before `i` are followed by the variant of interface `i`.
pub proof fn lemma_request_enum_lists_every_variant(p: Protocol, i: int)
    requires
        0 <= i < p.interfaces@.len(),
    ensures
        ("pub enum "@ + spec_snake_to_camel(p.name@) + "ProtocolRequest {\n"@
            + request_variants_text(p.interfaces@, i) + request_variant_text(
            p.interfaces@[i],
        )).is_prefix_of(request_enum_text(p)),
        request_variants_text(p.interfaces@, i + 1).len() == request_variants_text(
            p.interfaces@,
            i,
        ).len() + request_variant_text(p.interfaces@[i]).len(),
{
    lemma_variants_prefix(p, i + 1, p.interfaces@.len() as int);
    let h = "pub enum "@ + spec_snake_to_camel(p.name@) + "ProtocolRequest {\n"@;
    let v = request_variants_text(p.interfaces@, i + 1);
    let all = request_variants_text(p.interfaces@, p.interfaces@.len() as int);
    let e = request_enum_text(p);
    assert(v == request_variants_text(p.interfaces@, i) + request_variant_text(p.interfaces@[i]));
    assert(e == h + all + "}\n\n"@);
    assert(e.subrange(0, (h + v).len() as int) =~= h + v);
    assert(h + request_variants_text(p.interfaces@, i) + request_variant_text(p.interfaces@[i])
        =~= h + v);
}

proof fn lemma_variants_prefix(p: Protocol, m: int, n: int)
    requires
        0 <= m <= n,
    ensures
        request_variants_text(p.interfaces@, m).is_prefix_of(
            request_variants_text(p.interfaces@, n),
        ),
    decreases n - m,
{
    let x = request_variants_text(p.interfaces@, m);
    if m < n {
        lemma_variants_prefix(p, m, n - 1);
        let y = request_variants_text(p.interfaces@, n - 1);
        let z = request_variants_text(p.interfaces@, n);
        assert(z.subrange(0, x.len() as int) =~= y.subrange(0, x.len() as int));
    } else {
        assert(x.subrange(0, x.len() as int) =~= x);
    }
}

// ---------------------------------------------------------------------------
// `send_` methods post their event
// ---------------------------------------------------------------------------

/// The call that posts event `e` of interface `iname`, with the values of
/// its arguments.
pub open spec fn post_event_text(e: Message, iname: Seq<char>, bitfields: Seq<String>) -> Seq<char> {
    "        unsafe { ffi_dispatch!(WAYLAND_SERVER_HANDLE, wl_resource_post_event, self.ptr(), "@
        + spec_snake_to_screaming(iname) + "_"@ + spec_snake_to_screaming(e.name@) + "\n"@
        + "           "@ + post_args_text(e.args@, iname, bitfields, e.args@.len() as int)
        + ") };\n"@
}

/// Every `send_` method posts its event under the opcode constant of the
/// interface and event, also when the event has no arguments; the method's
/// body opens after the parameters and closes at the end.
pub proof fn lemma_send_posts_event(e: Message, iname: Seq<char>, bitfields: Seq<String>)
    ensures
        occurs_in(post_event_text(e, iname, bitfields), event_body_text(e, iname, bitfields)),
        (")"@ + " {\n"@).is_prefix_of(event_body_text(e, iname, bitfields)),
        "    }\n"@.is_suffix_of(event_body_text(e, iname, bitfields)),
{
    reveal(crate::server_gen::event_body_text);
    let body = event_body_text(e, iname, bitfields);
    let x = ")"@ + " {\n"@ + crate::server_gen::conversion_lines(e.args@, e.args@.len() as int)
        + crate::server_gen::array_lines(e.args@, e.args@.len() as int);
    let post = post_event_text(e, iname, bitfields);
    let y = "    }\n"@;
    assert(body =~= x + post + y);
    lemma_occurs_at(x, post, y);
    assert(body.subrange(0, 4) =~= (")"@ + " {\n"@)) by {
        reveal_strlit(")");
        reveal_strlit(" {\n");
    }
    assert(body.subrange(body.len() - y.len(), body.len() as int) =~= y);
}

/// Every argument of an event is posted, in order: the values of the
/// arguments before `k` are followed by that of argument `k`, which names
/// the argument.
pub proof fn lemma_every_argument_posted(e: Message, iname: Seq<char>, bitfields: Seq<String>, k: int)
    requires
        0 <= k < e.args@.len(),
    ensures
        (post_args_text(e.args@, iname, bitfields, k) + post_arg_text(
            e.args@[k],
            iname,
            bitfields,
        )).is_prefix_of(post_args_text(e.args@, iname, bitfields, e.args@.len() as int)),
        occurs_in(e.args@[k].name@, post_arg_text(e.args@[k], iname, bitfields)),
{
    lemma_posts_prefix(e.args@, iname, bitfields, k + 1, e.args@.len() as int);
    let a = e.args@[k];
    let n = a.name@;
    match a.enum_ {
        Some(en) => {
            let tail = (if crate::names::seq_has_string(bitfields, en@)
                || crate::names::seq_has_string(bitfields, iname + "."@ + en@) {
                ".bits()"@
            } else {
                Seq::empty()
            }) + " as "@ + (if a.typ == Type::Uint {
                "u32"@
            } else {
                "i32"@
            });
            assert(post_arg_text(a, iname, bitfields) =~= ", "@ + n + tail);
            lemma_occurs_at(", "@, n, tail);
        },
        None => {
            if a.typ == Type::Array && !a.allow_null {
                assert(post_arg_text(a, iname, bitfields) =~= ", &"@ + n + " as *const wl_array"@);
                lemma_occurs_at(", &"@, n, " as *const wl_array"@);
            } else if a.typ == Type::String {
                let tail = if a.allow_null {
                    ".map(|s| s.as_ptr()).unwrap_or(ptr::null())"@
                } else {
                    ".as_ptr()"@
                };
                assert(post_arg_text(a, iname, bitfields) =~= ", "@ + n + tail);
                lemma_occurs_at(", "@, n, tail);
            } else if a.typ == Type::Array {
                let tail = ".map(|a| &a as *const wl_array).unwrap_or(ptr::null_mut())"@;
                assert(post_arg_text(a, iname, bitfields) =~= ", "@ + n + tail);
                lemma_occurs_at(", "@, n, tail);
            } else if a.typ == Type::Object || a.typ == Type::NewId {
                let tail = if a.allow_null {
                    ".map(Resource::ptr).unwrap_or(ptr::null_mut())"@
                } else {
                    ".ptr()"@
                };
                assert(post_arg_text(a, iname, bitfields) =~= ", "@ + n + tail);
                lemma_occurs_at(", "@, n, tail);
            } else {
                let tail = if a.allow_null {
                    ".unwrap_or(0)"@
                } else {
                    Seq::<char>::empty()
                };
                assert(post_arg_text(a, iname, bitfields) =~= ", "@ + n + tail);
                lemma_occurs_at(", "@, n, tail);
            }
        },
    }
    assert(post_args_text(e.args@, iname, bitfields, k + 1) == post_args_text(
        e.args@,
        iname,
        bitfields,
        k,
    ) + post_arg_text(a, iname, bitfields));
}

/// Each value is posted in the form the C call takes: an enum value as the
/// raw integer of its width (unsigned exactly for a `uint` argument), a
/// resource as its pointer, a number as it is, and a nullable pointer as
/// null when it is absent.
pub proof fn lemma_posted_value_form(a: Arg, iname: Seq<char>, bitfields: Seq<String>)
    ensures
        ({
            let t = post_arg_text(a, iname, bitfields);
            let ptr_like = a.typ == Type::String || a.typ == Type::Array || a.typ == Type::Object
                || a.typ == Type::NewId;
            &&& a.enum_ is Some ==> (" as "@ + (if a.typ == Type::Uint {
                "u32"@
            } else {
                "i32"@
            })).is_suffix_of(t)
            &&& (a.enum_ is None && (a.typ == Type::Object || a.typ == Type::NewId) && !a.allow_null)
                ==> t == ", "@ + a.name@ + ".ptr()"@
            &&& (a.enum_ is None && !ptr_like && !a.allow_null) ==> t == ", "@ + a.name@
            &&& (a.enum_ is None && ptr_like && a.allow_null) ==> occurs_in("unwrap_or(ptr::null"@, t)
        }),
{
    let t = post_arg_text(a, iname, bitfields);
    let n = a.name@;
    match a.enum_ {
        Some(e) => {
            let w = " as "@ + (if a.typ == Type::Uint {
                "u32"@
            } else {
                "i32"@
            });
            let b = if seq_has_string(bitfields, e@) || seq_has_string(bitfields, iname + "."@ + e@) {
                ".bits()"@
            } else {
                Seq::<char>::empty()
            };
            assert(t =~= (", "@ + n + b) + w);
            assert(t.subrange(t.len() - w.len(), t.len() as int) =~= w);
        },
        None => {
            if a.allow_null && (a.typ == Type::String || a.typ == Type::Array || a.typ
                == Type::Object || a.typ == Type::NewId) {
                let w = "unwrap_or(ptr::null"@;
                reveal_strlit("unwrap_or(ptr::null");
                if a.typ == Type::String {
                    reveal_strlit(".map(|s| s.as_ptr()).unwrap_or(ptr::null())");
                    reveal_strlit(".map(|s| s.as_ptr()).");
                    reveal_strlit(")");
                    reveal_strlit("())");
                    assert(".map(|s| s.as_ptr()).unwrap_or(ptr::null())"@ =~= ".map(|s| s.as_ptr())."@
                        + w + "())"@);
                    lemma_occurs_at(", "@ + n + ".map(|s| s.as_ptr())."@, w, "())"@);
                    assert(t =~= ", "@ + n + ".map(|s| s.as_ptr())."@ + w + "())"@);
                } else if a.typ == Type::Array {
                    reveal_strlit(".map(|a| &a as *const wl_array).unwrap_or(ptr::null_mut())");
                    reveal_strlit(".map(|a| &a as *const wl_array).");
                    reveal_strlit("_mut())");
                    assert(".map(|a| &a as *const wl_array).unwrap_or(ptr::null_mut())"@
                        =~= ".map(|a| &a as *const wl_array)."@ + w + "_mut())"@);
                    lemma_occurs_at(", "@ + n + ".map(|a| &a as *const wl_array)."@, w, "_mut())"@);
                    assert(t =~= ", "@ + n + ".map(|a| &a as *const wl_array)."@ + w + "_mut())"@);
                } else {
                    reveal_strlit(".map(Resource::ptr).unwrap_or(ptr::null_mut())");
                    reveal_strlit(".map(Resource::ptr).");
                    reveal_strlit("_mut())");
                    assert(".map(Resource::ptr).unwrap_or(ptr::null_mut())"@ =~= ".map(Resource::ptr)."@
                        + w + "_mut())"@);
                    lemma_occurs_at(", "@ + n + ".map(Resource::ptr)."@, w, "_mut())"@);
                    assert(t =~= ", "@ + n + ".map(Resource::ptr)."@ + w + "_mut())"@);
                }
            }
        },
    }
}

proof fn lemma_posts_prefix(args: Seq<Arg>, iname: Seq<char>, bitfields: Seq<String>, m: int, n: int)
    requires
        0 <= m <= n,
    ensures
        post_args_text(args, iname, bitfields, m).is_prefix_of(
            post_args_text(args, iname, bitfields, n),
        ),
    decreases n - m,
{
    let x = post_args_text(args, iname, bitfields, m);
    if m < n {
        lemma_posts_prefix(args, iname, bitfields, m, n - 1);
        let y = post_args_text(args, iname, bitfields, n - 1);
        let z = post_args_text(args, iname, bitfields, n);
        assert(z.subrange(0, x.len() as int) =~= y.subrange(0, x.len() as int));
    } else {
        assert(x.subrange(0, x.len() as int) =~= x);
    }
}

// ---------------------------------------------------------------------------
// Converting enum arguments
// ---------------------------------------------------------------------------

/// An enum argument is converted by the conversion function of its enum:
/// `iname_enum` for an enum of the interface itself, `iface_enum` for an
/// enum `iface.enum` of another interface; the request is given up when the
/// value is not one of the enum's.
pub proof fn lemma_enum_argument_converted(a: Arg, i: int, iname: Seq<char>)
    requires
        a.enum_ is Some,
        a.typ != Type::Destructor,
    ensures
        ({
            let e = a.enum_->Some_0@;
            let f = match spec_enum_parts(e) {
                Some((other, name)) => other + "_"@ + name,
                None => iname + "_"@ + e,
            };
            occurs_in(
                "            let arg_"@ + dec(i) + " = match "@ + f + "_from_raw(arg_"@ + dec(i)
                    + " as u32) {"@ + " Some(a) => a,"@ + " None => return None"@ + " };\n"@,
                arg_read_text(a, i, iname),
            )
        }),
{
    let e = a.enum_->Some_0@;
    let f = match spec_enum_parts(e) {
        Some((other, name)) => other + "_"@ + name,
        None => iname + "_"@ + e,
    };
    let conv = "            let arg_"@ + dec(i) + " = match "@ + f + "_from_raw(arg_"@ + dec(i)
        + " as u32) {"@ + " Some(a) => a,"@ + " None => return None"@ + " };\n"@;
    let x = "            let arg_"@ + dec(i) + " = unsafe {"@ + arg_value_text(a.typ, a.interface, i)
        + "};\n"@;
    assert(arg_read_text(a, i, iname) =~= x + conv + Seq::<char>::empty());
    lemma_occurs_at(x, conv, Seq::<char>::empty());
}

// ---------------------------------------------------------------------------
// Decoding a request
// ---------------------------------------------------------------------------

/// The match arm of opcode `op` decodes request `m`: it opens with the
/// opcode, reads every argument in order, and builds the variant named
/// after the request.
pub proof fn lemma_arm_decodes_request(m: Message, op: int, iname: Seq<char>, camel_iname: Seq<char>)
    ensures
        ("        "@ + dec(op) + " => {\n"@).is_prefix_of(
            handler_arm_text(m, op, iname, camel_iname),
        ),
        occurs_in(
            "            Some("@ + camel_iname + "Request::"@ + spec_snake_to_camel(m.name@),
            handler_arm_text(m, op, iname, camel_iname),
        ),
        forall|k: int|
            0 <= k < m.args@.len() ==> occurs_in(
                #[trigger] arg_read_text(m.args@[k], k, iname),
                handler_arm_text(m, op, iname, camel_iname),
            ),
        forall|k: int|
            0 <= k < m.args@.len() ==> occurs_in(
                "arg_"@ + dec(k) + ","@,
                #[trigger] tuple_items_text(m.args@.len() as int),
            ) || k < 0,
{
    let t = handler_arm_text(m, op, iname, camel_iname);
    let h = "        "@ + dec(op) + " => {\n"@;
    let n = m.args@.len() as int;
    let reads = arg_reads_text(m.args@, iname, n);
    let v = "            Some("@ + camel_iname + "Request::"@ + spec_snake_to_camel(m.name@);
    let rest = crate::server_gen::call_args_text(n) + ")\n"@ + "        },\n"@;
    assert(t =~= h + reads + v + rest);
    assert(t.subrange(0, h.len() as int) =~= h);
    lemma_occurs_at(h + reads, v, rest);
    assert forall|k: int| 0 <= k < n implies occurs_in(
        #[trigger] arg_read_text(m.args@[k], k, iname),
        t,
    ) by {
        lemma_reads_hold(m.args@, iname, k, n);
        let c = choose|c: int|
            0 <= c && c + arg_read_text(m.args@[k], k, iname).len() <= reads.len()
                && #[trigger] reads.subrange(c, c + arg_read_text(m.args@[k], k, iname).len())
                == arg_read_text(m.args@[k], k, iname);
        let w = arg_read_text(m.args@[k], k, iname);
        assert(t.subrange(h.len() + c, h.len() + c + w.len()) =~= reads.subrange(c, c + w.len()));
    }
    assert forall|k: int| 0 <= k < n implies occurs_in(
        "arg_"@ + dec(k) + ","@,
        #[trigger] tuple_items_text(n),
    ) || k < 0 by {
        lemma_items_hold(k, n);
    }
}

proof fn lemma_reads_hold(args: Seq<Arg>, iname: Seq<char>, k: int, n: int)
    requires
        0 <= k < n,
    ensures
        occurs_in(arg_read_text(args[k], k, iname), arg_reads_text(args, iname, n)),
    decreases n,
{
    let w = arg_read_text(args[k], k, iname);
    if k == n - 1 {
        lemma_occurs_at(arg_reads_text(args, iname, n - 1), w, Seq::<char>::empty());
        assert(arg_reads_text(args, iname, n) =~= arg_reads_text(args, iname, n - 1) + w
            + Seq::<char>::empty());
    } else {
        lemma_reads_hold(args, iname, k, n - 1);
        let prev = arg_reads_text(args, iname, n - 1);
        let c = choose|c: int|
            0 <= c && c + w.len() <= prev.len() && #[trigger] prev.subrange(c, c + w.len()) == w;
        let all = arg_reads_text(args, iname, n);
        assert(all.subrange(c, c + w.len()) =~= prev.subrange(c, c + w.len()));
    }
}

proof fn lemma_items_hold(k: int, n: int)
    requires
        0 <= k < n,
    ensures
        occurs_in("arg_"@ + dec(k) + ","@, tuple_items_text(n)),
    decreases n,
{
    let w = "arg_"@ + dec(k) + ","@;
    if k == n - 1 {
        assert(tuple_items_text(n) =~= tuple_items_text(n - 1) + w + Seq::<char>::empty());
        lemma_occurs_at(tuple_items_text(n - 1), w, Seq::<char>::empty());
    } else {
        lemma_items_hold(k, n - 1);
        let prev = tuple_items_text(n - 1);
        let c = choose|c: int|
            0 <= c && c + w.len() <= prev.len() && #[trigger] prev.subrange(c, c + w.len()) == w;
        let all = tuple_items_text(n);
        assert(all.subrange(c, c + w.len()) =~= prev.subrange(c, c + w.len()));
    }
}

// ---------------------------------------------------------------------------
// Variants, parameters, resources, file header, dispatcher
// ---------------------------------------------------------------------------

/// The variant of an interface with requests that the library does not
/// handle itself carries the client, the resource and the interface's
/// request enum, and is named after the interface.
pub proof fn lemma_request_variant_names_interface(iface: Interface)
    requires
        !is_builtin_interface(iface.name@),
        iface.requests@.len() > 0,
    ensures
        request_variant_text(iface) == "    "@ + spec_snake_to_camel(iface.name@)
            + "(ClientId, ResourceId, "@ + spec_snake_to_camel(iface.name@) + "Request),\n"@,
{
}

/// `wl_display`, `wl_registry` and interfaces without requests get no
/// variant in the request enum: no request of theirs is ever queued.
pub proof fn lemma_no_variant_without_requests(iface: Interface)
    requires
        is_builtin_interface(iface.name@) || iface.requests@.len() == 0,
    ensures
        request_variant_text(iface).len() == 0,
{
}

/// A parameter that is not `new_id`, not an enum and not an object is its
/// name, then its Rust type, wrapped in `Option<...>` exactly when the
/// argument may be null.
pub proof fn lemma_parameter_nullability(a: Arg, iname: Seq<char>, camel_iname: Seq<char>, bitfields: Seq<String>)
    requires
        a.typ != Type::NewId,
        a.enum_ is None,
        a.typ != Type::Object,
    ensures
        arg_sig_pieces(a, iname, camel_iname, bitfields) == seq![
            text(" "@ + a.name@ + ": "@ + (if a.allow_null {
                "Option<"@
            } else {
                Seq::empty()
            })),
            PieceView::RustType(a.typ),
            text(
                if a.allow_null {
                    ">,"@
                } else {
                    ","@
                },
            ),
        ],
{
    reveal(crate::server_gen::arg_sig_pieces);
    reveal_strlit(": ");
    reveal_strlit(": Option<");
    reveal_strlit("Option<");
    if a.allow_null {
        assert(" "@ + a.name@ + ": Option<"@ =~= " "@ + a.name@ + ": "@ + "Option<"@);
    } else {
        assert(" "@ + a.name@ + ": "@ =~= " "@ + a.name@ + ": "@ + Seq::<char>::empty());
    }
}

/// The resource type of an interface is a struct named after it, whose
/// `Resource` impl gives the interface's name and version.
pub proof fn lemma_resource_names_interface(camel_iname: Seq<char>, iface: Interface, pname: Seq<char>)
    ensures
        ("pub struct "@ + camel_iname).is_prefix_of(iface_struct_text(camel_iname, iface, pname)),
        occurs_in(
            "    fn interface_name() -> &'static str { \""@ + iface.name@ + "\" }\n"@,
            iface_struct_text(camel_iname, iface, pname),
        ),
        occurs_in(
            "    fn max_version() -> u32 { "@ + dec(iface.version as int) + " }\n"@,
            iface_struct_text(camel_iname, iface, pname),
        ),
{
    reveal(iface_struct_text);
    let t = iface_struct_text(camel_iname, iface, pname);
    let st = crate::server_gen::struct_head_text(camel_iname, iface.name@, iface.version);
    let rest = crate::server_gen::dispatcher_registration_text(iface)
        + crate::server_gen::struct_tail_text(camel_iname, iface.name@, pname);
    assert(t =~= st + rest);
    lemma_struct_head_names(camel_iname, iface.name@, iface.version);
    let p = "pub struct "@ + camel_iname;
    assert(t.subrange(0, p.len() as int) =~= st.subrange(0, p.len() as int));
    lemma_occurs_extend(
        "    fn interface_name() -> &'static str { \""@ + iface.name@ + "\" }\n"@,
        st,
        rest,
    );
    lemma_occurs_extend(
        "    fn max_version() -> u32 { "@ + dec(iface.version as int) + " }\n"@,
        st,
        rest,
    );
}

proof fn lemma_occurs_extend(w: Seq<char>, x: Seq<char>, y: Seq<char>)
    requires
        occurs_in(w, x),
    ensures
        occurs_in(w, x + y),
{
    let c = choose|c: int| 0 <= c && c + w.len() <= x.len() && #[trigger] x.subrange(c, c + w.len()) == w;
    assert((x + y).subrange(c, c + w.len()) =~= x.subrange(c, c + w.len()));
}

#[verifier::rlimit(40)]
proof fn lemma_struct_head_names(camel_iname: Seq<char>, iname: Seq<char>, version: u32)
    ensures
        ("pub struct "@ + camel_iname).is_prefix_of(
            crate::server_gen::struct_head_text(camel_iname, iname, version),
        ),
        occurs_in(
            "    fn interface_name() -> &'static str { \""@ + iname + "\" }\n"@,
            crate::server_gen::struct_head_text(camel_iname, iname, version),
        ),
        occurs_in(
            "    fn max_version() -> u32 { "@ + dec(version as int) + " }\n"@,
            crate::server_gen::struct_head_text(camel_iname, iname, version),
        ),
{
    let t = crate::server_gen::struct_head_text(camel_iname, iname, version);
    let p = "pub struct "@ + camel_iname;
    let a = "pub struct "@ + camel_iname
        + " {\n    ptr: *mut wl_resource,\n    client: *mut wl_client,\n"@
        + "    evq: Arc<(RequestFifo,AtomicBool)>\n}\n\n"@ + "unsafe impl Sync for "@ + camel_iname
        + " {}\n"@ + "unsafe impl Send for "@ + camel_iname + " {}\n"@ + "impl Resource for "@
        + camel_iname + " {\n"@ + "    fn ptr(&self) -> *mut wl_resource { self.ptr }\n"@
        + "    fn interface() -> *mut wl_interface { unsafe { &mut "@ + iname
        + "_interface  as *mut wl_interface } }\n"@;
    let nm = "    fn interface_name() -> &'static str { \""@ + iname + "\" }\n"@;
    let mv = "    fn max_version() -> u32 { "@ + dec(version as int) + " }\n"@;
    let b = "    fn bound_version(&self) -> u32 { let v = unsafe { ffi_dispatch!(WAYLAND_SERVER_HANDLE, wl_resource_get_version, self.ptr) }; v as u32 }\n"@
        + "    fn id(&self) -> ResourceId { ResourceId { id: self.ptr as usize } }\n"@
        + "    fn client_id(&self) -> ClientId { wrap_client(self.client) }\n"@
        + "    unsafe fn from_ptr(ptr: *mut wl_resource) -> "@ + camel_iname + " {\n"@;
    assert(t =~= a + nm + mv + b);
    assert(t.subrange(0, p.len() as int) =~= p);
    assert(a + nm + mv + b =~= a + nm + (mv + b));
    lemma_occurs_at(a, nm, mv + b);
    lemma_occurs_at(a + nm, mv, b);
}

/// The file opens with its header comment, then, exactly when the protocol
/// has a copyright notice, that notice in a block comment, then its first
/// import.
pub proof fn lemma_file_header(p: Protocol, bitfields: Seq<String>)
    ensures
        server_api_pieces(p, bitfields)[0] == text(preamble_text(p)),
        ("//\n// This file was auto-generated, do not edit directly\n//\n\n"@ + (match p.copyright {
            Some(c) => "/*\n"@ + c@ + "\n*/\n\n"@,
            None => Seq::empty(),
        }) + "use wayland_sys::common::*;\n"@).is_prefix_of(preamble_text(p)),
{
    crate::server_laws::lemma_file_starts_with_header(p, bitfields);
}

/// The dispatcher's function type returns the protocol's request enum, and
/// the dispatcher converts its decoding function to that very type, after
/// the type's declaration; the dispatcher ends by queueing the request.
pub proof fn lemma_dispatcher_uses_its_alias(p: Protocol)
    ensures
        ({
            let n = p.name@;
            let c = spec_snake_to_camel(n);
            let t = request_machinery_text(p);
            let alias = "type "@ + n
                + "_dispatcher_implem = fn(*mut wl_resource, u32, *const wl_argument) -> Option<"@
                + c + "ProtocolRequest>;\n\n"@;
            let cast = "    let implem = unsafe { ::std::mem::transmute::<_, "@ + n
                + "_dispatcher_implem>(implem) };\n"@;
            &&& exists|m: int|
                0 <= m <= t.len() && occurs_in(alias, #[trigger] t.subrange(0, m)) && occurs_in(
                    cast,
                    t.subrange(m, t.len() as int),
                )
            &&& ("    if let Some(req) = request {\n"@ + "        fifo.0.push(::Request::"@ + c
                + "(req));\n"@ + "    }\n"@ + "}\n"@).is_suffix_of(t)
        }),
{
    reveal(request_machinery_text);
    let n = p.name@;
    let c = spec_snake_to_camel(n);
    let t = request_machinery_text(p);
    let alias = "type "@ + n
        + "_dispatcher_implem = fn(*mut wl_resource, u32, *const wl_argument) -> Option<"@ + c
        + "ProtocolRequest>;\n\n"@;
    let cast = "    let implem = unsafe { ::std::mem::transmute::<_, "@ + n
        + "_dispatcher_implem>(implem) };\n"@;
    let q = "    if let Some(req) = request {\n"@ + "        fifo.0.push(::Request::"@ + c + "(req));\n"@
        + "    }\n"@ + "}\n"@;
    let a = crate::server_gen::request_enum_doc_text(n) + request_enum_text(p);
    let s = crate::server_gen::dispatcher_start_text();
    let d = crate::server_gen::dispatcher_decode_text() + q;
    assert(t =~= a + alias + s + cast + d);
    let m = (a + alias).len() as int;
    assert(t.subrange(0, m) =~= a + alias);
    lemma_occurs_at(a, alias, Seq::<char>::empty());
    assert(a + alias =~= a + alias + Seq::<char>::empty());
    assert(t.subrange(m, t.len() as int) =~= s + cast + d);
    lemma_occurs_at(s, cast, d);
    assert(t.subrange(t.len() - q.len(), t.len() as int) =~= q);
}

/// A `send_` method is named after its event and takes the resource by
/// reference; the version note comes exactly for events added after the
/// interface's first version and names that version.
pub proof fn lemma_send_method_head(e: Message)
    ensures
        ("    pub  fn send_"@ + e.name@ + "(&self,"@).is_suffix_of(event_head_text(e)),
        e.since > 1 ==> ("    ///\n    /// Requires interface version `>= "@ + dec(e.since as int)
            + "`.\n"@).is_prefix_of(event_head_text(e)),
        e.since <= 1 ==> event_head_text(e) == "    pub  fn send_"@ + e.name@ + "(&self,"@,
{
    reveal(event_head_text);
    let t = event_head_text(e);
    let s = crate::server_gen::since_text(e.since);
    let x = "    pub  fn send_"@ + e.name@ + "(&self,"@;
    assert(t =~= s + x);
    assert(t.subrange(t.len() - x.len(), t.len() as int) =~= x);
    assert(t.subrange(0, s.len() as int) =~= s);
}

/// The comment that opens an interface's code names the interface.
pub proof fn lemma_interface_header_names_interface(iname: Seq<char>)
    ensures
        interface_header_text(iname) == "//\n// interface "@ + iname + "\n//\n\n"@,
{
}

} // verus!
