//! Generation of the server-side API of a protocol: the request enum, the
//! dispatcher, one resource type per interface, the decoding of requests
//! from the wire and one `send_` method per event.

use vstd::prelude::*;
use vstd::string::*;

use crate::names::{
    contains_string, decimal, dotted_snake_to_camel, enum_parts, has_dot, push_decimal,
    seq_has_string, snake_to_camel, snake_to_screaming, spec_decimal, spec_dotted_snake_to_camel,
    spec_enum_parts, spec_snake_to_camel, spec_snake_to_screaming,
};
use crate::output::{text, Output, Piece, PieceView};
use crate::protocol::{
    arg_names_its_new_interface, event_sendable, interface_generable, is_builtin_interface,
    is_builtin_name, protocol_generable, request_decodable, Arg, Interface, Message, Protocol, Type,
};

verus! {

/// The text of an optional string (empty when absent).
pub open spec fn opt_text(s: Option<String>) -> Seq<char> {
    match s {
        Some(t) => t@,
        None => Seq::empty(),
    }
}

/// The decimal text of an index.
pub open spec fn dec(i: int) -> Seq<char> {
    spec_decimal(i as nat)
}

// ---------------------------------------------------------------------------
// Decoding requests
// ---------------------------------------------------------------------------

/// The expression that reads argument `i` of wire type `t` from the raw
/// argument array; `iface` is the interface of a `new_id` argument.
pub open spec fn arg_value_text(t: Type, iface: Option<String>, i: int) -> Seq<char> {
    match t {
        Type::Uint => "*(args.offset("@ + dec(i) + ") as *const u32)"@,
        Type::Int | Type::Fd => "*(args.offset("@ + dec(i) + ") as *const i32)"@,
        Type::Fixed => "wl_fixed_to_double(*(args.offset("@ + dec(i) + ") as *const i32))"@,
        Type::Object => "wrap_resource(*(args.offset("@ + dec(i)
            + ") as *const *mut wl_resource))"@,
        Type::String => "String::from_utf8_lossy(CStr::from_ptr(*(args.offset("@ + dec(i)
            + ") as *const *mut c_char)).to_bytes()).into_owned()"@,
        Type::Array => "{ let array = *(args.offset("@ + dec(i)
            + ") as *const *mut wl_array); ::std::slice::from_raw_parts((*array).data as *const u8, (*array).size as usize).to_owned() }"@,
        Type::NewId => "{"@ + "let id = *(args.offset("@ + dec(i) + ") as *const u32);"@
            + "let client = ffi_dispatch!(WAYLAND_SERVER_HANDLE, wl_resource_get_client, resource);"@
            + "let version = ffi_dispatch!(WAYLAND_SERVER_HANDLE, wl_resource_get_version, resource);"@
            + "let ptr = ffi_dispatch!(WAYLAND_SERVER_HANDLE, wl_resource_create, client, &"@
            + opt_text(iface) + "_interface, version, id);"@
            + "let udata = ffi_dispatch!(WAYLAND_SERVER_HANDLE, wl_resource_get_user_data, resource);"@
            + "let obj = "@ + spec_snake_to_camel(opt_text(iface)) + "::from_ptr(ptr);"@
            + "ffi_dispatch!(WAYLAND_SERVER_HANDLE, wl_resource_set_user_data, obj.ptr(), udata);"@
            + "obj }"@,
        Type::Destructor => Seq::empty(),
    }
}

/// The prefix of the function that converts a raw value into the enum `e`:
/// `iface_enum` for a dotted reference, `iname_e` for an enum of the
/// interface `iname` itself.
pub open spec fn enum_fn_prefix(e: Seq<char>, iname: Seq<char>) -> Seq<char> {
    match spec_enum_parts(e) {
        Some((other, name)) => other + "_"@ + name,
        None => iname + "_"@ + e,
    }
}

/// For an enum argument, the line that converts the raw value `arg_i`,
/// giving up on the request when the value is not one of the enum's.
pub open spec fn enum_conversion_text(a: Arg, i: int, iname: Seq<char>) -> Seq<char> {
    match a.enum_ {
        Some(e) => "            let arg_"@ + dec(i) + " = match "@ + enum_fn_prefix(e@, iname)
            + "_from_raw(arg_"@ + dec(i) + " as u32) {"@ + " Some(a) => a,"@ + " None => return None"@
            + " };\n"@,
        None => Seq::empty(),
    }
}

/// The lines that read argument `i` of a request.
pub open spec fn arg_read_text(a: Arg, i: int, iname: Seq<char>) -> Seq<char> {
    "            let arg_"@ + dec(i) + " = unsafe {"@ + arg_value_text(a.typ, a.interface, i) + "};\n"@
        + enum_conversion_text(a, i, iname)
}

/// The lines that read the first `n` arguments of a request.
pub open spec fn arg_reads_text(args: Seq<Arg>, iname: Seq<char>, n: int) -> Seq<char>
    decreases n,
{
    if n <= 0 {
        Seq::empty()
    } else {
        arg_reads_text(args, iname, n - 1) + arg_read_text(args[n - 1], n - 1, iname)
    }
}

/// `arg_0,arg_1,...,arg_{n-1},`
pub open spec fn tuple_items_text(n: int) -> Seq<char>
    decreases n,
{
    if n <= 0 {
        Seq::empty()
    } else {
        tuple_items_text(n - 1) + "arg_"@ + dec(n - 1) + ","@
    }
}

/// The argument list of a request variant with `n` arguments (none for `n == 0`).
pub open spec fn call_args_text(n: int) -> Seq<char> {
    if n == 0 {
        Seq::empty()
    } else {
        "("@ + tuple_items_text(n) + ")"@
    }
}

/// The match arm that decodes request number `op`.
pub open spec fn handler_arm_text(m: Message, op: int, iname: Seq<char>, camel_iname: Seq<char>) -> Seq<char> {
    "        "@ + dec(op) + " => {\n"@ + arg_reads_text(m.args@, iname, m.args@.len() as int)
        + "            Some("@ + camel_iname + "Request::"@ + spec_snake_to_camel(m.name@)
        + call_args_text(m.args@.len() as int) + ")\n"@ + "        },\n"@
}

/// The match arms of the first `n` requests, numbered by position.
pub open spec fn handler_arms_text(msgs: Seq<Message>, iname: Seq<char>, camel_iname: Seq<char>, n: int) -> Seq<char>
    decreases n,
{
    if n <= 0 {
        Seq::empty()
    } else {
        handler_arms_text(msgs, iname, camel_iname, n - 1) + handler_arm_text(
            msgs[n - 1],
            n - 1,
            iname,
            camel_iname,
        )
    }
}

/// The function that decodes the requests of interface `iname`.
#[verifier::opaque]
pub open spec fn message_handlers_text(
    msgs: Seq<Message>,
    iname: Seq<char>,
    camel_iname: Seq<char>,
    pname: Seq<char>,
) -> Seq<char> {
    "fn "@ + iname
        + "_implem(resource: *mut wl_resource, opcode: u32, args: *const wl_argument) -> Option<"@
        + spec_snake_to_camel(pname) + "ProtocolRequest> {\n"@ + "    let event = match opcode {\n"@
        + handler_arms_text(msgs, iname, camel_iname, msgs.len() as int) + "        _ => None\n"@
        + "    };\n"@
        + "    let client = unsafe { ffi_dispatch!(WAYLAND_SERVER_HANDLE, wl_resource_get_client, resource) };\n"@
        + "    event.map(|event| "@ + spec_snake_to_camel(pname) + "ProtocolRequest::"@ + camel_iname
        + "(wrap_client(client), wrap_resource(resource), event))\n"@ + "}\n\n"@
}

fn arg_value(t: Type, iface: &Option<String>, i: usize) -> (res: String)
    requires
        t != Type::Destructor,
        t == Type::NewId ==> iface is Some,
    ensures
        res@ == arg_value_text(t, *iface, i as int),
{
    let n = decimal(i as u64);
    let n = n.as_str();
    match t {
        Type::Uint => {
            let mut s = String::from_str("*(args.offset(");
            s.append(n);
            s.append(") as *const u32)");
            s
        },
        Type::Int | Type::Fd => {
            let mut s = String::from_str("*(args.offset(");
            s.append(n);
            s.append(") as *const i32)");
            s
        },
        Type::Fixed => {
            let mut s = String::from_str("wl_fixed_to_double(*(args.offset(");
            s.append(n);
            s.append(") as *const i32))");
            s
        },
        Type::Object => {
            let mut s = String::from_str("wrap_resource(*(args.offset(");
            s.append(n);
            s.append(") as *const *mut wl_resource))");
            s
        },
        Type::String => {
            let mut s = String::from_str("String::from_utf8_lossy(CStr::from_ptr(*(args.offset(");
            s.append(n);
            s.append(") as *const *mut c_char)).to_bytes()).into_owned()");
            s
        },
        Type::Array => {
            let mut s = String::from_str("{ let array = *(args.offset(");
            s.append(n);
            s.append(
                ") as *const *mut wl_array); ::std::slice::from_raw_parts((*array).data as *const u8, (*array).size as usize).to_owned() }",
            );
            s
        },
        Type::NewId => {
            let iface = match iface {
                Some(x) => x.as_str(),
                None => "",
            };
            let camel = snake_to_camel(iface);
            let mut s = String::from_str("{");
            s.append("let id = *(args.offset(");
            s.append(n);
            s.append(") as *const u32);");
            s.append("let client = ffi_dispatch!(WAYLAND_SERVER_HANDLE, wl_resource_get_client, resource);");
            s.append("let version = ffi_dispatch!(WAYLAND_SERVER_HANDLE, wl_resource_get_version, resource);");
            s.append("let ptr = ffi_dispatch!(WAYLAND_SERVER_HANDLE, wl_resource_create, client, &");
            s.append(iface);
            s.append("_interface, version, id);");
            s.append("let udata = ffi_dispatch!(WAYLAND_SERVER_HANDLE, wl_resource_get_user_data, resource);");
            s.append("let obj = ");
            s.append(camel.as_str());
            s.append("::from_ptr(ptr);");
            s.append("ffi_dispatch!(WAYLAND_SERVER_HANDLE, wl_resource_set_user_data, obj.ptr(), udata);");
            s.append("obj }");
            s
        },
        Type::Destructor => String::new(),
    }
}

fn enum_conversion(a: &Arg, i: usize, iname: &str) -> (res: String)
    ensures
        res@ == enum_conversion_text(*a, i as int, iname@),
{
    match &a.enum_ {
        Some(e) => {
            let n = decimal(i as u64);
            let mut s = String::from_str("            let arg_");
            s.append(n.as_str());
            s.append(" = match ");
            match enum_parts(e.as_str()) {
                Some((other, name)) => {
                    s.append(other.as_str());
                    s.append("_");
                    s.append(name.as_str());
                },
                None => {
                    s.append(iname);
                    s.append("_");
                    s.append(e.as_str());
                },
            }
            s.append("_from_raw(arg_");
            s.append(n.as_str());
            s.append(" as u32) {");
            s.append(" Some(a) => a,");
            s.append(" None => return None");
            s.append(" };\n");
            s
        },
        None => String::new(),
    }
}

fn arg_reads(args: &Vec<Arg>, iname: &str) -> (res: String)
    requires
        forall|k: int|
            0 <= k < args@.len() ==> {
                &&& arg_names_its_new_interface(#[trigger] args@[k])
                &&& args@[k].typ != Type::Destructor
            },
    ensures
        res@ == arg_reads_text(args@, iname@, args@.len() as int),
{
    let mut s = String::new();
    let mut i: usize = 0;
    while i < args.len()
        invariant
            i <= args@.len(),
            s@ == arg_reads_text(args@, iname@, i as int),
            forall|k: int|
                0 <= k < args@.len() ==> {
                    &&& arg_names_its_new_interface(#[trigger] args@[k])
                    &&& args@[k].typ != Type::Destructor
                },
        decreases args@.len() - i,
    {
        let a = &args[i];
        assert(arg_names_its_new_interface(args@[i as int]));
        let n = decimal(i as u64);
        let mut line = String::from_str("            let arg_");
        line.append(n.as_str());
        line.append(" = unsafe {");
        let v = arg_value(a.typ, &a.interface, i);
        line.append(v.as_str());
        line.append("};\n");
        let c = enum_conversion(a, i, iname);
        line.append(c.as_str());
        s.append(line.as_str());
        i += 1;
    }
    s
}

fn tuple_items(n: usize) -> (res: String)
    ensures
        res@ == tuple_items_text(n as int),
{
    let mut s = String::new();
    let mut i: usize = 0;
    while i < n
        invariant
            i <= n,
            s@ == tuple_items_text(i as int),
        decreases n - i,
    {
        s.append("arg_");
        push_decimal(&mut s, i as u64);
        s.append(",");
        i += 1;
    }
    s
}

fn handler_arm(m: &Message, op: usize, iname: &str, camel_iname: &str) -> (res: String)
    requires
        request_decodable(*m),
    ensures
        res@ == handler_arm_text(*m, op as int, iname@, camel_iname@),
{
    let mut s = String::from_str("        ");
    push_decimal(&mut s, op as u64);
    s.append(" => {\n");
    let reads = arg_reads(&m.args, iname);
    s.append(reads.as_str());
    s.append("            Some(");
    s.append(camel_iname);
    s.append("Request::");
    let camel = snake_to_camel(m.name.as_str());
    s.append(camel.as_str());
    if m.args.len() > 0 {
        let items = tuple_items(m.args.len());
        let mut call = String::from_str("(");
        call.append(items.as_str());
        call.append(")");
        s.append(call.as_str());
    }
    s.append(")\n");
    s.append("        },\n");
    s
}

/// Writes the function that decodes the requests `messages` of interface
/// `iname`: one match arm per request, numbered by its position.
fn emit_message_handlers(
    messages: &Vec<Message>,
    iname: &str,
    camel_iname: &str,
    pname: &str,
    out: &mut Output,
)
    requires
        forall|j: int| 0 <= j < messages@.len() ==> request_decodable(#[trigger] messages@[j]),
    ensures
        final(out)@ == old(out)@.push(text(message_handlers_text(messages@, iname@, camel_iname@, pname@))),
{
    proof {
        reveal(message_handlers_text);
    }
    let camel_pname = snake_to_camel(pname);
    let mut arms = String::new();
    let mut op: usize = 0;
    while op < messages.len()
        invariant
            op <= messages@.len(),
            arms@ == handler_arms_text(messages@, iname@, camel_iname@, op as int),
            forall|j: int| 0 <= j < messages@.len() ==> request_decodable(#[trigger] messages@[j]),
        decreases messages@.len() - op,
    {
        let arm = handler_arm(&messages[op], op, iname, camel_iname);
        arms.append(arm.as_str());
        op += 1;
    }
    let mut s = String::from_str("fn ");
    s.append(iname);
    s.append("_implem(resource: *mut wl_resource, opcode: u32, args: *const wl_argument) -> Option<");
    s.append(camel_pname.as_str());
    s.append("ProtocolRequest> {\n");
    s.append("    let event = match opcode {\n");
    s.append(arms.as_str());
    s.append("        _ => None\n");
    s.append("    };\n");
    s.append("    let client = unsafe { ffi_dispatch!(WAYLAND_SERVER_HANDLE, wl_resource_get_client, resource) };\n");
    s.append("    event.map(|event| ");
    s.append(camel_pname.as_str());
    s.append("ProtocolRequest::");
    s.append(camel_iname);
    s.append("(wrap_client(client), wrap_resource(resource), event))\n");
    s.append("}\n\n");
    out.text(s);
}

// ---------------------------------------------------------------------------
// Sending events
// ---------------------------------------------------------------------------

/// The doc comment piece of an item with the given description, if any.
pub open spec fn doc_pieces(d: Option<(String, String)>, indent: Seq<char>) -> Seq<PieceView> {
    match d {
        Some((summary, long)) => seq![PieceView::Doc(summary@, long@, indent)],
        None => Seq::empty(),
    }
}

/// The note on the interface version an event needs, for events added after
/// the first version.
pub open spec fn since_text(since: u16) -> Seq<char> {
    if since > 1 {
        "    ///\n    /// Requires interface version `>= "@ + dec(since as int) + "`.\n"@
    } else {
        Seq::empty()
    }
}

/// The Rust type of an enum argument: a bitfield enum is named through its
/// module (`Name::Name`).
pub open spec fn enum_type_text(e: Seq<char>, iname: Seq<char>, camel_iname: Seq<char>, bitfields: Seq<String>) -> Seq<char> {
    if e.contains('.') {
        (if seq_has_string(bitfields, e) {
            spec_dotted_snake_to_camel(e) + "::"@
        } else {
            Seq::empty()
        }) + spec_dotted_snake_to_camel(e)
    } else {
        (if seq_has_string(bitfields, iname + "."@ + e) {
            camel_iname + spec_snake_to_camel(e) + "::"@
        } else {
            Seq::empty()
        }) + camel_iname + spec_snake_to_camel(e)
    }
}

/// The parameter of a `send_` method for argument `a`.
#[verifier::opaque]
pub open spec fn arg_sig_pieces(a: Arg, iname: Seq<char>, camel_iname: Seq<char>, bitfields: Seq<String>) -> Seq<PieceView> {
    if a.typ == Type::NewId {
        seq![text(" "@ + a.name@ + ": &"@ + spec_snake_to_camel(opt_text(a.interface)) + ","@)]
    } else if a.enum_ is Some {
        seq![text(" "@ + a.name@ + ": "@ + enum_type_text(opt_text(a.enum_), iname, camel_iname, bitfields) + ","@)]
    } else if a.typ == Type::Object {
        let ty = match a.interface {
            Some(i) => "&"@ + spec_snake_to_camel(i@),
            None => "*mut ()"@,
        };
        if a.allow_null {
            seq![text(" "@ + a.name@ + ": Option<"@ + ty + ">,"@)]
        } else {
            seq![text(" "@ + a.name@ + ": "@ + ty + ","@)]
        }
    } else if a.allow_null {
        seq![text(" "@ + a.name@ + ": Option<"@), PieceView::RustType(a.typ), text(">,"@)]
    } else {
        seq![text(" "@ + a.name@ + ": "@), PieceView::RustType(a.typ), text(","@)]
    }
}

/// The parameters of the first `n` arguments.
pub open spec fn sig_pieces(args: Seq<Arg>, iname: Seq<char>, camel_iname: Seq<char>, bitfields: Seq<String>, n: int) -> Seq<PieceView>
    decreases n,
{
    if n <= 0 {
        Seq::empty()
    } else {
        sig_pieces(args, iname, camel_iname, bitfields, n - 1) + arg_sig_pieces(
            args[n - 1],
            iname,
            camel_iname,
            bitfields,
        )
    }
}

/// The line that turns a `String` argument into a C string, or a fixed-point
/// argument into its wire form.
pub open spec fn conversion_line(a: Arg) -> Seq<char> {
    match a.typ {
        Type::String => if a.allow_null {
            "        let "@ + a.name@ + " = "@ + a.name@
                + ".map(|t| CString::new(t).unwrap_or_else(|_| panic!(\"Got a String with interior null.\")));\n"@
        } else {
            "        let "@ + a.name@ + " = CString::new("@ + a.name@
                + ").unwrap_or_else(|_| panic!(\"Got a String with interior null.\"));\n"@
        },
        Type::Fixed => "        let "@ + a.name@ + " = wl_fixed_from_double("@ + a.name@ + ");\n"@,
        _ => Seq::empty(),
    }
}

/// The conversion lines of the first `n` arguments.
pub open spec fn conversion_lines(args: Seq<Arg>, n: int) -> Seq<char>
    decreases n,
{
    if n <= 0 {
        Seq::empty()
    } else {
        conversion_lines(args, n - 1) + conversion_line(args[n - 1])
    }
}

/// For an array argument, the statement that builds its `wl_array`.
pub open spec fn array_line(a: Arg) -> Seq<char> {
    if a.typ == Type::Array {
        if a.allow_null {
            "let "@ + a.name@ + " = "@ + a.name@
                + ".as_mut().map(|v| wl_array { size: v.len(), alloc: v.capacity(), data: v.as_ptr() as *mut _ });"@
        } else {
            "let "@ + a.name@ + " = wl_array { size: "@ + a.name@ + ".len(), alloc: "@ + a.name@
                + ".capacity(), data: "@ + a.name@ + ".as_ptr() as *mut _ };"@
        }
    } else {
        Seq::empty()
    }
}

/// The array statements of the first `n` arguments.
pub open spec fn array_lines(args: Seq<Arg>, n: int) -> Seq<char>
    decreases n,
{
    if n <= 0 {
        Seq::empty()
    } else {
        array_lines(args, n - 1) + array_line(args[n - 1])
    }
}

/// How argument `a` is handed to `wl_resource_post_event`.
pub open spec fn post_arg_text(a: Arg, iname: Seq<char>, bitfields: Seq<String>) -> Seq<char> {
    match a.enum_ {
        Some(e) => ", "@ + a.name@ + (if seq_has_string(bitfields, e@) || seq_has_string(
            bitfields,
            iname + "."@ + e@,
        ) {
            ".bits()"@
        } else {
            Seq::empty()
        }) + " as "@ + (if a.typ == Type::Uint {
            "u32"@
        } else {
            "i32"@
        }),
        None => if a.typ == Type::String {
            if a.allow_null {
                ", "@ + a.name@ + ".map(|s| s.as_ptr()).unwrap_or(ptr::null())"@
            } else {
                ", "@ + a.name@ + ".as_ptr()"@
            }
        } else if a.typ == Type::Array {
            if a.allow_null {
                ", "@ + a.name@ + ".map(|a| &a as *const wl_array).unwrap_or(ptr::null_mut())"@
            } else {
                ", &"@ + a.name@ + " as *const wl_array"@
            }
        } else if a.typ == Type::Object || a.typ == Type::NewId {
            if a.allow_null {
                ", "@ + a.name@ + ".map(Resource::ptr).unwrap_or(ptr::null_mut())"@
            } else {
                ", "@ + a.name@ + ".ptr()"@
            }
        } else if a.allow_null {
            ", "@ + a.name@ + ".unwrap_or(0)"@
        } else {
            ", "@ + a.name@
        },
    }
}

/// The posted values of the first `n` arguments.
pub open spec fn post_args_text(args: Seq<Arg>, iname: Seq<char>, bitfields: Seq<String>, n: int) -> Seq<char>
    decreases n,
{
    if n <= 0 {
        Seq::empty()
    } else {
        post_args_text(args, iname, bitfields, n - 1) + post_arg_text(args[n - 1], iname, bitfields)
    }
}

/// The start of the `send_` method of event `e`, up to its first parameter.
#[verifier::opaque]
pub open spec fn event_head_text(e: Message) -> Seq<char> {
    since_text(e.since) + "    pub  fn send_"@ + e.name@ + "(&self,"@
}

/// The rest of the `send_` method of event `e`, after its parameters.
#[verifier::opaque]
pub open spec fn event_body_text(e: Message, iname: Seq<char>, bitfields: Seq<String>) -> Seq<char> {
    ")"@ + " {\n"@ + conversion_lines(e.args@, e.args@.len() as int) + array_lines(
        e.args@,
        e.args@.len() as int,
    )
        + "        unsafe { ffi_dispatch!(WAYLAND_SERVER_HANDLE, wl_resource_post_event, self.ptr(), "@
        + spec_snake_to_screaming(iname) + "_"@ + spec_snake_to_screaming(e.name@) + "\n"@ + "           "@
        + post_args_text(e.args@, iname, bitfields, e.args@.len() as int) + ") };\n"@ + "    }\n"@
}

/// The `send_` method of event `e`, with its doc comment.
pub open spec fn event_pieces(e: Message, iname: Seq<char>, camel_iname: Seq<char>, bitfields: Seq<String>) -> Seq<PieceView> {
    doc_pieces(e.description, "    "@) + seq![text(event_head_text(e))] + sig_pieces(
        e.args@,
        iname,
        camel_iname,
        bitfields,
        e.args@.len() as int,
    ) + seq![text(event_body_text(e, iname, bitfields))]
}

/// The `send_` methods of the first `n` events.
pub open spec fn events_pieces(events: Seq<Message>, iname: Seq<char>, camel_iname: Seq<char>, bitfields: Seq<String>, n: int) -> Seq<PieceView>
    decreases n,
{
    if n <= 0 {
        Seq::empty()
    } else {
        events_pieces(events, iname, camel_iname, bitfields, n - 1) + event_pieces(
            events[n - 1],
            iname,
            camel_iname,
            bitfields,
        )
    }
}

/// The end of the resource's methods, and its `Drop`, which destroys the resource.
#[verifier::opaque]
pub open spec fn impl_tail_text(camel_iname: Seq<char>) -> Seq<char> {
    "}\n\n"@ + "impl Drop for "@ + camel_iname + " {\n"@ + "    fn drop(&mut self) {\n"@
        + "        unsafe { ffi_dispatch!(WAYLAND_SERVER_HANDLE, wl_resource_destroy, self.ptr()) }\n"@
        + "    }\n"@ + "}\n"@
}

/// The methods of the resource type of interface `iname`: one `send_`
/// method per event, then its `Drop`.
pub open spec fn iface_impl_pieces(events: Seq<Message>, iname: Seq<char>, camel_iname: Seq<char>, bitfields: Seq<String>) -> Seq<PieceView> {
    seq![text("impl "@ + camel_iname + " {\n"@)] + events_pieces(
        events,
        iname,
        camel_iname,
        bitfields,
        events.len() as int,
    ) + seq![text(impl_tail_text(camel_iname))]
}

fn emit_doc(d: &Option<(String, String)>, indent: &str, out: &mut Output)
    ensures
        final(out)@ == old(out)@ + doc_pieces(*d, indent@),
{
    match d {
        Some((summary, long)) => {
            out.push(Piece::Doc(summary.clone(), long.clone(), String::from_str(indent)));
        },
        None => {},
    }
    assert(out@ =~= old(out)@ + doc_pieces(*d, indent@));
}

fn since_line(since: u16) -> (res: String)
    ensures
        res@ == since_text(since),
{
    if since > 1 {
        let mut s = String::from_str("    ///\n    /// Requires interface version `>= ");
        push_decimal(&mut s, since as u64);
        s.append("`.\n");
        s
    } else {
        String::new()
    }
}

fn enum_type(e: &str, iname: &str, camel_iname: &str, bitfields: &Vec<String>) -> (res: String)
    ensures
        res@ == enum_type_text(e@, iname@, camel_iname@, bitfields@),
{
    if has_dot(e) {
        let ty = dotted_snake_to_camel(e);
        let mut s = String::new();
        if contains_string(bitfields, e) {
            s.append(ty.as_str());
            s.append("::");
        }
        s.append(ty.as_str());
        assert(s@ =~= enum_type_text(e@, iname@, camel_iname@, bitfields@));
        s
    } else {
        let camel_e = snake_to_camel(e);
        let mut qualified = String::from_str(iname);
        qualified.append(".");
        qualified.append(e);
        let mut s = String::new();
        if contains_string(bitfields, qualified.as_str()) {
            s.append(camel_iname);
            s.append(camel_e.as_str());
            s.append("::");
        }
        s.append(camel_iname);
        s.append(camel_e.as_str());
        assert(s@ =~= enum_type_text(e@, iname@, camel_iname@, bitfields@));
        s
    }
}

fn emit_arg_sig(a: &Arg, iname: &str, camel_iname: &str, bitfields: &Vec<String>, out: &mut Output)
    requires
        arg_names_its_new_interface(*a),
    ensures
        final(out)@ == old(out)@ + arg_sig_pieces(*a, iname@, camel_iname@, bitfields@),
{
    proof {
        reveal(arg_sig_pieces);
    }
    let mut s = String::from_str(" ");
    s.append(a.name.as_str());
    if a.typ == Type::NewId {
        let iface = match &a.interface {
            Some(x) => x.as_str(),
            None => "",
        };
        let camel = snake_to_camel(iface);
        s.append(": &");
        s.append(camel.as_str());
        s.append(",");
        out.text(s);
    } else if a.enum_.is_some() {
        let e = match &a.enum_ {
            Some(x) => x.as_str(),
            None => "",
        };
        let ty = enum_type(e, iname, camel_iname, bitfields);
        s.append(": ");
        s.append(ty.as_str());
        s.append(",");
        out.text(s);
    } else if a.typ == Type::Object {
        let ty = match &a.interface {
            Some(i) => {
                let mut t = String::from_str("&");
                let camel = snake_to_camel(i.as_str());
                t.append(camel.as_str());
                t
            },
            None => String::from_str("*mut ()"),
        };
        if a.allow_null {
            s.append(": Option<");
            s.append(ty.as_str());
            s.append(">,");
        } else {
            s.append(": ");
            s.append(ty.as_str());
            s.append(",");
        }
        out.text(s);
    } else if a.allow_null {
        s.append(": Option<");
        out.text(s);
        out.push(Piece::RustType(a.typ));
        out.text(String::from_str(">,"));
    } else {
        s.append(": ");
        out.text(s);
        out.push(Piece::RustType(a.typ));
        out.text(String::from_str(","));
    }
    assert(out@ =~= old(out)@ + arg_sig_pieces(*a, iname@, camel_iname@, bitfields@));
}

fn conversion(a: &Arg) -> (res: String)
    ensures
        res@ == conversion_line(*a),
{
    let n = a.name.as_str();
    match a.typ {
        Type::String => {
            let mut s = String::from_str("        let ");
            s.append(n);
            if a.allow_null {
                s.append(" = ");
                s.append(n);
                s.append(
                    ".map(|t| CString::new(t).unwrap_or_else(|_| panic!(\"Got a String with interior null.\")));\n",
                );
            } else {
                s.append(" = CString::new(");
                s.append(n);
                s.append(").unwrap_or_else(|_| panic!(\"Got a String with interior null.\"));\n");
            }
            s
        },
        Type::Fixed => {
            let mut s = String::from_str("        let ");
            s.append(n);
            s.append(" = wl_fixed_from_double(");
            s.append(n);
            s.append(");\n");
            s
        },
        _ => String::new(),
    }
}

fn array_stmt(a: &Arg) -> (res: String)
    ensures
        res@ == array_line(*a),
{
    let n = a.name.as_str();
    if a.typ == Type::Array {
        let mut s = String::from_str("let ");
        s.append(n);
        if a.allow_null {
            s.append(" = ");
            s.append(n);
            s.append(
                ".as_mut().map(|v| wl_array { size: v.len(), alloc: v.capacity(), data: v.as_ptr() as *mut _ });",
            );
        } else {
            s.append(" = wl_array { size: ");
            s.append(n);
            s.append(".len(), alloc: ");
            s.append(n);
            s.append(".capacity(), data: ");
            s.append(n);
            s.append(".as_ptr() as *mut _ };");
        }
        s
    } else {
        String::new()
    }
}

fn post_arg(a: &Arg, iname: &str, bitfields: &Vec<String>) -> (res: String)
    ensures
        res@ == post_arg_text(*a, iname@, bitfields@),
{
    let n = a.name.as_str();
    match &a.enum_ {
        Some(e) => {
            let mut s = String::from_str(", ");
            s.append(n);
            let mut qualified = String::from_str(iname);
            qualified.append(".");
            qualified.append(e.as_str());
            if contains_string(bitfields, e.as_str()) || contains_string(
                bitfields,
                qualified.as_str(),
            ) {
                s.append(".bits()");
            }
            s.append(" as ");
            if a.typ == Type::Uint {
                s.append("u32");
            } else {
                s.append("i32");
            }
            assert(s@ =~= post_arg_text(*a, iname@, bitfields@));
            s
        },
        None => {
            if a.typ == Type::String {
                let mut s = String::from_str(", ");
                s.append(n);
                if a.allow_null {
                    s.append(".map(|s| s.as_ptr()).unwrap_or(ptr::null())");
                } else {
                    s.append(".as_ptr()");
                }
                s
            } else if a.typ == Type::Array {
                if a.allow_null {
                    let mut s = String::from_str(", ");
                    s.append(n);
                    s.append(".map(|a| &a as *const wl_array).unwrap_or(ptr::null_mut())");
                    s
                } else {
                    let mut s = String::from_str(", &");
                    s.append(n);
                    s.append(" as *const wl_array");
                    s
                }
            } else if a.typ == Type::Object || a.typ == Type::NewId {
                let mut s = String::from_str(", ");
                s.append(n);
                if a.allow_null {
                    s.append(".map(Resource::ptr).unwrap_or(ptr::null_mut())");
                } else {
                    s.append(".ptr()");
                }
                s
            } else {
                let mut s = String::from_str(", ");
                s.append(n);
                if a.allow_null {
                    s.append(".unwrap_or(0)");
                }
                s
            }
        },
    }
}

fn event_body(e: &Message, iname: &str, bitfields: &Vec<String>) -> (res: String)
    ensures
        res@ == event_body_text(*e, iname@, bitfields@),
{
    proof {
        reveal(event_body_text);
    }
    let args = &e.args;
    let mut conv = String::new();
    let mut arrays = String::new();
    let mut posts = String::new();
    let mut i: usize = 0;
    while i < args.len()
        invariant
            i <= args@.len(),
            conv@ == conversion_lines(args@, i as int),
            arrays@ == array_lines(args@, i as int),
            posts@ == post_args_text(args@, iname@, bitfields@, i as int),
        decreases args@.len() - i,
    {
        let c = conversion(&args[i]);
        conv.append(c.as_str());
        let a = array_stmt(&args[i]);
        arrays.append(a.as_str());
        let p = post_arg(&args[i], iname, bitfields);
        posts.append(p.as_str());
        i += 1;
    }
    let iname_upper = snake_to_screaming(iname);
    let ename_upper = snake_to_screaming(e.name.as_str());
    let mut s = String::from_str(")");
    s.append(" {\n");
    s.append(conv.as_str());
    s.append(arrays.as_str());
    s.append("        unsafe { ffi_dispatch!(WAYLAND_SERVER_HANDLE, wl_resource_post_event, self.ptr(), ");
    s.append(iname_upper.as_str());
    s.append("_");
    s.append(ename_upper.as_str());
    s.append("\n");
    s.append("           ");
    s.append(posts.as_str());
    s.append(") };\n");
    s.append("    }\n");
    s
}

fn emit_event(e: &Message, iname: &str, camel_iname: &str, bitfields: &Vec<String>, out: &mut Output)
    requires
        event_sendable(*e),
    ensures
        final(out)@ == old(out)@ + event_pieces(*e, iname@, camel_iname@, bitfields@),
{
    proof {
        reveal(event_head_text);
    }
    emit_doc(&e.description, "    ", out);
    let mut head = since_line(e.since);
    head.append("    pub  fn send_");
    head.append(e.name.as_str());
    head.append("(&self,");
    out.text(head);
    let ghost before_sig = out@;
    let mut i: usize = 0;
    while i < e.args.len()
        invariant
            i <= e.args@.len(),
            event_sendable(*e),
            out@ == before_sig + sig_pieces(e.args@, iname@, camel_iname@, bitfields@, i as int),
        decreases e.args@.len() - i,
    {
        assert(arg_names_its_new_interface(e.args@[i as int]));
        emit_arg_sig(&e.args[i], iname, camel_iname, bitfields, out);
        assert(out@ =~= before_sig + sig_pieces(e.args@, iname@, camel_iname@, bitfields@, i + 1));
        i += 1;
    }
    let body = event_body(e, iname, bitfields);
    out.text(body);
    assert(out@ =~= old(out)@ + event_pieces(*e, iname@, camel_iname@, bitfields@));
}

/// Writes the methods of the resource type of interface `iname`: a `send_`
/// method for each of `events`, then its `Drop`.
fn emit_iface_impl(
    events: &Vec<Message>,
    iname: &str,
    camel_iname: &str,
    bitfields: &Vec<String>,
    out: &mut Output,
)
    requires
        forall|j: int| 0 <= j < events@.len() ==> event_sendable(#[trigger] events@[j]),
    ensures
        final(out)@ == old(out)@ + iface_impl_pieces(events@, iname@, camel_iname@, bitfields@),
{
    proof {
        reveal(impl_tail_text);
    }
    let mut head = String::from_str("impl ");
    head.append(camel_iname);
    head.append(" {\n");
    out.text(head);
    let ghost start = out@;
    let mut j: usize = 0;
    while j < events.len()
        invariant
            j <= events@.len(),
            forall|k: int| 0 <= k < events@.len() ==> event_sendable(#[trigger] events@[k]),
            out@ == start + events_pieces(events@, iname@, camel_iname@, bitfields@, j as int),
        decreases events@.len() - j,
    {
        emit_event(&events[j], iname, camel_iname, bitfields, out);
        assert(out@ =~= start + events_pieces(events@, iname@, camel_iname@, bitfields@, j + 1));
        j += 1;
    }
    let mut tail = String::from_str("}\n\n");
    tail.append("impl Drop for ");
    tail.append(camel_iname);
    tail.append(" {\n");
    tail.append("    fn drop(&mut self) {\n");
    tail.append("        unsafe { ffi_dispatch!(WAYLAND_SERVER_HANDLE, wl_resource_destroy, self.ptr()) }\n");
    tail.append("    }\n");
    tail.append("}\n");
    out.text(tail);
    assert(out@ =~= old(out)@ + iface_impl_pieces(events@, iname@, camel_iname@, bitfields@));
}

// ---------------------------------------------------------------------------
// The resource type of an interface
// ---------------------------------------------------------------------------

/// The resource struct of interface `iface` and its `Resource` and `Debug` impls.
#[verifier::opaque]
pub open spec fn iface_struct_text(camel_iname: Seq<char>, iface: Interface, pname: Seq<char>) -> Seq<char> {
    struct_head_text(camel_iname, iface.name@, iface.version) + dispatcher_registration_text(iface)
        + struct_tail_text(camel_iname, iface.name@, pname)
}

/// The resource struct, its thread-safety impls and its `Resource` impl up
/// to the start of `from_ptr`.
pub open spec fn struct_head_text(camel_iname: Seq<char>, iname: Seq<char>, version: u32) -> Seq<char> {
    "pub struct "@ + camel_iname + " {\n    ptr: *mut wl_resource,\n    client: *mut wl_client,\n"@
        + "    evq: Arc<(RequestFifo,AtomicBool)>\n}\n\n"@ + "unsafe impl Sync for "@ + camel_iname
        + " {}\n"@ + "unsafe impl Send for "@ + camel_iname + " {}\n"@ + "impl Resource for "@
        + camel_iname + " {\n"@ + "    fn ptr(&self) -> *mut wl_resource { self.ptr }\n"@
        + "    fn interface() -> *mut wl_interface { unsafe { &mut "@ + iname
        + "_interface  as *mut wl_interface } }\n"@ + "    fn interface_name() -> &'static str { \""@
        + iname + "\" }\n"@ + "    fn max_version() -> u32 { "@ + dec(version as int) + " }\n"@
        + "    fn bound_version(&self) -> u32 { let v = unsafe { ffi_dispatch!(WAYLAND_SERVER_HANDLE, wl_resource_get_version, self.ptr) }; v as u32 }\n"@
        + "    fn id(&self) -> ResourceId { ResourceId { id: self.ptr as usize } }\n"@
        + "    fn client_id(&self) -> ClientId { wrap_client(self.client) }\n"@
        + "    unsafe fn from_ptr(ptr: *mut wl_resource) -> "@ + camel_iname + " {\n"@
}

/// For an interface with requests, the line of `from_ptr` that registers its
/// decoding function with the dispatcher.
pub open spec fn dispatcher_registration_text(iface: Interface) -> Seq<char> {
    if iface.requests@.len() > 0 {
        "        ffi_dispatch!(WAYLAND_SERVER_HANDLE, wl_resource_set_dispatcher, ptr, event_dispatcher, "@
            + iface.name@
            + "_implem as *const c_void, ptr::null_mut(), ::std::mem::transmute::<*const u8, wl_resource_destroy_func_t>(ptr::null()));\n"@
    } else {
        Seq::empty()
    }
}

/// The rest of the resource's `Resource` impl, and its `Debug` impl.
pub open spec fn struct_tail_text(camel_iname: Seq<char>, iname: Seq<char>, pname: Seq<char>) -> Seq<char> {
    "        let client = ffi_dispatch!(WAYLAND_SERVER_HANDLE, wl_resource_get_client, ptr);\n"@
        + "        "@ + camel_iname
        + " { ptr: ptr, client: client, evq: Arc::new((RequestFifo::new(), AtomicBool::new(false))) }\n"@
        + "    }\n"@ + "    unsafe fn from_ptr_no_own(ptr: *mut wl_resource) -> "@ + camel_iname + " {\n"@
        + "        let client = ffi_dispatch!(WAYLAND_SERVER_HANDLE, wl_resource_get_client, ptr);\n"@
        + "        "@ + camel_iname
        + " { ptr: ptr, client: client, evq: Arc::new((RequestFifo::new(), AtomicBool::new(false))) }\n"@
        + "    }\n"@ + "    fn set_req_iterator(&mut self, req: &RequestIterator) {\n"@
        + "        self.evq = get_requestiter_internals(req);\n"@
        + "        let ptr = &*self.evq as *const (RequestFifo,AtomicBool);\n"@
        + "        unsafe { ffi_dispatch!(WAYLAND_SERVER_HANDLE, wl_resource_set_user_data, self.ptr, ptr as *const c_void as *mut c_void) };\n"@
        + "    }\n"@ + "}\n\n"@ + "impl ::std::fmt::Debug for "@ + camel_iname + " {\n"@
        + "    fn fmt(&self, fmt: &mut ::std::fmt::Formatter) -> Result<(), ::std::fmt::Error> {\n"@
        + "        fmt.write_fmt(format_args!(\""@ + pname + "::"@ + iname
        + "::{:p}@{:p}\", self.ptr, self.client))\n"@ + "    }\n"@ + "}\n\n"@
}

/// The resource type of interface `iface`, after its doc comment.
pub open spec fn iface_struct_pieces(camel_iname: Seq<char>, iface: Interface, pname: Seq<char>) -> Seq<PieceView> {
    doc_pieces(iface.description, ""@) + seq![text(iface_struct_text(camel_iname, iface, pname))]
}

/// Writes the resource type of `interface`.
fn emit_iface_struct(camel_iname: &str, interface: &Interface, pname: &str, out: &mut Output)
    ensures
        final(out)@ == old(out)@ + iface_struct_pieces(camel_iname@, *interface, pname@),
{
    proof {
        reveal(iface_struct_text);
    }
    emit_doc(&interface.description, "", out);
    let iname = interface.name.as_str();
    let mut s = String::from_str("pub struct ");
    s.append(camel_iname);
    s.append(" {\n    ptr: *mut wl_resource,\n    client: *mut wl_client,\n");
    s.append("    evq: Arc<(RequestFifo,AtomicBool)>\n}\n\n");
    s.append("unsafe impl Sync for ");
    s.append(camel_iname);
    s.append(" {}\n");
    s.append("unsafe impl Send for ");
    s.append(camel_iname);
    s.append(" {}\n");
    s.append("impl Resource for ");
    s.append(camel_iname);
    s.append(" {\n");
    s.append("    fn ptr(&self) -> *mut wl_resource { self.ptr }\n");
    s.append("    fn interface() -> *mut wl_interface { unsafe { &mut ");
    s.append(iname);
    s.append("_interface  as *mut wl_interface } }\n");
    s.append("    fn interface_name() -> &'static str { \"");
    s.append(iname);
    s.append("\" }\n");
    s.append("    fn max_version() -> u32 { ");
    push_decimal(&mut s, interface.version as u64);
    s.append(" }\n");
    s.append(
        "    fn bound_version(&self) -> u32 { let v = unsafe { ffi_dispatch!(WAYLAND_SERVER_HANDLE, wl_resource_get_version, self.ptr) }; v as u32 }\n",
    );
    s.append("    fn id(&self) -> ResourceId { ResourceId { id: self.ptr as usize } }\n");
    s.append("    fn client_id(&self) -> ClientId { wrap_client(self.client) }\n");
    s.append("    unsafe fn from_ptr(ptr: *mut wl_resource) -> ");
    s.append(camel_iname);
    s.append(" {\n");
    let mut reg = String::new();
    if interface.requests.len() > 0 {
        reg.append(
            "        ffi_dispatch!(WAYLAND_SERVER_HANDLE, wl_resource_set_dispatcher, ptr, event_dispatcher, ",
        );
        reg.append(iname);
        reg.append(
            "_implem as *const c_void, ptr::null_mut(), ::std::mem::transmute::<*const u8, wl_resource_destroy_func_t>(ptr::null()));\n",
        );
    }
    s.append(reg.as_str());
    let mut t = String::from_str(
        "        let client = ffi_dispatch!(WAYLAND_SERVER_HANDLE, wl_resource_get_client, ptr);\n",
    );
    t.append("        ");
    t.append(camel_iname);
    t.append(
        " { ptr: ptr, client: client, evq: Arc::new((RequestFifo::new(), AtomicBool::new(false))) }\n",
    );
    t.append("    }\n");
    t.append("    unsafe fn from_ptr_no_own(ptr: *mut wl_resource) -> ");
    t.append(camel_iname);
    t.append(" {\n");
    t.append("        let client = ffi_dispatch!(WAYLAND_SERVER_HANDLE, wl_resource_get_client, ptr);\n");
    t.append("        ");
    t.append(camel_iname);
    t.append(
        " { ptr: ptr, client: client, evq: Arc::new((RequestFifo::new(), AtomicBool::new(false))) }\n",
    );
    t.append("    }\n");
    t.append("    fn set_req_iterator(&mut self, req: &RequestIterator) {\n");
    t.append("        self.evq = get_requestiter_internals(req);\n");
    t.append("        let ptr = &*self.evq as *const (RequestFifo,AtomicBool);\n");
    t.append(
        "        unsafe { ffi_dispatch!(WAYLAND_SERVER_HANDLE, wl_resource_set_user_data, self.ptr, ptr as *const c_void as *mut c_void) };\n",
    );
    t.append("    }\n");
    t.append("}\n\n");
    t.append("impl ::std::fmt::Debug for ");
    t.append(camel_iname);
    t.append(" {\n");
    t.append("    fn fmt(&self, fmt: &mut ::std::fmt::Formatter) -> Result<(), ::std::fmt::Error> {\n");
    t.append("        fmt.write_fmt(format_args!(\"");
    t.append(pname);
    t.append("::");
    t.append(iname);
    t.append("::{:p}@{:p}\", self.ptr, self.client))\n");
    t.append("    }\n");
    t.append("}\n\n");
    s.append(t.as_str());
    out.text(s);
    assert(out@ =~= old(out)@ + iface_struct_pieces(camel_iname@, *interface, pname@));
}

// ---------------------------------------------------------------------------
// The file header and the request machinery
// ---------------------------------------------------------------------------

/// The import of the atomic flag that tells whether a resource's requests
/// are being collected.
pub open spec fn atomic_import_text() -> Seq<char> {
    "use std::sync::atomic::{AtomicBool, Ordering};\n"@
}

fn atomic_import_line() -> (s: &'static str)
    ensures
        s@ == atomic_import_text(),
{
    "use std::sync::atomic::{AtomicBool, Ordering};\n"
}

/// The dispatcher drops requests of resources whose flag is not set.
pub open spec fn dispatch_enabled_check_text() -> Seq<char> {
    "    if !fifo.1.load(Ordering::SeqCst) { return; }\n"@
}

fn dispatch_enabled_check_line() -> (s: &'static str)
    ensures
        s@ == dispatch_enabled_check_text(),
{
    "    if !fifo.1.load(Ordering::SeqCst) { return; }\n"
}

/// The comment that opens the file.
pub open spec fn header_comment_text() -> Seq<char> {
    "//\n// This file was auto-generated, do not edit directly\n//\n\n"@
}

/// The protocol's copyright notice, as a block comment, where it has one.
pub open spec fn copyright_text(copyright: Option<String>) -> Seq<char> {
    match copyright {
        Some(c) => "/*\n"@ + c@ + "\n*/\n\n"@,
        None => Seq::empty(),
    }
}

/// The first import of the file.
pub open spec fn first_import_text() -> Seq<char> {
    "use wayland_sys::common::*;\n"@
}

/// The imports after the first one.
pub open spec fn other_imports_text() -> Seq<char> {
    "use wayland_sys::server::*;\n"@ + "use {Resource, ResourceId, wrap_resource};\n"@
        + "use client::{ClientId, wrap_client};\n"@
        + "use requests::{RequestIterator, RequestFifo, get_requestiter_internals};\n"@
        + "use super::interfaces::*;\n"@ + "\n"@ + "use std::ffi::{CString, CStr};\n"@
        + "use std::ptr;\n"@ + "use std::sync::Arc;\n"@ + atomic_import_text()
        + "use std::os::raw::{c_void, c_char};\n"@
}

/// The comment that opens the file, the protocol's copyright and the imports.
#[verifier::opaque]
pub open spec fn preamble_text(p: Protocol) -> Seq<char> {
    header_comment_text() + copyright_text(p.copyright) + (first_import_text()
        + other_imports_text())
}

/// The variant of the protocol's request enum for interface `iface`: only
/// interfaces with requests that the library does not handle itself get one.
pub open spec fn request_variant_text(iface: Interface) -> Seq<char> {
    if !is_builtin_interface(iface.name@) && iface.requests@.len() > 0 {
        "    "@ + spec_snake_to_camel(iface.name@) + "(ClientId, ResourceId, "@ + spec_snake_to_camel(
            iface.name@,
        ) + "Request),\n"@
    } else {
        Seq::empty()
    }
}

/// The variants of the first `n` interfaces.
pub open spec fn request_variants_text(ifaces: Seq<Interface>, n: int) -> Seq<char>
    decreases n,
{
    if n <= 0 {
        Seq::empty()
    } else {
        request_variants_text(ifaces, n - 1) + request_variant_text(ifaces[n - 1])
    }
}

/// The doc comment of the protocol's request enum.
pub open spec fn request_enum_doc_text(pname: Seq<char>) -> Seq<char> {
    "/// A request generated by the protocol "@ + pname + ".\n"@ + "///\n"@
        + "/// Each variant is composed of a `ClientId` reffering to the client object,\n"@
        + "/// a `ResourceId` reffering to the resource object and the event data itself.\n"@
        + "#[derive(Debug)]\n"@
}

/// The protocol's request enum: one variant per interface with requests
/// that the library does not handle itself, in the order of the interfaces.
pub open spec fn request_enum_text(p: Protocol) -> Seq<char> {
    "pub enum "@ + spec_snake_to_camel(p.name@) + "ProtocolRequest {\n"@ + request_variants_text(
        p.interfaces@,
        p.interfaces@.len() as int,
    ) + "}\n\n"@
}

/// The type of the decoding functions, which return the protocol's request enum.
pub open spec fn dispatcher_alias_text(pname: Seq<char>) -> Seq<char> {
    "type "@ + pname
        + "_dispatcher_implem = fn(*mut wl_resource, u32, *const wl_argument) -> Option<"@
        + spec_snake_to_camel(pname) + "ProtocolRequest>;\n\n"@
}

/// The start of the dispatcher, up to the conversion of its decoding function.
pub open spec fn dispatcher_start_text() -> Seq<char> {
    "extern \"C\" fn event_dispatcher(implem: *const c_void, resource: *mut c_void, opcode: u32, _: *const wl_message, args: *const wl_argument) {\n"@
        + "    let userdata = unsafe { ffi_dispatch!(WAYLAND_SERVER_HANDLE, wl_resource_get_user_data, resource as *mut wl_resource) } as *const (RequestFifo, AtomicBool);\n"@
        + "    if userdata.is_null() { return; }\n"@
        + "    let fifo: &(RequestFifo, AtomicBool) = unsafe { &*userdata };\n"@
        + dispatch_enabled_check_text()
}

/// The dispatcher turns its raw decoding function into the type declared
/// by [`dispatcher_alias_text`].
pub open spec fn dispatcher_transmute_text(pname: Seq<char>) -> Seq<char> {
    "    let implem = unsafe { ::std::mem::transmute::<_, "@ + pname + "_dispatcher_implem>(implem) };\n"@
}

/// The dispatcher decodes the request.
pub open spec fn dispatcher_decode_text() -> Seq<char> {
    "    let request = implem(resource as *mut wl_resource, opcode, args);\n"@
}

/// The end of the dispatcher, which queues a decoded request.
pub open spec fn dispatcher_queue_text(camel_pname: Seq<char>) -> Seq<char> {
    "    if let Some(req) = request {\n"@ + "        fifo.0.push(::Request::"@ + camel_pname
        + "(req));\n"@ + "    }\n"@ + "}\n"@
}

/// The protocol's request enum and the dispatcher that queues decoded requests.
#[verifier::opaque]
pub open spec fn request_machinery_text(p: Protocol) -> Seq<char> {
    request_enum_doc_text(p.name@) + request_enum_text(p) + dispatcher_alias_text(p.name@) + (
    dispatcher_start_text() + dispatcher_transmute_text(p.name@) + dispatcher_decode_text())
        + dispatcher_queue_text(spec_snake_to_camel(p.name@))
}

fn request_variant(iface: &Interface) -> (res: String)
    ensures
        res@ == request_variant_text(*iface),
{
    if !is_builtin_name(iface.name.as_str()) && iface.requests.len() > 0 {
        let camel = snake_to_camel(iface.name.as_str());
        let mut s = String::from_str("    ");
        s.append(camel.as_str());
        s.append("(ClientId, ResourceId, ");
        s.append(camel.as_str());
        s.append("Request),\n");
        s
    } else {
        String::new()
    }
}

fn request_enum_doc(pname: &str) -> (res: String)
    ensures
        res@ == request_enum_doc_text(pname@),
{
    let mut s = String::from_str("/// A request generated by the protocol ");
    s.append(pname);
    s.append(".\n");
    s.append("///\n");
    s.append("/// Each variant is composed of a `ClientId` reffering to the client object,\n");
    s.append("/// a `ResourceId` reffering to the resource object and the event data itself.\n");
    s.append("#[derive(Debug)]\n");
    s
}

fn request_enum(protocol: &Protocol, camel_pname: &str) -> (res: String)
    requires
        camel_pname@ == spec_snake_to_camel(protocol.name@),
    ensures
        res@ == request_enum_text(*protocol),
{
    let mut variants = String::new();
    let mut i: usize = 0;
    while i < protocol.interfaces.len()
        invariant
            i <= protocol.interfaces@.len(),
            variants@ == request_variants_text(protocol.interfaces@, i as int),
        decreases protocol.interfaces@.len() - i,
    {
        let v = request_variant(&protocol.interfaces[i]);
        variants.append(v.as_str());
        i += 1;
    }
    let mut s = String::from_str("pub enum ");
    s.append(camel_pname);
    s.append("ProtocolRequest {\n");
    s.append(variants.as_str());
    s.append("}\n\n");
    s
}

fn dispatcher_alias(pname: &str, camel_pname: &str) -> (res: String)
    requires
        camel_pname@ == spec_snake_to_camel(pname@),
    ensures
        res@ == dispatcher_alias_text(pname@),
{
    let mut s = String::from_str("type ");
    s.append(pname);
    s.append("_dispatcher_implem = fn(*mut wl_resource, u32, *const wl_argument) -> Option<");
    s.append(camel_pname);
    s.append("ProtocolRequest>;\n\n");
    s
}

fn dispatcher_body(pname: &str) -> (res: String)
    ensures
        res@ == dispatcher_start_text() + dispatcher_transmute_text(pname@) + dispatcher_decode_text(),
{
    let mut start = String::from_str(
        "extern \"C\" fn event_dispatcher(implem: *const c_void, resource: *mut c_void, opcode: u32, _: *const wl_message, args: *const wl_argument) {\n",
    );
    start.append(
        "    let userdata = unsafe { ffi_dispatch!(WAYLAND_SERVER_HANDLE, wl_resource_get_user_data, resource as *mut wl_resource) } as *const (RequestFifo, AtomicBool);\n",
    );
    start.append("    if userdata.is_null() { return; }\n");
    start.append("    let fifo: &(RequestFifo, AtomicBool) = unsafe { &*userdata };\n");
    start.append(dispatch_enabled_check_line());
    let mut transmute = String::from_str("    let implem = unsafe { ::std::mem::transmute::<_, ");
    transmute.append(pname);
    transmute.append("_dispatcher_implem>(implem) };\n");
    start.append(transmute.as_str());
    start.append("    let request = implem(resource as *mut wl_resource, opcode, args);\n");
    start
}

fn dispatcher_queue(camel_pname: &str) -> (res: String)
    ensures
        res@ == dispatcher_queue_text(camel_pname@),
{
    let mut s = String::from_str("    if let Some(req) = request {\n");
    s.append("        fifo.0.push(::Request::");
    s.append(camel_pname);
    s.append("(req));\n");
    s.append("    }\n");
    s.append("}\n");
    s
}

/// Writes the protocol's request enum and the dispatcher that queues the
/// decoded requests.
fn emit_request_machinery(protocol: &Protocol, out: &mut Output)
    ensures
        final(out)@ == old(out)@.push(text(request_machinery_text(*protocol))),
{
    proof {
        reveal(request_machinery_text);
    }
    let pname = protocol.name.as_str();
    let camel_pname = snake_to_camel(pname);
    let mut s = request_enum_doc(pname);
    let e = request_enum(protocol, camel_pname.as_str());
    s.append(e.as_str());
    let a = dispatcher_alias(pname, camel_pname.as_str());
    s.append(a.as_str());
    let b = dispatcher_body(pname);
    s.append(b.as_str());
    let q = dispatcher_queue(camel_pname.as_str());
    s.append(q.as_str());
    out.text(s);
}

fn preamble(protocol: &Protocol) -> (res: String)
    ensures
        res@ == preamble_text(*protocol),
{
    proof {
        reveal(preamble_text);
    }
    let mut s = String::from_str("//\n// This file was auto-generated, do not edit directly\n//\n\n");
    match &protocol.copyright {
        Some(c) => {
            let mut t = String::from_str("/*\n");
            t.append(c.as_str());
            t.append("\n*/\n\n");
            s.append(t.as_str());
        },
        None => {},
    }
    let mut imports = String::from_str("use wayland_sys::common::*;\n");
    let mut others = String::from_str("use wayland_sys::server::*;\n");
    others.append("use {Resource, ResourceId, wrap_resource};\n");
    others.append("use client::{ClientId, wrap_client};\n");
    others.append("use requests::{RequestIterator, RequestFifo, get_requestiter_internals};\n");
    others.append("use super::interfaces::*;\n");
    others.append("\n");
    others.append("use std::ffi::{CString, CStr};\n");
    others.append("use std::ptr;\n");
    others.append("use std::sync::Arc;\n");
    others.append(atomic_import_line());
    others.append("use std::os::raw::{c_void, c_char};\n");
    imports.append(others.as_str());
    s.append(imports.as_str());
    s
}

// ---------------------------------------------------------------------------
// The whole file
// ---------------------------------------------------------------------------

/// The comment that opens the code of interface `iname`.
pub open spec fn interface_header_text(iname: Seq<char>) -> Seq<char> {
    "//\n// interface "@ + iname + "\n//\n\n"@
}

/// The code of interface number `i` of `p`: a comment naming it, its
/// resource type, its opcode constants, for an interface with requests its
/// request enum and their decoding, and its methods. The interfaces that the
/// library handles itself get nothing.
pub open spec fn interface_section(p: Protocol, bitfields: Seq<String>, i: int) -> Seq<PieceView> {
    let iface = p.interfaces@[i];
    let camel = spec_snake_to_camel(iface.name@);
    if is_builtin_interface(iface.name@) {
        Seq::empty()
    } else {
        seq![text(interface_header_text(iface.name@))] + iface_struct_pieces(
            camel,
            iface,
            p.name@,
        ) + seq![PieceView::Opcodes(i as nat)] + (if iface.requests@.len() > 0 {
            seq![
                PieceView::RequestEnums(i as nat),
                text(message_handlers_text(iface.requests@, iface.name@, camel, p.name@)),
            ]
        } else {
            Seq::empty()
        }) + iface_impl_pieces(iface.events@, iface.name@, camel, bitfields)
    }
}

/// The sections of the first `n` interfaces.
pub open spec fn interface_sections(p: Protocol, bitfields: Seq<String>, n: int) -> Seq<PieceView>
    decreases n,
{
    if n <= 0 {
        Seq::empty()
    } else {
        interface_sections(p, bitfields, n - 1) + interface_section(p, bitfields, n - 1)
    }
}

/// The enum definitions of every interface, in order.
pub open spec fn enums_pieces(n: nat) -> Seq<PieceView> {
    Seq::new(n, |i: int| PieceView::Enums(i as nat))
}

/// The server-side API of protocol `p`, where `bitfields` names the enums
/// (as `interface.enum`) that are bit sets.
pub open spec fn server_api_pieces(p: Protocol, bitfields: Seq<String>) -> Seq<PieceView> {
    seq![text(preamble_text(p)), text(request_machinery_text(p))] + enums_pieces(
        p.interfaces@.len(),
    ) + interface_sections(p, bitfields, p.interfaces@.len() as int)
}

fn emit_interface(protocol: &Protocol, bitfields: &Vec<String>, i: usize, out: &mut Output)
    requires
        i < protocol.interfaces@.len(),
        protocol_generable(*protocol),
    ensures
        final(out)@ == old(out)@ + interface_section(*protocol, bitfields@, i as int),
{
    let interface = &protocol.interfaces[i];
    if is_builtin_name(interface.name.as_str()) {
        assert(out@ =~= old(out)@ + interface_section(*protocol, bitfields@, i as int));
        return;
    }
    assert(interface_generable(protocol.interfaces@[i as int]));
    let iname = interface.name.as_str();
    let camel_iname = snake_to_camel(iname);
    let mut title = String::from_str("//\n// interface ");
    title.append(iname);
    title.append("\n//\n\n");
    out.text(title);
    emit_iface_struct(camel_iname.as_str(), interface, protocol.name.as_str(), out);
    out.push(Piece::Opcodes(i));
    if interface.requests.len() > 0 {
        out.push(Piece::RequestEnums(i));
        emit_message_handlers(
            &interface.requests,
            iname,
            camel_iname.as_str(),
            protocol.name.as_str(),
            out,
        );
    }
    emit_iface_impl(&interface.events, iname, camel_iname.as_str(), bitfields, out);
    assert(out@ =~= old(out)@ + interface_section(*protocol, bitfields@, i as int));
}

/// Writes the server-side API of `protocol`: the file header, the request
/// enum and dispatcher, the enum definitions of every interface, then the
/// code of each interface that the library does not handle itself.
/// `bitfields` names the enums (as `interface.enum`) that are bit sets.
pub fn generate_server_api(protocol: Protocol, bitfields: &Vec<String>, out: &mut Output)
    requires
        protocol_generable(protocol),
    ensures
        final(out)@ == old(out)@ + server_api_pieces(protocol, bitfields@),
{
    out.text(preamble(&protocol));
    emit_request_machinery(&protocol, out);
    let ghost after_head = out@;
    let mut i: usize = 0;
    while i < protocol.interfaces.len()
        invariant
            i <= protocol.interfaces@.len(),
            out@ == after_head + enums_pieces(i as nat),
        decreases protocol.interfaces@.len() - i,
    {
        out.push(Piece::Enums(i));
        assert(out@ =~= after_head + enums_pieces((i + 1) as nat));
        i += 1;
    }
    let ghost after_enums = out@;
    let mut j: usize = 0;
    while j < protocol.interfaces.len()
        invariant
            j <= protocol.interfaces@.len(),
            protocol_generable(protocol),
            out@ == after_enums + interface_sections(protocol, bitfields@, j as int),
        decreases protocol.interfaces@.len() - j,
    {
        emit_interface(&protocol, bitfields, j, out);
        assert(out@ =~= after_enums + interface_sections(protocol, bitfields@, j + 1));
        j += 1;
    }
    assert(out@ =~= old(out)@ + server_api_pieces(protocol, bitfields@));
}

// ---------------------------------------------------------------------------
// Laws of the generated file
// ---------------------------------------------------------------------------

/// The pieces hold none of the per-interface shared sections.
pub open spec fn no_shared_sections(ps: Seq<PieceView>) -> bool {
    forall|k: int|
        0 <= k < ps.len() ==> !(#[trigger] ps[k] is Enums) && !(ps[k] is Opcodes) && !(
        ps[k] is RequestEnums)
}

pub(crate) proof fn lemma_contains_concat(a: Seq<PieceView>, b: Seq<PieceView>, x: PieceView)
    ensures
        (a + b).contains(x) <==> a.contains(x) || b.contains(x),
{
    if (a + b).contains(x) {
        let k = choose|k: int| 0 <= k < (a + b).len() && (a + b)[k] == x;
        if k < a.len() {
            assert(a[k] == x);
        } else {
            assert(b[k - a.len()] == x);
        }
    }
    if a.contains(x) {
        let k = choose|k: int| 0 <= k < a.len() && a[k] == x;
        assert((a + b)[k] == x);
    }
    if b.contains(x) {
        let k = choose|k: int| 0 <= k < b.len() && b[k] == x;
        assert((a + b)[k + a.len()] == x);
    }
}

proof fn lemma_no_shared_concat(a: Seq<PieceView>, b: Seq<PieceView>)
    requires
        no_shared_sections(a),
        no_shared_sections(b),
    ensures
        no_shared_sections(a + b),
{
    assert forall|k: int| 0 <= k < (a + b).len() implies !(#[trigger] (a + b)[k] is Enums) && !((
    a + b)[k] is Opcodes) && !((a + b)[k] is RequestEnums) by {
        if k < a.len() {
            assert((a + b)[k] == a[k]);
        } else {
            assert((a + b)[k] == b[k - a.len()]);
        }
    }
}

proof fn lemma_sig_no_shared(args: Seq<Arg>, iname: Seq<char>, camel_iname: Seq<char>, bitfields: Seq<String>, n: int)
    ensures
        no_shared_sections(sig_pieces(args, iname, camel_iname, bitfields, n)),
    decreases n,
{
    if n > 0 {
        lemma_sig_no_shared(args, iname, camel_iname, bitfields, n - 1);
        reveal(arg_sig_pieces);
        lemma_no_shared_concat(
            sig_pieces(args, iname, camel_iname, bitfields, n - 1),
            arg_sig_pieces(args[n - 1], iname, camel_iname, bitfields),
        );
    }
}

proof fn lemma_events_no_shared(events: Seq<Message>, iname: Seq<char>, camel_iname: Seq<char>, bitfields: Seq<String>, n: int)
    ensures
        no_shared_sections(events_pieces(events, iname, camel_iname, bitfields, n)),
    decreases n,
{
    if n > 0 {
        let e = events[n - 1];
        lemma_events_no_shared(events, iname, camel_iname, bitfields, n - 1);
        lemma_sig_no_shared(e.args@, iname, camel_iname, bitfields, e.args@.len() as int);
        let d = doc_pieces(e.description, "    "@);
        let h = seq![text(event_head_text(e))];
        let sg = sig_pieces(e.args@, iname, camel_iname, bitfields, e.args@.len() as int);
        let b = seq![text(event_body_text(e, iname, bitfields))];
        lemma_no_shared_concat(d, h);
        lemma_no_shared_concat(d + h, sg);
        lemma_no_shared_concat(d + h + sg, b);
        lemma_no_shared_concat(
            events_pieces(events, iname, camel_iname, bitfields, n - 1),
            event_pieces(e, iname, camel_iname, bitfields),
        );
    }
}

pub(crate) proof fn lemma_impl_no_shared(events: Seq<Message>, iname: Seq<char>, camel_iname: Seq<char>, bitfields: Seq<String>)
    ensures
        no_shared_sections(iface_impl_pieces(events, iname, camel_iname, bitfields)),
{
    let h = seq![text("impl "@ + camel_iname + " {\n"@)];
    let ev = events_pieces(events, iname, camel_iname, bitfields, events.len() as int);
    let t = seq![text(impl_tail_text(camel_iname))];
    lemma_events_no_shared(events, iname, camel_iname, bitfields, events.len() as int);
    lemma_no_shared_concat(h, ev);
    lemma_no_shared_concat(h + ev, t);
}

/// Which shared sections the code of interface `j` holds.
proof fn lemma_section_shared(p: Protocol, bitfields: Seq<String>, j: int, x: PieceView)
    requires
        0 <= j < p.interfaces@.len(),
    ensures
        interface_section(p, bitfields, j).contains(x) && x is Enums ==> false,
        interface_section(p, bitfields, j).contains(x) && x is Opcodes ==> x == PieceView::Opcodes(
            j as nat,
        ),
        interface_section(p, bitfields, j).contains(x) && x is RequestEnums ==> x
            == PieceView::RequestEnums(j as nat),
        x == PieceView::Opcodes(j as nat) ==> (interface_section(p, bitfields, j).contains(x)
            <==> !is_builtin_interface(p.interfaces@[j].name@)),
        x == PieceView::RequestEnums(j as nat) ==> (interface_section(p, bitfields, j).contains(x)
            <==> !is_builtin_interface(p.interfaces@[j].name@) && p.interfaces@[j].requests@.len()
            > 0),
{
    let iface = p.interfaces@[j];
    if !is_builtin_interface(iface.name@) {
        let camel = spec_snake_to_camel(iface.name@);
        let a = seq![text("//\n// interface "@ + iface.name@ + "\n//\n\n"@)];
        let st = iface_struct_pieces(camel, iface, p.name@);
        let o = seq![PieceView::Opcodes(j as nat)];
        let r = if iface.requests@.len() > 0 {
            seq![
                PieceView::RequestEnums(j as nat),
                text(message_handlers_text(iface.requests@, iface.name@, camel, p.name@)),
            ]
        } else {
            Seq::empty()
        };
        let im = iface_impl_pieces(iface.events@, iface.name@, camel, bitfields);
        lemma_impl_no_shared(iface.events@, iface.name@, camel, bitfields);
        lemma_no_shared_concat(a, st);
        assert(interface_section(p, bitfields, j) == a + st + o + r + im);
        lemma_contains_concat(a + st + o + r, im, x);
        lemma_contains_concat(a + st + o, r, x);
        lemma_contains_concat(a + st, o, x);
        if (a + st).contains(x) {
            let k = choose|k: int| 0 <= k < (a + st).len() && (a + st)[k] == x;
            assert(!((a + st)[k] is Enums));
        }
        if im.contains(x) {
            let k = choose|k: int| 0 <= k < im.len() && im[k] == x;
            assert(!(im[k] is Enums));
        }
        if x == PieceView::Opcodes(j as nat) {
            assert(o[0] == x);
        }
        if x == PieceView::RequestEnums(j as nat) && iface.requests@.len() > 0 {
            assert(r[0] == x);
        }
    }
}

/// Which shared sections the code of the first `n` interfaces holds.
proof fn lemma_sections_shared(p: Protocol, bitfields: Seq<String>, n: int, x: PieceView)
    requires
        0 <= n <= p.interfaces@.len(),
    ensures
        interface_sections(p, bitfields, n).contains(x) && x is Enums ==> false,
        x is Opcodes ==> (interface_sections(p, bitfields, n).contains(x) <==> (x->Opcodes_0 < n
            && !is_builtin_interface(p.interfaces@[x->Opcodes_0 as int].name@))),
        x is RequestEnums ==> (interface_sections(p, bitfields, n).contains(x) <==> (
        x->RequestEnums_0 < n && !is_builtin_interface(
            p.interfaces@[x->RequestEnums_0 as int].name@,
        ) && p.interfaces@[x->RequestEnums_0 as int].requests@.len() > 0)),
    decreases n,
{
    if n > 0 {
        lemma_sections_shared(p, bitfields, n - 1, x);
        lemma_section_shared(p, bitfields, n - 1, x);
        lemma_contains_concat(
            interface_sections(p, bitfields, n - 1),
            interface_section(p, bitfields, n - 1),
            x,
        );
    }
}

/// Code is generated for neither `wl_display` nor `wl_registry`, which the
/// server library handles itself: no section of the file, and no variant of
/// the request enum.
pub proof fn lemma_builtin_interface_gets_no_code(p: Protocol, bitfields: Seq<String>, i: int)
    requires
        0 <= i < p.interfaces@.len(),
        is_builtin_interface(p.interfaces@[i].name@),
    ensures
        interface_section(p, bitfields, i) == Seq::<PieceView>::empty(),
        request_variant_text(p.interfaces@[i]) == Seq::<char>::empty(),
        !server_api_pieces(p, bitfields).contains(PieceView::Opcodes(i as nat)),
        !server_api_pieces(p, bitfields).contains(PieceView::RequestEnums(i as nat)),
{
    lemma_interface_shared_sections(p, bitfields, i);
}

/// Every interface gets its enum definitions. Opcode constants are generated
/// for every interface that the library does not handle itself, and request
/// decoding for those of them that have requests; no other interface gets
/// either.
pub proof fn lemma_interface_shared_sections(p: Protocol, bitfields: Seq<String>, i: int)
    requires
        0 <= i < p.interfaces@.len(),
    ensures
        server_api_pieces(p, bitfields).contains(PieceView::Enums(i as nat)),
        server_api_pieces(p, bitfields).contains(PieceView::Opcodes(i as nat))
            <==> !is_builtin_interface(p.interfaces@[i].name@),
        server_api_pieces(p, bitfields).contains(PieceView::RequestEnums(i as nat)) <==> (
        !is_builtin_interface(p.interfaces@[i].name@) && p.interfaces@[i].requests@.len() > 0),
{
    let n = p.interfaces@.len() as int;
    let head = seq![text(preamble_text(p)), text(request_machinery_text(p))];
    let en = enums_pieces(n as nat);
    let secs = interface_sections(p, bitfields, n);
    assert(server_api_pieces(p, bitfields) == head + en + secs);
    assert(en[i] == PieceView::Enums(i as nat));
    lemma_contains_concat(head, en, PieceView::Enums(i as nat));
    lemma_contains_concat(head + en, secs, PieceView::Enums(i as nat));
    let o = PieceView::Opcodes(i as nat);
    let r = PieceView::RequestEnums(i as nat);
    lemma_sections_shared(p, bitfields, n, o);
    lemma_sections_shared(p, bitfields, n, r);
    lemma_contains_concat(head + en, secs, o);
    lemma_contains_concat(head + en, secs, r);
    if (head + en).contains(o) {
        let k = choose|k: int| 0 <= k < (head + en).len() && (head + en)[k] == o;
        if k >= 2 {
            assert((head + en)[k] == en[k - 2]);
        }
    }
    if (head + en).contains(r) {
        let k = choose|k: int| 0 <= k < (head + en).len() && (head + en)[k] == r;
        if k >= 2 {
            assert((head + en)[k] == en[k - 2]);
        }
    }
}

} // verus!
