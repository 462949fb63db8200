use lib::output::{Output, Piece};
use lib::protocol::{Arg, Interface, Message, Protocol, Type};
use lib::server_gen::generate_server_api;

fn arg(name: &str, typ: Type) -> Arg {
    Arg { name: name.to_string(), typ, interface: None, allow_null: false, enum_: None }
}

fn msg(name: &str, since: u16, args: Vec<Arg>) -> Message {
    Message { name: name.to_string(), since, description: None, args }
}

fn iface(name: &str, version: u32, requests: Vec<Message>, events: Vec<Message>) -> Interface {
    Interface { name: name.to_string(), version, description: None, requests, events }
}

fn text(s: &str) -> Piece {
    Piece::Text(s.to_string())
}

fn generate(p: Protocol, bitfields: &[&str]) -> Vec<Piece> {
    let bitfields: Vec<String> = bitfields.iter().map(|s| s.to_string()).collect();
    let mut out = Output::new();
    generate_server_api(p, &bitfields, &mut out);
    out.pieces
}

fn preamble_imports() -> String {
    [
        "use wayland_sys::common::*;\n",
        "use wayland_sys::server::*;\n",
        "use {Resource, ResourceId, wrap_resource};\n",
        "use client::{ClientId, wrap_client};\n",
        "use requests::{RequestIterator, RequestFifo, get_requestiter_internals};\n",
        "use super::interfaces::*;\n",
        "\n",
        "use std::ffi::{CString, CStr};\n",
        "use std::ptr;\n",
        "use std::sync::Arc;\n",
        "use std::sync::atomic::{AtomicBool, Ordering};\n",
        "use std::os::raw::{c_void, c_char};\n",
    ].concat()
}

fn fill(template: &str, values: &[(&str, &str)]) -> String {
    let mut s = template.to_string();
    for (key, value) in values {
        s = s.replace(key, value);
    }
    s
}

fn machinery(pname: &str, camel: &str, variants: &str) -> String {
    fill(&        [
        "/// A request generated by the protocol {pname}.\n",
        "///\n",
        "/// Each variant is composed of a `ClientId` reffering to the client object,\n",
        "/// a `ResourceId` reffering to the resource object and the event data itself.\n",
        "#[derive(Debug)]\n",
        "pub enum {camel}ProtocolRequest {\n",
        "{variants}}\n",
        "\n",
        "type {pname}_dispatcher_implem = fn(*mut wl_resource, u32, *const wl_argument) -> Option<{camel}ProtocolRequest>;\n",
        "\n",
        "extern \"C\" fn event_dispatcher(implem: *const c_void, resource: *mut c_void, opcode: u32, _: *const wl_message, args: *const wl_argument) {\n",
        "    let userdata = unsafe { ffi_dispatch!(WAYLAND_SERVER_HANDLE, wl_resource_get_user_data, resource as *mut wl_resource) } as *const (RequestFifo, AtomicBool);\n",
        "    if userdata.is_null() { return; }\n",
        "    let fifo: &(RequestFifo, AtomicBool) = unsafe { &*userdata };\n",
        "    if !fifo.1.load(Ordering::SeqCst) { return; }\n",
        "    let implem = unsafe { ::std::mem::transmute::<_, {pname}_dispatcher_implem>(implem) };\n",
        "    let request = implem(resource as *mut wl_resource, opcode, args);\n",
        "    if let Some(req) = request {\n",
        "        fifo.0.push(::Request::{camel}(req));\n",
        "    }\n",
        "}\n",
    ].concat(), &[("{pname}", pname), ("{camel}", camel), ("{variants}", variants)])
}

fn resource_struct(camel: &str, iname: &str, version: u32, pname: &str, has_requests: bool) -> String {
    let dispatcher = if has_requests {
        format!("        ffi_dispatch!(WAYLAND_SERVER_HANDLE, wl_resource_set_dispatcher, ptr, event_dispatcher, {iname}_implem as *const c_void, ptr::null_mut(), ::std::mem::transmute::<*const u8, wl_resource_destroy_func_t>(ptr::null()));\n")
    } else {
        String::new()
    };
    fill(&        [
        "pub struct {camel} {\n    ptr: *mut wl_resource,\n    client: *mut wl_client,\n",
        "    evq: Arc<(RequestFifo,AtomicBool)>\n}\n\n",
        "unsafe impl Sync for {camel} {}\n",
        "unsafe impl Send for {camel} {}\n",
        "impl Resource for {camel} {\n",
        "    fn ptr(&self) -> *mut wl_resource { self.ptr }\n",
        "    fn interface() -> *mut wl_interface { unsafe { &mut {iname}_interface  as *mut wl_interface } }\n",
        "    fn interface_name() -> &'static str { \"{iname}\" }\n",
        "    fn max_version() -> u32 { {version} }\n",
        "    fn bound_version(&self) -> u32 { let v = unsafe { ffi_dispatch!(WAYLAND_SERVER_HANDLE, wl_resource_get_version, self.ptr) }; v as u32 }\n",
        "    fn id(&self) -> ResourceId { ResourceId { id: self.ptr as usize } }\n",
        "    fn client_id(&self) -> ClientId { wrap_client(self.client) }\n",
        "    unsafe fn from_ptr(ptr: *mut wl_resource) -> {camel} {\n",
        "{dispatcher}",
        "        let client = ffi_dispatch!(WAYLAND_SERVER_HANDLE, wl_resource_get_client, ptr);\n",
        "        {camel} { ptr: ptr, client: client, evq: Arc::new((RequestFifo::new(), AtomicBool::new(false))) }\n",
        "    }\n",
        "    unsafe fn from_ptr_no_own(ptr: *mut wl_resource) -> {camel} {\n",
        "        let client = ffi_dispatch!(WAYLAND_SERVER_HANDLE, wl_resource_get_client, ptr);\n",
        "        {camel} { ptr: ptr, client: client, evq: Arc::new((RequestFifo::new(), AtomicBool::new(false))) }\n",
        "    }\n",
        "    fn set_req_iterator(&mut self, req: &RequestIterator) {\n",
        "        self.evq = get_requestiter_internals(req);\n",
        "        let ptr = &*self.evq as *const (RequestFifo,AtomicBool);\n",
        "        unsafe { ffi_dispatch!(WAYLAND_SERVER_HANDLE, wl_resource_set_user_data, self.ptr, ptr as *const c_void as *mut c_void) };\n",
        "    }\n",
        "}\n\n",
        "impl ::std::fmt::Debug for {camel} {\n",
        "    fn fmt(&self, fmt: &mut ::std::fmt::Formatter) -> Result<(), ::std::fmt::Error> {\n",
        "        fmt.write_fmt(format_args!(\"{pname}::{iname}::{:p}@{:p}\", self.ptr, self.client))\n",
        "    }\n",
        "}\n\n",
    ].concat(), &[("{camel}", camel), ("{iname}", iname), ("{version}", &version.to_string()), ("{pname}", pname), ("{dispatcher}", &dispatcher)])
}

fn impl_tail(camel: &str) -> String {
    format!(
        "}}\n\nimpl Drop for {camel} {{\n    fn drop(&mut self) {{\n        unsafe {{ ffi_dispatch!(WAYLAND_SERVER_HANDLE, wl_resource_destroy, self.ptr()) }}\n    }}\n}}\n"
    )
}

fn sample_protocol() -> Protocol {
    let mut id = arg("id", Type::NewId);
    id.interface = Some("test_child".to_string());
    let mut mode = arg("mode", Type::Uint);
    mode.enum_ = Some("mode".to_string());
    let mut kind = arg("kind", Type::Int);
    kind.enum_ = Some("other_iface.kind".to_string());
    let do_it = msg(
        "do_it",
        1,
        vec![arg("a", Type::Uint), id, arg("s", Type::String), mode, kind],
    );
    let destroy = msg("destroy", 1, vec![]);

    let mut name = arg("name", Type::String);
    name.allow_null = true;
    let mut obj = arg("obj", Type::Object);
    obj.interface = Some("test_child".to_string());
    let mut flags = arg("flags", Type::Uint);
    flags.enum_ = Some("flags".to_string());
    let mut done = msg(
        "done",
        2,
        vec![
            arg("serial", Type::Uint),
            name,
            obj,
            flags,
            arg("data", Type::Array),
            arg("fd", Type::Fd),
            arg("f", Type::Fixed),
        ],
    );
    done.description = Some(("summary".to_string(), "long text".to_string()));

    let mut test_iface = iface("test_iface", 3, vec![do_it, destroy], vec![done]);
    test_iface.description = Some(("an interface".to_string(), "described".to_string()));

    Protocol {
        name: "test_proto".to_string(),
        copyright: Some("Copyright text".to_string()),
        interfaces: vec![
            iface("wl_display", 1, vec![msg("sync", 1, vec![])], vec![]),
            iface("wl_registry", 1, vec![msg("bind", 1, vec![])], vec![]),
            test_iface,
            iface("test_child", 1, vec![], vec![]),
        ],
    }
}

fn handlers() -> String {
    [
        "fn test_iface_implem(resource: *mut wl_resource, opcode: u32, args: *const wl_argument) -> Option<TestProtoProtocolRequest> {\n",
        "    let event = match opcode {\n",
        "        0 => {\n",
        "            let arg_0 = unsafe {*(args.offset(0) as *const u32)};\n",
        "            let arg_1 = unsafe {{let id = *(args.offset(1) as *const u32);let client = ffi_dispatch!(WAYLAND_SERVER_HANDLE, wl_resource_get_client, resource);let version = ffi_dispatch!(WAYLAND_SERVER_HANDLE, wl_resource_get_version, resource);let ptr = ffi_dispatch!(WAYLAND_SERVER_HANDLE, wl_resource_create, client, &test_child_interface, version, id);let udata = ffi_dispatch!(WAYLAND_SERVER_HANDLE, wl_resource_get_user_data, resource);let obj = TestChild::from_ptr(ptr);ffi_dispatch!(WAYLAND_SERVER_HANDLE, wl_resource_set_user_data, obj.ptr(), udata);obj }};\n",
        "            let arg_2 = unsafe {String::from_utf8_lossy(CStr::from_ptr(*(args.offset(2) as *const *mut c_char)).to_bytes()).into_owned()};\n",
        "            let arg_3 = unsafe {*(args.offset(3) as *const u32)};\n",
        "            let arg_3 = match test_iface_mode_from_raw(arg_3 as u32) { Some(a) => a, None => return None };\n",
        "            let arg_4 = unsafe {*(args.offset(4) as *const i32)};\n",
        "            let arg_4 = match other_iface_kind_from_raw(arg_4 as u32) { Some(a) => a, None => return None };\n",
        "            Some(TestIfaceRequest::DoIt(arg_0,arg_1,arg_2,arg_3,arg_4,))\n",
        "        },\n",
        "        1 => {\n",
        "            Some(TestIfaceRequest::Destroy)\n",
        "        },\n",
        "        _ => None\n",
        "    };\n",
        "    let client = unsafe { ffi_dispatch!(WAYLAND_SERVER_HANDLE, wl_resource_get_client, resource) };\n",
        "    event.map(|event| TestProtoProtocolRequest::TestIface(wrap_client(client), wrap_resource(resource), event))\n",
        "}\n\n",
    ].concat()
}

fn done_body() -> String {
    [
        ") {\n",
        "        let name = name.map(|t| CString::new(t).unwrap_or_else(|_| panic!(\"Got a String with interior null.\")));\n",
        "        let f = wl_fixed_from_double(f);\n",
        "let data = wl_array { size: data.len(), alloc: data.capacity(), data: data.as_ptr() as *mut _ };        unsafe { ffi_dispatch!(WAYLAND_SERVER_HANDLE, wl_resource_post_event, self.ptr(), TEST_IFACE_DONE\n           , serial, name.map(|s| s.as_ptr()).unwrap_or(ptr::null()), obj.ptr(), flags.bits() as u32, &data as *const wl_array, fd, f) };\n    }\n",
    ].concat()
}

#[test]
fn sample_protocol_pieces() {
    let pieces = generate(sample_protocol(), &["test_iface.flags"]);
    let expected = vec![
        text(&format!(
            "//\n// This file was auto-generated, do not edit directly\n//\n\n/*\nCopyright text\n*/\n\n{}",
            &preamble_imports()
        )),
        text(&machinery(
            "test_proto",
            "TestProto",
            "    TestIface(ClientId, ResourceId, TestIfaceRequest),\n",
        )),
        Piece::Enums(0),
        Piece::Enums(1),
        Piece::Enums(2),
        Piece::Enums(3),
        text("//\n// interface test_iface\n//\n\n"),
        Piece::Doc("an interface".to_string(), "described".to_string(), String::new()),
        text(&resource_struct("TestIface", "test_iface", 3, "test_proto", true)),
        Piece::Opcodes(2),
        Piece::RequestEnums(2),
        text(&handlers()),
        text("impl TestIface {\n"),
        Piece::Doc("summary".to_string(), "long text".to_string(), "    ".to_string()),
        text("    ///\n    /// Requires interface version `>= 2`.\n    pub  fn send_done(&self,"),
        text(" serial: "),
        Piece::RustType(Type::Uint),
        text(","),
        text(" name: Option<"),
        Piece::RustType(Type::String),
        text(">,"),
        text(" obj: &TestChild,"),
        text(" flags: TestIfaceFlags::TestIfaceFlags,"),
        text(" data: "),
        Piece::RustType(Type::Array),
        text(","),
        text(" fd: "),
        Piece::RustType(Type::Fd),
        text(","),
        text(" f: "),
        Piece::RustType(Type::Fixed),
        text(","),
        text(&done_body()),
        text(&impl_tail("TestIface")),
        text("//\n// interface test_child\n//\n\n"),
        text(&resource_struct("TestChild", "test_child", 1, "test_proto", false)),
        Piece::Opcodes(3),
        text("impl TestChild {\n"),
        text(&impl_tail("TestChild")),
    ];
    assert_eq!(pieces.len(), expected.len());
    for (got, want) in pieces.iter().zip(expected.iter()) {
        assert_eq!(got, want);
    }
}

#[test]
fn builtin_interfaces_get_no_code() {
    let p = Protocol {
        name: "wayland".to_string(),
        copyright: None,
        interfaces: vec![
            iface("wl_display", 1, vec![msg("sync", 1, vec![])], vec![msg("error", 1, vec![])]),
            iface("wl_registry", 1, vec![msg("bind", 1, vec![])], vec![]),
        ],
    };
    let pieces = generate(p, &[]);
    assert_eq!(
        pieces,
        vec![
            text(&format!(
                "//\n// This file was auto-generated, do not edit directly\n//\n\n{}",
                &preamble_imports()
            )),
            text(&machinery("wayland", "Wayland", "")),
            Piece::Enums(0),
            Piece::Enums(1),
        ]
    );
}

#[test]
fn empty_protocol() {
    let p = Protocol { name: "empty".to_string(), copyright: None, interfaces: vec![] };
    let pieces = generate(p, &[]);
    assert_eq!(pieces.len(), 2);
    assert_eq!(pieces[1], text(&machinery("empty", "Empty", "")));
}

#[test]
fn generation_appends_to_what_was_written() {
    let mut out = Output::new();
    out.text("// before\n".to_string());
    let p = Protocol { name: "empty".to_string(), copyright: None, interfaces: vec![] };
    generate_server_api(p, &Vec::new(), &mut out);
    assert_eq!(out.pieces.len(), 3);
    assert_eq!(out.pieces[0], text("// before\n"));
}

#[test]
fn event_argument_forms() {
    let mut opt_obj = arg("target", Type::Object);
    opt_obj.allow_null = true;
    let untyped_obj = arg("any", Type::Object);
    let mut new = arg("child", Type::NewId);
    new.interface = Some("wl_callback".to_string());
    let mut dotted_bits = arg("transform", Type::Int);
    dotted_bits.enum_ = Some("wl_output.transform".to_string());
    let mut dotted_plain = arg("format", Type::Uint);
    dotted_plain.enum_ = Some("wl_shm.format".to_string());
    let mut local_plain = arg("mode", Type::Uint);
    local_plain.enum_ = Some("mode".to_string());
    let mut opt_uint = arg("count", Type::Uint);
    opt_uint.allow_null = true;
    let mut opt_array = arg("keys", Type::Array);
    opt_array.allow_null = true;
    let s = arg("title", Type::String);
    let ev = msg(
        "configure",
        1,
        vec![opt_obj, untyped_obj, new, dotted_bits, dotted_plain, local_plain, opt_uint, opt_array, s],
    );
    let p = Protocol {
        name: "shell".to_string(),
        copyright: None,
        interfaces: vec![iface("my_shell", 2, vec![], vec![ev])],
    };
    let pieces = generate(p, &["wl_output.transform"]);
    let body = [
        ") {\n",
        "        let title = CString::new(title).unwrap_or_else(|_| panic!(\"Got a String with interior null.\"));\n",
        "let keys = keys.as_mut().map(|v| wl_array { size: v.len(), alloc: v.capacity(), data: v.as_ptr() as *mut _ });        unsafe { ffi_dispatch!(WAYLAND_SERVER_HANDLE, wl_resource_post_event, self.ptr(), MY_SHELL_CONFIGURE\n           ",
        ", target.map(Resource::ptr).unwrap_or(ptr::null_mut()), any.ptr(), child.ptr(), transform.bits() as i32, format as u32, mode as u32, count.unwrap_or(0), keys.map(|a| &a as *const wl_array).unwrap_or(ptr::null_mut()), title.as_ptr()) };\n    }\n",
    ].concat();
    let expected_tail = vec![
        text("impl MyShell {\n"),
        text("    pub  fn send_configure(&self,"),
        text(" target: Option<*mut ()>,"),
        text(" any: *mut (),"),
        text(" child: &WlCallback,"),
        text(" transform: WlOutputTransform::WlOutputTransform,"),
        text(" format: WlShmFormat,"),
        text(" mode: MyShellMode,"),
        text(" count: Option<"),
        Piece::RustType(Type::Uint),
        text(">,"),
        text(" keys: Option<"),
        Piece::RustType(Type::Array),
        text(">,"),
        text(" title: "),
        Piece::RustType(Type::String),
        text(","),
        text(&body),
        text(&impl_tail("MyShell")),
    ];
    let n = pieces.len();
    assert_eq!(&pieces[n - expected_tail.len()..], &expected_tail[..]);
    assert_eq!(pieces[n - expected_tail.len() - 1], Piece::Opcodes(0));
}

#[test]
fn request_without_arguments_and_unknown_object_type() {
    let mut obj = arg("surface", Type::Object);
    obj.interface = None;
    let mut fd = arg("fd", Type::Fd);
    fd.allow_null = false;
    let mut arr = arg("bytes", Type::Array);
    arr.allow_null = false;
    let req = msg("attach", 1, vec![obj, fd, arr, arg("x", Type::Fixed)]);
    let p = Protocol {
        name: "p".to_string(),
        copyright: None,
        interfaces: vec![iface("i", 1, vec![req], vec![])],
    };
    let pieces = generate(p, &[]);
    let handler = [
        "fn i_implem(resource: *mut wl_resource, opcode: u32, args: *const wl_argument) -> Option<PProtocolRequest> {\n",
        "    let event = match opcode {\n",
        "        0 => {\n",
        "            let arg_0 = unsafe {wrap_resource(*(args.offset(0) as *const *mut wl_resource))};\n",
        "            let arg_1 = unsafe {*(args.offset(1) as *const i32)};\n",
        "            let arg_2 = unsafe {{ let array = *(args.offset(2) as *const *mut wl_array); ::std::slice::from_raw_parts((*array).data as *const u8, (*array).size as usize).to_owned() }};\n",
        "            let arg_3 = unsafe {wl_fixed_to_double(*(args.offset(3) as *const i32))};\n",
        "            Some(IRequest::Attach(arg_0,arg_1,arg_2,arg_3,))\n",
        "        },\n",
        "        _ => None\n",
        "    };\n",
        "    let client = unsafe { ffi_dispatch!(WAYLAND_SERVER_HANDLE, wl_resource_get_client, resource) };\n",
        "    event.map(|event| PProtocolRequest::I(wrap_client(client), wrap_resource(resource), event))\n",
        "}\n\n",
    ].concat();
    assert!(pieces.contains(&text(&handler)));
    assert!(pieces.contains(&Piece::RequestEnums(0)));
    assert_eq!(pieces[1], text(&machinery("p", "P", "    I(ClientId, ResourceId, IRequest),\n")));
}

#[test]
fn large_opcode_and_argument_numbers() {
    let args: Vec<Arg> = (0..12).map(|k| arg(&format!("a{k}"), Type::Uint)).collect();
    let mut reqs: Vec<Message> = (0..10).map(|k| msg(&format!("r{k}"), 1, vec![])).collect();
    reqs.push(msg("big", 1, args));
    let p = Protocol {
        name: "p".to_string(),
        copyright: None,
        interfaces: vec![iface("i", 12345, reqs, vec![])],
    };
    let pieces = generate(p, &[]);
    let handler = pieces
        .iter()
        .find_map(|p| match p {
            Piece::Text(t) if t.starts_with("fn i_implem") => Some(t.clone()),
            _ => None,
        })
        .unwrap();
    assert!(handler.contains("        10 => {\n            let arg_0 = unsafe {*(args.offset(0) as *const u32)};\n"));
    assert!(handler.contains("            let arg_11 = unsafe {*(args.offset(11) as *const u32)};\n"));
    assert!(handler.contains("Some(IRequest::Big(arg_0,arg_1,arg_2,arg_3,arg_4,arg_5,arg_6,arg_7,arg_8,arg_9,arg_10,arg_11,))\n"));
    assert!(handler.contains("        9 => {\n            Some(IRequest::R9)\n        },\n"));
    assert!(pieces.contains(&text(&resource_struct("I", "i", 12345, "p", true))));
}
