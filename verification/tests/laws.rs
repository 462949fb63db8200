use lib::output::{Output, Piece};
use lib::protocol::{is_builtin_name, is_generable, Arg, Interface, Message, Protocol, Type};
use lib::server_gen::generate_server_api;

fn arg(name: &str, typ: Type) -> Arg {
    Arg { name: name.to_string(), typ, interface: None, allow_null: false, enum_: None }
}

fn msg(name: &str, args: Vec<Arg>) -> Message {
    Message { name: name.to_string(), since: 1, description: None, args }
}

fn iface(name: &str, requests: Vec<Message>, events: Vec<Message>) -> Interface {
    Interface { name: name.to_string(), version: 1, description: None, requests, events }
}

fn protocol(interfaces: Vec<Interface>) -> Protocol {
    Protocol { name: "proto".to_string(), copyright: None, interfaces }
}

fn generate(p: Protocol, bitfields: &[&str]) -> Vec<Piece> {
    let bitfields: Vec<String> = bitfields.iter().map(|s| s.to_string()).collect();
    let mut out = Output::new();
    generate_server_api(p, &bitfields, &mut out);
    out.pieces
}

fn flagged_event() -> Message {
    let mut flags = arg("flags", Type::Uint);
    flags.enum_ = Some("flags".to_string());
    msg("changed", vec![flags])
}

#[test]
fn builtin_contents_do_not_matter() {
    let p1 = protocol(vec![
        iface("wl_display", vec![msg("sync", vec![])], vec![]),
        iface("shell", vec![msg("go", vec![])], vec![]),
    ]);
    let mut display = iface("wl_display", vec![], vec![msg("error", vec![arg("x", Type::Int)])]);
    display.version = 9;
    display.description = Some(("d".to_string(), "e".to_string()));
    let p2 = protocol(vec![display, iface("shell", vec![msg("go", vec![])], vec![])]);
    assert_eq!(generate(p1, &[]), generate(p2, &[]));
}

#[test]
fn request_machinery_depends_only_on_names() {
    let p1 = protocol(vec![iface("a", vec![msg("x", vec![])], vec![]), iface("b", vec![], vec![])]);
    let p2 = protocol(vec![
        iface("a", vec![msg("y", vec![arg("n", Type::Int)])], vec![msg("e", vec![])]),
        iface("b", vec![], vec![msg("f", vec![])]),
    ]);
    assert_eq!(generate(p1, &[])[1], generate(p2, &[])[1]);
}

#[test]
fn bitfield_list_order_and_repeats_do_not_matter() {
    let p = || protocol(vec![iface("a", vec![], vec![flagged_event()])]);
    let one = generate(p(), &["a.flags", "b.other"]);
    let other = generate(p(), &["b.other", "a.flags", "a.flags"]);
    assert_eq!(one, other);
    assert!(one.contains(&Piece::Text(" flags: AFlags::AFlags,".to_string())));
}

#[test]
fn events_concatenate() {
    let e1 = msg("first", vec![arg("x", Type::Int)]);
    let e2 = flagged_event();
    let both = generate(protocol(vec![iface("a", vec![], vec![e1.clone(), e2.clone()])]), &[]);
    let only1 = generate(protocol(vec![iface("a", vec![], vec![e1])]), &[]);
    let only2 = generate(protocol(vec![iface("a", vec![], vec![e2])]), &[]);
    // pieces: preamble, machinery, enums, header, struct, opcodes, "impl", events..., tail
    let events = |ps: &Vec<Piece>| ps[7..ps.len() - 1].to_vec();
    let mut joined = events(&only1);
    joined.extend(events(&only2));
    assert_eq!(events(&both), joined);
    assert_eq!(both[6], Piece::Text("impl A {\n".to_string()));
}

#[test]
fn interface_headers_once_and_in_order() {
    let p = protocol(vec![
        iface("one", vec![], vec![]),
        iface("wl_registry", vec![], vec![]),
        iface("two", vec![], vec![]),
    ]);
    let pieces = generate(p, &[]);
    let header = |n: &str| Piece::Text(format!("//\n// interface {n}\n//\n\n"));
    let pos = |n: &str| pieces.iter().position(|p| *p == header(n));
    assert_eq!(pieces.iter().filter(|p| **p == header("one")).count(), 1);
    assert_eq!(pos("wl_registry"), None);
    assert!(pos("one").unwrap() < pos("two").unwrap());
    assert_eq!(pos("one"), Some(5));
}

#[test]
fn generable_only_looks_at_interfaces_that_get_code() {
    let bad_request = || msg("kill", vec![arg("d", Type::Destructor)]);
    assert!(!is_generable(&protocol(vec![iface("a", vec![bad_request()], vec![])])));
    assert!(is_generable(&protocol(vec![iface("wl_display", vec![bad_request()], vec![])])));
    let unnamed = || msg("made", vec![arg("id", Type::NewId)]);
    assert!(!is_generable(&protocol(vec![iface("a", vec![], vec![unnamed()])])));
    assert!(!is_generable(&protocol(vec![iface("a", vec![unnamed()], vec![])])));
    let mut named = arg("id", Type::NewId);
    named.interface = Some("b".to_string());
    assert!(is_generable(&protocol(vec![iface("a", vec![msg("m", vec![named])], vec![])])));
    assert!(is_generable(&protocol(vec![iface("a", vec![], vec![msg("e", vec![arg("d", Type::Destructor)])])])));
    assert!(is_builtin_name("wl_registry"));
    assert!(!is_builtin_name("wl_registr"));
}

#[test]
fn generation_keeps_what_was_written() {
    let mut out = Output::new();
    out.push(Piece::Opcodes(7));
    generate_server_api(protocol(vec![]), &Vec::new(), &mut out);
    assert_eq!(out.pieces[0], Piece::Opcodes(7));
    assert_eq!(out.pieces.len(), 3);
    match &out.pieces[1] {
        Piece::Text(t) => assert!(t.starts_with(
            "//\n// This file was auto-generated, do not edit directly\n//\n\nuse wayland_sys::common::*;\n"
        )),
        _ => panic!("expected text"),
    }
}

#[test]
fn methods_without_enum_arguments_ignore_bitfields() {
    let p = || protocol(vec![iface("a", vec![], vec![msg("e", vec![arg("x", Type::Uint)])])]);
    assert_eq!(generate(p(), &[]), generate(p(), &["a.x", "a.e"]));
}

#[test]
fn decoding_wired_only_for_interfaces_with_requests() {
    let p = protocol(vec![
        iface("wl_display", vec![msg("sync", vec![])], vec![]),
        iface("with", vec![msg("go", vec![])], vec![]),
        iface("without", vec![], vec![]),
    ]);
    let pieces = generate(p, &[]);
    let has_text = |needle: &str| {
        pieces.iter().any(|p| matches!(p, Piece::Text(t) if t.contains(needle)))
    };
    assert!(has_text("fn with_implem("));
    assert!(has_text("    With(ClientId, ResourceId, WithRequest),\n"));
    assert!(has_text(", with_implem as *const c_void"));
    assert!(!has_text("fn without_implem("));
    assert!(!has_text("Without(ClientId"));
    assert!(!has_text("without_implem as *const c_void"));
    assert!(!has_text("wl_display_implem"));
    assert!(pieces.contains(&Piece::RequestEnums(1)));
    assert!(!pieces.contains(&Piece::RequestEnums(0)));
    assert!(!pieces.contains(&Piece::RequestEnums(2)));
}

#[test]
fn resource_text_ignores_description() {
    let mut described = iface("a", vec![], vec![]);
    described.description = Some(("s".to_string(), "d".to_string()));
    let plain = generate(protocol(vec![iface("a", vec![], vec![])]), &[]);
    let with_doc = generate(protocol(vec![described]), &[]);
    assert_eq!(with_doc[4], Piece::Doc("s".to_string(), "d".to_string(), String::new()));
    assert_eq!(with_doc[5], plain[4]);
    match &plain[4] {
        Piece::Text(t) => {
            assert!(t.starts_with("pub struct A {\n"));
            assert_eq!(t.matches("wl_resource_set_dispatcher").count(), 0);
        }
        _ => panic!("expected text"),
    }
}
