use lib::names::{
    ascii_upper, contains_string, decimal, dotted_snake_to_camel, enum_parts, find_char, has_dot,
    push_decimal, snake_to_camel, snake_to_screaming, str_eq,
};

#[test]
fn snake_to_camel_capitalizes_each_word() {
    assert_eq!(snake_to_camel("wl_shm_pool"), "WlShmPool");
    assert_eq!(snake_to_camel("wl_surface"), "WlSurface");
    assert_eq!(snake_to_camel("destroy"), "Destroy");
}

#[test]
fn snake_to_camel_edge_cases() {
    assert_eq!(snake_to_camel(""), "");
    assert_eq!(snake_to_camel("_"), "");
    assert_eq!(snake_to_camel("a__b"), "AB");
    assert_eq!(snake_to_camel("_leading"), "Leading");
    assert_eq!(snake_to_camel("trailing_"), "Trailing");
    assert_eq!(snake_to_camel("set_x11_mode"), "SetX11Mode");
    assert_eq!(snake_to_camel("wl_shm.format"), "WlShm.format");
}

#[test]
fn snake_to_camel_is_idempotent() {
    let once = snake_to_camel("zwp_linux_dmabuf_v1");
    assert_eq!(once, "ZwpLinuxDmabufV1");
    assert_eq!(snake_to_camel(&once), once);
}

#[test]
fn dotted_snake_to_camel_joins_interface_and_enum() {
    assert_eq!(dotted_snake_to_camel("wl_shm.format"), "WlShmFormat");
    assert_eq!(dotted_snake_to_camel("wl_output.transform"), "WlOutputTransform");
    assert_eq!(dotted_snake_to_camel("a.b.c"), "ABC");
    assert_eq!(dotted_snake_to_camel("plain_name"), snake_to_camel("plain_name"));
}

#[test]
fn snake_to_screaming_upper_cases() {
    assert_eq!(snake_to_screaming("wl_surface"), "WL_SURFACE");
    assert_eq!(snake_to_screaming("set_x11"), "SET_X11");
    assert_eq!(snake_to_screaming("WL_SURFACE"), "WL_SURFACE");
    assert_eq!(snake_to_screaming(""), "");
}

#[test]
fn ascii_upper_only_touches_lower_case_letters() {
    assert_eq!(ascii_upper('a'), 'A');
    assert_eq!(ascii_upper('z'), 'Z');
    assert_eq!(ascii_upper('A'), 'A');
    assert_eq!(ascii_upper('_'), '_');
    assert_eq!(ascii_upper('7'), '7');
    assert_eq!(ascii_upper('é'), 'é');
}

#[test]
fn decimal_writes_digits() {
    assert_eq!(decimal(0), "0");
    assert_eq!(decimal(7), "7");
    assert_eq!(decimal(10), "10");
    assert_eq!(decimal(4096), "4096");
    assert_eq!(decimal(u64::MAX), "18446744073709551615");
    let mut s = String::from("v");
    push_decimal(&mut s, 42);
    assert_eq!(s, "v42");
}

#[test]
fn str_eq_compares_characters() {
    assert!(str_eq("wl_display", "wl_display"));
    assert!(!str_eq("wl_display", "wl_displa"));
    assert!(!str_eq("abc", "abd"));
    assert!(str_eq("", ""));
}

#[test]
fn find_char_and_has_dot() {
    assert_eq!(find_char("wl_shm.format", '.'), 6);
    assert_eq!(find_char("format", '.'), 6);
    assert_eq!(find_char("", '.'), 0);
    assert!(has_dot("wl_shm.format"));
    assert!(!has_dot("format"));
}

#[test]
fn enum_parts_splits_at_dots() {
    assert_eq!(
        enum_parts("wl_shm.format"),
        Some((String::from("wl_shm"), String::from("format")))
    );
    assert_eq!(enum_parts("a.b.c"), Some((String::from("a"), String::from("b"))));
    assert_eq!(enum_parts("a."), Some((String::from("a"), String::new())));
    assert_eq!(enum_parts(".b"), Some((String::new(), String::from("b"))));
    assert_eq!(enum_parts("format"), None);
}

#[test]
fn contains_string_looks_for_equal_strings() {
    let v = vec![String::from("wl_output.transform"), String::from("wl_seat.capability")];
    assert!(contains_string(&v, "wl_seat.capability"));
    assert!(!contains_string(&v, "wl_seat"));
    assert!(!contains_string(&Vec::new(), "x"));
}

#[test]
fn dotted_snake_to_camel_is_idempotent() {
    let once = dotted_snake_to_camel("wl_shm.format_v2");
    assert_eq!(once, "WlShmFormatV2");
    assert_eq!(dotted_snake_to_camel(&once), once);
}
