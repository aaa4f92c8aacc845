use vpp_api_gen::strutil::{camelize, camelize_ident, replace_all, str_ends_with, str_eq, str_starts_with, u64_to_dec};

#[test]
fn camelize_ident_splits_on_underscores() {
    assert_eq!(camelize_ident("sw_interface"), "SwInterface");
    assert_eq!(camelize_ident("ip4_address"), "Ip4Address");
    assert_eq!(camelize_ident("a__b"), "AB");
    assert_eq!(camelize_ident(""), "");
}

#[test]
fn both_camel_strategies_agree_on_ascii_underscore_input() {
    for ident in ["sw_interface", "if_status_flags", "control_ping", "a", "abc_def_ghi"] {
        assert_eq!(camelize(ident), camelize_ident(ident));
    }
}

#[test]
fn decimal_rendering() {
    assert_eq!(u64_to_dec(0), "0");
    assert_eq!(u64_to_dec(7), "7");
    assert_eq!(u64_to_dec(64), "64");
    assert_eq!(u64_to_dec(18446744073709551615), "18446744073709551615");
}

#[test]
fn string_predicates() {
    assert!(str_eq("abc", "abc"));
    assert!(!str_eq("abc", "abd"));
    assert!(!str_eq("abc", "abcd"));
    assert!(str_starts_with("vl_api_x", "vl_api_"));
    assert!(!str_starts_with("vl_", "vl_api_"));
    assert!(str_ends_with("x_t", "_t"));
    assert!(!str_ends_with("t", "_t"));
}

#[test]
fn replace_all_substitutes_every_occurrence() {
    assert_eq!(replace_all("name = __PACKAGE__;", "__PACKAGE__", "myapi"), "name = myapi;");
    assert_eq!(replace_all("__P____P__", "__P__", "x"), "xx");
    assert_eq!(replace_all("none here", "__P__", "x"), "none here");
    assert_eq!(replace_all("abc", "", "x"), "abc");
}
