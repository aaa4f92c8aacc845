use vpp_api_gen::mapper::EnumWidthRegistry;
use vpp_api_gen::mapper::{get_ident, get_rust_field_name, get_rust_field_type, get_rust_type_from_ctype, get_type};
use vpp_api_gen::schema::{VppJsApiFieldSize, VppJsApiMessageFieldDef};

fn field(name: &str, ctype: &str, size: Option<VppJsApiFieldSize>) -> VppJsApiMessageFieldDef {
    VppJsApiMessageFieldDef {
        name: name.to_string(),
        ctype: ctype.to_string(),
        maybe_size: size,
        maybe_options: None,
    }
}

#[test]
fn type_identifier_strips_affixes_and_camelizes() {
    assert_eq!(get_type("vl_api_sw_interface_t"), "SwInterface");
    assert_eq!(get_type("vl_api_ip4_address_t"), "Ip4Address");
}

#[test]
fn type_identifier_maps_string_and_passes_primitives() {
    assert_eq!(get_type("string"), "String");
    assert_eq!(get_type("u32"), "u32");
    assert_eq!(get_type("u8"), "u8");
}

#[test]
fn field_identifier_reserved_tokens() {
    assert_eq!(get_ident("type"), "typ");
    assert_eq!(get_ident("match"), "mach");
}

#[test]
fn field_identifier_strips_one_leading_underscore() {
    assert_eq!(get_ident("_foo"), "foo");
    assert_eq!(get_ident("bar"), "bar");
}

#[test]
fn rust_field_name_escapes_reserved_words() {
    assert_eq!(get_rust_field_name("type"), "r#type");
    assert_eq!(get_rust_field_name("match"), "r#match");
    assert_eq!(get_rust_field_name("index"), "index");
}

#[test]
fn string_field_with_variable_size_maps_to_variable_string() {
    let reg = EnumWidthRegistry::new();
    let f = field("name", "string", Some(VppJsApiFieldSize::Variable(None)));
    assert_eq!(get_rust_field_type(&reg, &f, false), "VariableSizeString");
}

#[test]
fn string_field_with_fixed_size_maps_to_fixed_string() {
    let reg = EnumWidthRegistry::new();
    let f = field("name", "string", Some(VppJsApiFieldSize::Fixed(64)));
    assert_eq!(get_rust_field_type(&reg, &f, false), "FixedSizeString<typenum::U64>");
}

#[test]
fn array_fields_map_to_array_containers() {
    let reg = EnumWidthRegistry::new();
    let v = field("addrs", "vl_api_ip4_address_t", Some(VppJsApiFieldSize::Variable(None)));
    assert_eq!(get_rust_field_type(&reg, &v, false), "VariableSizeArray<Ip4Address>");
    let x = field("mac", "u8", Some(VppJsApiFieldSize::Fixed(6)));
    assert_eq!(get_rust_field_type(&reg, &x, false), "FixedSizeArray<u8, typenum::U6>");
}

#[test]
fn registered_enum_maps_to_sized_enum() {
    let mut reg = EnumWidthRegistry::new();
    reg.insert("IfStatusFlags".to_string(), "u32".to_string());
    let f = field("flags", "vl_api_if_status_flags_t", None);
    assert_eq!(get_rust_field_type(&reg, &f, false), "SizedEnum<IfStatusFlags, u32>");
    assert_eq!(
        get_rust_type_from_ctype(&reg, "vl_api_if_status_flags_t"),
        "SizedEnum<IfStatusFlags, u32>"
    );
}

#[test]
fn unregistered_enum_passes_through() {
    let reg = EnumWidthRegistry::new();
    let f = field("flags", "vl_api_if_status_flags_t", None);
    assert_eq!(get_rust_field_type(&reg, &f, false), "IfStatusFlags");
}

#[test]
fn registry_replaces_value_in_place() {
    let mut reg = EnumWidthRegistry::new();
    reg.insert("A".to_string(), "u8".to_string());
    reg.insert("B".to_string(), "u16".to_string());
    reg.insert("A".to_string(), "u32".to_string());
    assert_eq!(reg.get("A"), Some("u32".to_string()));
    assert_eq!(reg.get("B"), Some("u16".to_string()));
    assert_eq!(reg.get("C"), None);
    assert!(reg.contains("A"));
    assert!(!reg.contains("C"));
}

#[test]
fn options_never_change_the_type() {
    let reg = EnumWidthRegistry::new();
    let mut f = field("mtu", "u32", None);
    f.maybe_options = Some(vec![("default".to_string(), "1500".to_string())]);
    assert_eq!(get_rust_field_type(&reg, &f, false), "u32");
}

#[test]
fn sizeless_string_field_resolves_to_generic_text_type() {
    let reg = EnumWidthRegistry::new();
    let f = field("name", "string", None);
    assert_eq!(get_rust_field_type(&reg, &f, false), "String");
    assert_eq!(get_rust_type_from_ctype(&reg, "string"), "String");
}
