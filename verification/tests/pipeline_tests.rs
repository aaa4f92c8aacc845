use vpp_api_gen::assembler::{build_enum_registry, plan_binding, plan_package};
use vpp_api_gen::emitter::{emit_file_text, emit_file_unit, message_identifiers, module_name_of_path};
use vpp_api_gen::loader::build_file_map;
use vpp_api_gen::mapper::get_type;
use vpp_api_gen::schema::{
    VppJsApiAlias, VppJsApiEnum, VppJsApiEnumMember, VppJsApiFile, VppJsApiMessage,
    VppJsApiMessageFieldDef, VppJsApiUnion, VppJsApiUnionMember,
};
use vpp_api_gen::util::{merge_sort, order_type_files, ImportsFiles};

fn empty_file() -> VppJsApiFile {
    VppJsApiFile {
        vl_api_version: "1.0.0".to_string(),
        types: vec![],
        enums: vec![],
        unions: vec![],
        aliases: vec![],
        messages: vec![],
        services: vec![],
        imports: vec![],
    }
}

fn file_with_imports(imports: &[&str]) -> VppJsApiFile {
    let mut f = empty_file();
    f.imports = imports.iter().map(|s| s.to_string()).collect();
    f
}

fn entry(name: &str, imports: &[&str]) -> ImportsFiles {
    ImportsFiles {
        name: name.to_string(),
        file: Box::new(file_with_imports(imports)),
    }
}

#[test]
fn loader_skips_malformed_files() {
    let outcomes = vec![
        ("a.api.json".to_string(), Some(empty_file())),
        ("broken.api.json".to_string(), None),
        ("b.api.json".to_string(), Some(empty_file())),
    ];
    let (map, failed) = build_file_map(outcomes);
    assert_eq!(map.len(), 2);
    assert_eq!(failed, vec!["broken.api.json".to_string()]);
    assert!(map.get("a.api.json").is_some());
    assert!(map.get("broken.api.json").is_none());
}

#[test]
fn loader_preserves_first_seen_order() {
    let outcomes = vec![
        ("z.api.json".to_string(), Some(empty_file())),
        ("a.api.json".to_string(), Some(empty_file())),
    ];
    let (map, failed) = build_file_map(outcomes);
    assert!(failed.is_empty());
    assert_eq!(map.key_at(0), "z.api.json");
    assert_eq!(map.key_at(1), "a.api.json");
}

#[test]
fn resolver_orders_by_import_count() {
    let files = vec![
        entry("c_types.api.json", &["a", "b"]),
        entry("a_types.api.json", &[]),
        entry("b_types.api.json", &["a"]),
    ];
    let ordered = order_type_files(files);
    assert_eq!(ordered[0].name, "a_types.api.json");
    assert_eq!(ordered[1].name, "b_types.api.json");
    assert_eq!(ordered[2].name, "c_types.api.json");
}

#[test]
fn resolver_keeps_left_entry_first_on_ties() {
    let files = vec![
        entry("x_types.api.json", &["a"]),
        entry("y_types.api.json", &["b"]),
    ];
    let ordered = order_type_files(files);
    assert_eq!(ordered[0].name, "x_types.api.json");
    assert_eq!(ordered[1].name, "y_types.api.json");
}

#[test]
fn resolver_is_idempotent() {
    let files = vec![
        entry("c_types.api.json", &["a", "b"]),
        entry("a_types.api.json", &[]),
        entry("b_types.api.json", &["a"]),
        entry("d_types.api.json", &[]),
    ];
    let once = order_type_files(files);
    let names_once: Vec<String> = once.iter().map(|x| x.name.clone()).collect();
    let twice = order_type_files(once);
    let names_twice: Vec<String> = twice.iter().map(|x| x.name.clone()).collect();
    assert_eq!(names_once, names_twice);
}

#[test]
fn merge_sort_leaves_outside_untouched() {
    let files = vec![
        entry("a", &["x", "y"]),
        entry("b", &["x"]),
        entry("c", &[]),
    ];
    let sorted = merge_sort(files, 1, 3);
    assert_eq!(sorted[0].name, "a");
    assert_eq!(sorted[1].name, "c");
    assert_eq!(sorted[2].name, "b");
}

fn message(name: &str, crc: &str, fields: Vec<VppJsApiMessageFieldDef>) -> VppJsApiMessage {
    VppJsApiMessage {
        name: name.to_string(),
        crc: crc.to_string(),
        fields,
    }
}

fn u32_field(name: &str) -> VppJsApiMessageFieldDef {
    VppJsApiMessageFieldDef {
        name: name.to_string(),
        ctype: "u32".to_string(),
        maybe_size: None,
        maybe_options: None,
    }
}

#[test]
fn emission_is_byte_identical_across_runs() {
    let mut f = empty_file();
    f.messages.push(message(
        "sw_interface_set_flags",
        "0xf5aec1b8",
        vec![u32_field("client_index"), u32_field("context"), u32_field("sw_if_index")],
    ));
    let map_input = vec![("interface.api.json".to_string(), Some(f))];
    let (map, _) = build_file_map(map_input);
    let reg = build_enum_registry(&map);
    let one = emit_file_text(&reg, "interface.api.json", map.get("interface.api.json").unwrap());
    let two = emit_file_text(&reg, "interface.api.json", map.get("interface.api.json").unwrap());
    assert_eq!(one, two);
    assert_eq!(one.as_bytes(), two.as_bytes());
}

#[test]
fn emitted_message_carries_identifier_and_setters() {
    let reg = vpp_api_gen::mapper::EnumWidthRegistry::new();
    let mut f = empty_file();
    f.messages.push(message(
        "control_ping",
        "0x51077d14",
        vec![u32_field("client_index"), u32_field("context")],
    ));
    let text = emit_file_text(&reg, "ping.api.json", &f);
    assert!(text.contains("pub struct ControlPing {"));
    assert!(text.contains("String::from(\"control_ping_51077d14\")"));
    assert!(text.contains("self.context = context;"));
    assert!(text.contains("self.client_index = client_index;"));
}

#[test]
fn emitted_setters_are_no_ops_without_their_fields() {
    let reg = vpp_api_gen::mapper::EnumWidthRegistry::new();
    let mut f = empty_file();
    f.messages.push(message("plain_reply", "0x01020304", vec![u32_field("retval")]));
    let text = emit_file_text(&reg, "x.api.json", &f);
    assert!(!text.contains("self.context = context;"));
    assert!(!text.contains("self.client_index = client_index;"));
}

#[test]
fn sized_enum_mapping_ignores_declaration_order() {
    // The enum lives in file B, the message referencing it in file A,
    // loaded first; the full pre-pass still finds the width.
    let mut a = empty_file();
    a.messages.push(message(
        "set_flags",
        "0x0a0b0c0d",
        vec![VppJsApiMessageFieldDef {
            name: "flags".to_string(),
            ctype: "vl_api_if_status_flags_t".to_string(),
            maybe_size: None,
            maybe_options: None,
        }],
    ));
    let mut b = empty_file();
    b.enums.push(VppJsApiEnum {
        name: "if_status_flags".to_string(),
        members: vec![VppJsApiEnumMember { name: "IF_STATUS_API_FLAG_ADMIN_UP".to_string(), value: 1 }],
        enumtype: "u32".to_string(),
    });
    let (map, _) = build_file_map(vec![
        ("a.api.json".to_string(), Some(a)),
        ("b_types.api.json".to_string(), Some(b)),
    ]);
    let reg = build_enum_registry(&map);
    let text = emit_file_text(&reg, "a.api.json", map.get("a.api.json").unwrap());
    assert!(text.contains("pub flags: SizedEnum<IfStatusFlags, u32>,"));
}

#[test]
fn binding_plan_orders_types_by_imports_then_rest() {
    let a = empty_file();
    let mut b = empty_file();
    b.imports = vec!["a_types".to_string()];
    let rest = empty_file();
    let (map, _) = build_file_map(vec![
        ("b_types.api.json".to_string(), Some(b)),
        ("iface.api.json".to_string(), Some(rest)),
        ("a_types.api.json".to_string(), Some(a)),
    ]);
    let reg = build_enum_registry(&map);
    let units = plan_binding(map, &reg);
    assert_eq!(units.len(), 3);
    assert_eq!(units[0].path, "src/a_types_api_json.rs");
    assert_eq!(units[1].path, "src/b_types_api_json.rs");
    assert_eq!(units[2].path, "src/iface_api_json.rs");
}

#[test]
fn package_plan_scaffolds_layout_and_manifest() {
    let (map, _) = build_file_map(vec![("m.api.json".to_string(), Some(empty_file()))]);
    let reg = build_enum_registry(&map);
    let plan = plan_package(
        map,
        &reg,
        "../out",
        "myapi",
        "{ path = \"../vpp-api-message\" }",
        "// test for __PACKAGE__\n",
        "// example for __PACKAGE__\n",
    );
    let dirs: Vec<&str> = plan.dirs.iter().map(|d| d.as_str()).collect();
    assert_eq!(dirs, vec!["../out/myapi", "../out/myapi/src", "../out/myapi/tests", "../out/myapi/examples"]);
    assert_eq!(plan.units[0].path, "src/mod.rs");
    assert_eq!(plan.units[0].text, "pub mod m_api_json;\n");
    assert_eq!(plan.units[1].path, "Cargo.toml");
    assert!(plan.units[1].text.contains("name = \"myapi\""));
    assert!(plan.units[1].text.contains("vpp-api-message = { path = \"../vpp-api-message\" }"));
    assert_eq!(plan.units[2].path, "tests/interface_test.rs");
    assert_eq!(plan.units[2].text, "// test for myapi\n");
    assert_eq!(plan.units[3].path, "examples/progressive_vpp.rs");
    assert_eq!(plan.units[3].text, "// example for myapi\n");
    assert_eq!(plan.units[4].path, "src/m_api_json.rs");
}

#[test]
fn module_names_keep_letters_and_digits() {
    assert_eq!(module_name_of_path("dir/iface.api.json"), "dir_iface_api_json");
    assert_eq!(module_name_of_path("a-b"), "a_b");
}

#[test]
fn message_identifier_listing_strips_crc_prefix() {
    let mut f = empty_file();
    f.messages.push(message("control_ping", "0x51077d14", vec![]));
    f.messages.push(message("cli_inband", "0xf8377302", vec![]));
    let ids = message_identifiers(&f);
    assert_eq!(ids, vec!["control_ping_51077d14".to_string(), "cli_inband_f8377302".to_string()]);
}

#[test]
fn emitted_unit_paths_derive_from_source_paths() {
    let reg = vpp_api_gen::mapper::EnumWidthRegistry::new();
    let f = empty_file();
    let unit = emit_file_unit(&reg, "vpp/api/iface.api.json", &f);
    assert_eq!(unit.path, "src/vpp_api_iface_api_json.rs");
    assert!(unit.text.starts_with("// api module vpp/api/iface.api.json\n"));
}

#[test]
fn emitted_enum_block_lists_constants_at_backing_width() {
    let mut f = empty_file();
    f.enums.push(VppJsApiEnum {
        name: "if_type".to_string(),
        members: vec![
            VppJsApiEnumMember { name: "IF_API_TYPE_HARDWARE".to_string(), value: 0 },
            VppJsApiEnumMember { name: "IF_API_TYPE_SUB".to_string(), value: 1 },
        ],
        enumtype: "u8".to_string(),
    });
    let (map, _) = build_file_map(vec![("e.api.json".to_string(), Some(f))]);
    let reg = build_enum_registry(&map);
    let text = emit_file_text(&reg, "e.api.json", map.get("e.api.json").unwrap());
    assert!(text.contains("// enum IfType : u8\n"));
    assert!(text.contains("pub const IF_API_TYPE_HARDWARE: u8 = 0;\n"));
    assert!(text.contains("pub const IF_API_TYPE_SUB: u8 = 1;\n"));
}

#[test]
fn emitted_union_and_alias_blocks() {
    let mut f = empty_file();
    f.unions.push(VppJsApiUnion {
        name: "address_union".to_string(),
        members: vec![
            VppJsApiUnionMember { ctype: "vl_api_ip4_address_t".to_string(), name: "ip4".to_string() },
            VppJsApiUnionMember { ctype: "vl_api_ip6_address_t".to_string(), name: "ip6".to_string() },
        ],
    });
    f.aliases.push(VppJsApiAlias {
        name: "mac_address".to_string(),
        ctype: "u8".to_string(),
        maybe_length: Some(6),
    });
    f.aliases.push(VppJsApiAlias {
        name: "interface_index".to_string(),
        ctype: "u32".to_string(),
        maybe_length: None,
    });
    let reg = vpp_api_gen::mapper::EnumWidthRegistry::new();
    let text = emit_file_text(&reg, "u.api.json", &f);
    assert!(text.contains("pub enum AddressUnion {\n"));
    assert!(text.contains("    Ip4(Ip4Address),\n"));
    assert!(text.contains("    Ip6(Ip6Address),\n"));
    assert!(text.contains("pub type MacAddress = FixedSizeArray<u8, typenum::U6>;\n"));
    assert!(text.contains("pub type InterfaceIndex = u32;\n"));
}

#[test]
fn options_annotation_is_a_comment_in_emitted_code() {
    let mut fld = u32_field("mtu");
    fld.maybe_options = Some(vec![("default".to_string(), "1500".to_string())]);
    let mut f = empty_file();
    f.messages.push(message("set_mtu", "0x00000001", vec![fld]));
    let reg = vpp_api_gen::mapper::EnumWidthRegistry::new();
    let text = emit_file_text(&reg, "m.api.json", &f);
    assert!(text.contains("    pub mtu: u32, // options: default=1500\n"));
}

#[test]
fn type_identifier_without_suffix_still_camelizes() {
    assert_eq!(get_type("vl_api_foo"), "Foo");
}
