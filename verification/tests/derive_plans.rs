use wsdf::expand::{
    check_dissect_target, check_tuple_arity, hidden_ident, plan_proto, plugin_version_chars, protocol,
    ui_name, version, DataKind, PluginType, ProtocolOptions,
};
use wsdf::plan::{
    assign_subdissector_key_types, get_field_dissection_plans, get_field_size_plans, hidden_step,
    AddStrategy, FieldDissectionPlan, FieldMeta, FieldOptions, HiddenStep, NamedField, Subdissector,
    UnitTuple,
};
use wsdf::plugin::TableRegistration;
use wsdf::types::DissectorDecodeFrom;

fn opts() -> FieldOptions {
    FieldOptions {
        taps: vec![],
        consume_with: None,
        decode_with: None,
        get_variant: None,
        subdissector: None,
        hidden: None,
        save: None,
        size_hint: None,
        dispatch: None,
        bytes: None,
        rename: None,
        ws_type: None,
        ws_display: None,
        ws_enc: None,
    }
}

fn field(ident: &str, ty: &str, options: FieldOptions) -> NamedField {
    NamedField {
        ident: ident.to_string(),
        meta: FieldMeta { ty: ty.to_string(), docs: None, options, subdissector_key_type: None },
    }
}

#[test]
fn version_chars_match_the_version_string() {
    assert_eq!(
        plugin_version_chars("0.0.1"),
        vec!['0' as i8, '.' as i8, '0' as i8, '.' as i8, '1' as i8, 0_i8]
    );
    assert_eq!(
        plugin_version_chars("5.10.01"),
        vec!['5' as i8, '.' as i8, '1' as i8, '0' as i8, '.' as i8, '0' as i8, '1' as i8, 0_i8]
    );
    assert_eq!(plugin_version_chars(""), vec![0_i8]);
    assert_eq!(plugin_version_chars("é"), vec![-61_i8, -87_i8, 0_i8]);
}

#[test]
fn version_expansion_text() {
    let expanded = version("0.0.1", "4", "4", None);
    assert!(expanded.contains(
        "static plugin_version: [std::ffi::c_char; 6usize] = [48i8, 46i8, 48i8, 46i8, 49i8, 0i8];"
    ));
    assert!(expanded.contains("static plugin_want_major: std::ffi::c_int = 4;"));
    assert!(expanded.contains("static plugin_want_minor: std::ffi::c_int = 4;"));
    assert!(expanded.contains("wsdf::epan_sys::WS_PLUGIN_DESC_EPAN"));

    let expanded = version("5.10.01", "10", "100", Some(PluginType::Dissector));
    assert!(expanded.contains("[std::ffi::c_char; 8usize]"));
    assert!(expanded.contains("static plugin_want_major: std::ffi::c_int = 10;"));
    assert!(expanded.contains("static plugin_want_minor: std::ffi::c_int = 100;"));
    assert!(expanded.contains("wsdf::epan_sys::WS_PLUGIN_DESC_DISSECTOR"));
}

#[test]
fn protocol_expansion_registers_each_type() {
    let expanded = protocol(&vec!["Udp".to_string(), "UdpLite".to_string()]);
    assert!(expanded.contains("extern \"C\" fn plugin_register()"));
    assert!(expanded.contains("PLUG_0.register_protoinfo =\n            std::option::Option::Some(<Udp as wsdf::Proto>::register_protoinfo);"));
    assert!(expanded.contains("PLUG_1.register_handoff =\n            std::option::Option::Some(<UdpLite as wsdf::Proto>::register_handoff);"));
    assert!(expanded.contains("wsdf::epan_sys::proto_register_plugin(&PLUG_1);"));
    assert!(!expanded.contains("PLUG_2"));
    let empty = protocol(&vec![]);
    assert!(empty.contains("plugin_register"));
    assert!(!empty.contains("proto_register_plugin"));
}

#[test]
fn plugin_types() {
    assert_eq!(PluginType::parse("Dissector"), Ok(PluginType::Dissector));
    assert_eq!(PluginType::parse("FileType"), Ok(PluginType::FileType));
    assert_eq!(PluginType::parse("Codec"), Ok(PluginType::Codec));
    assert_eq!(PluginType::parse("Epan"), Ok(PluginType::Epan));
    assert_eq!(PluginType::parse("TapListener"), Ok(PluginType::TapListener));
    assert_eq!(PluginType::parse("DFilter"), Ok(PluginType::DFilter));
    assert_eq!(
        PluginType::parse("dissector"),
        Err("Invalid plugin type. Expected one of: Dissector, FileType, Codec, Epan, TapListener, DFilter".to_string())
    );
    assert_eq!(PluginType::FileType.to_const_ident(), "WS_PLUGIN_DESC_FILE_TYPE");
    assert_eq!(PluginType::TapListener.to_const_ident(), "WS_PLUGIN_DESC_TAP_LISTENER");
}

#[test]
fn proto_plan_defaults_and_errors() {
    let mut o = ProtocolOptions {
        decode_from: vec![DissectorDecodeFrom::Uint("udp.port".into(), vec![1234])],
        proto_desc: Some("Test UDP Protocol".into()),
        proto_name: Some("TestUDP".into()),
        proto_filter: None,
    };
    let p = plan_proto(true, &o, "UDP_PROTO", "udp_proto").unwrap();
    assert_eq!(p.desc, "Test UDP Protocol");
    assert_eq!(p.name, "TestUDP");
    assert_eq!(p.filter, "udp_proto");
    assert_eq!(p.registrations, vec![TableRegistration::Uint("udp.port".into(), 1234)]);
    assert_eq!(
        plan_proto(false, &o, "A", "a").err(),
        Some("only structs can derive Proto".to_string())
    );
    o.decode_from.clear();
    assert_eq!(
        plan_proto(true, &o, "A", "a").err(),
        Some("missing `decode_from` attribute".to_string())
    );
}

#[test]
fn dissect_targets_and_names() {
    assert!(check_dissect_target(DataKind::Struct).is_ok());
    assert!(check_dissect_target(DataKind::Enum).is_ok());
    assert_eq!(
        check_dissect_target(DataKind::Union),
        Err("#[derive(Dissect)] cannot be used on unions".to_string())
    );
    assert!(check_tuple_arity(1).is_ok());
    assert_eq!(check_tuple_arity(2), Err("expected only one field in tuple".to_string()));
    assert!(check_tuple_arity(0).is_err());
    assert_eq!(hidden_ident("src_port"), "__src_port");
    assert_eq!(ui_name(&None, "Src Port"), "Src Port");
    assert_eq!(ui_name(&Some("Source".into()), "Src Port"), "Source");
}

#[test]
fn plans_emit_what_other_fields_need() {
    let mut tapped = opts();
    tapped.taps = vec!["describe_src_port".into()];
    let mut payload = opts();
    payload.bytes = Some(true);
    payload.subdissector = Some(Subdissector::Table {
        table_name: "baby_udp.port".into(),
        fields: vec!["src_port".into(), "dst_port".into()],
    });
    payload.taps = vec!["describe_payload".into()];
    let mut list = opts();
    list.size_hint = Some("length".into());
    let mut saved = opts();
    saved.save = Some(true);
    saved.hidden = Some(true);
    let fields = vec![
        field("src_port", "u16", tapped),
        field("dst_port", "u16", opts()),
        field("length", "u16", saved),
        field("checksum", "u16", opts()),
        field("payload", "Vec<u8>", payload),
        field("items", "Vec<u8>", list),
    ];
    let plans = get_field_dissection_plans(&fields);
    let emits: Vec<bool> = plans.iter().map(|p| p.emit).collect();
    assert_eq!(emits, vec![true, true, true, false, true, false]);
    assert!(plans[0].build_ctx && !plans[1].build_ctx && plans[4].build_ctx);
    assert!(plans[2].save && !plans[0].save);
    assert!(matches!(plans[2].add_strategy, AddStrategy::Hidden));
    assert!(matches!(plans[3].add_strategy, AddStrategy::Default));
    assert!(matches!(
        &plans[4].add_strategy,
        AddStrategy::Subdissect(Subdissector::Table { table_name, .. }) if table_name == "baby_udp.port"
    ));

    let sizes = get_field_size_plans(&fields);
    assert!(sizes.iter().all(|p| matches!(p.add_strategy, AddStrategy::Hidden)));
    assert_eq!(sizes.iter().map(|p| p.emit).collect::<Vec<_>>(), emits);

    let keyed = assign_subdissector_key_types(&fields);
    assert_eq!(keyed[4].meta.subdissector_key_type, Some("u16".to_string()));
    assert_eq!(keyed[0].meta.subdissector_key_type, None);
    assert_eq!(keyed[4].ident, "payload");
    assert_eq!(keyed[4].meta.ty, "Vec<u8>");
}

#[test]
fn key_type_is_that_of_the_last_matching_field() {
    let mut sub = opts();
    sub.subdissector = Some(Subdissector::Table {
        table_name: "t".into(),
        fields: vec!["a".into(), "b".into()],
    });
    let fields = vec![field("a", "u8", opts()), field("b", "u32", opts()), field("p", "Vec<u8>", sub)];
    let keyed = assign_subdissector_key_types(&fields);
    assert_eq!(keyed[2].meta.subdissector_key_type, Some("u32".to_string()));
}

#[test]
fn add_strategy_priorities() {
    let mut o = opts();
    o.consume_with = Some("consume".into());
    o.hidden = Some(true);
    assert!(matches!(AddStrategy::from_field_options(&o), AddStrategy::ConsumeWith(f) if f == "consume"));
    assert!(matches!(hidden_step(&o), HiddenStep::Consume(f) if f == "consume"));
    let mut o = opts();
    o.decode_with = Some("decode".into());
    assert!(matches!(AddStrategy::from_field_options(&o), AddStrategy::DecodeWith(f) if f == "decode"));
    assert!(matches!(hidden_step(&o), HiddenStep::Skip));
    let mut o = opts();
    o.subdissector = Some(Subdissector::DecodeAs("t".into()));
    o.hidden = Some(true);
    assert!(matches!(AddStrategy::from_field_options(&o), AddStrategy::Subdissect(Subdissector::DecodeAs(t)) if t == "t"));
    assert!(matches!(hidden_step(&o), HiddenStep::Subdissect(_)));
    let mut o = opts();
    o.hidden = Some(false);
    assert!(matches!(AddStrategy::from_field_options(&o), AddStrategy::Default));
}

#[test]
fn unit_tuple_plan_emits_only_with_context() {
    let mut o = opts();
    o.get_variant = Some("get_bar_variant".into());
    let unit = UnitTuple(FieldMeta { ty: "u8".into(), docs: None, options: o, subdissector_key_type: None });
    let plan = FieldDissectionPlan::from_unit_tuple(&unit);
    assert!(plan.emit && plan.build_ctx && !plan.save);
    assert!(!o_requires_ctx_plain());
}

fn o_requires_ctx_plain() -> bool {
    opts().requires_ctx()
}
