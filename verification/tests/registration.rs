use wsdf::plugin::{table_registrations, Plugin, TableRegistration};
use wsdf::protocol::{FieldBuilder, Protocol, ProtocolBuilder, ROOT_ETT_ID};
use wsdf::types::{
    DissectorDecodeFrom, ExpertGroup, ExpertSeverity, FieldDisplay, FieldType, RegistrationError,
};

fn example_builder() -> ProtocolBuilder<u32> {
    ProtocolBuilder::new("WSDF Example Protocol", "wsdf", "wsdf_example")
        .dissector(7)
        .ett("header", "Header Fields")
        .ett("payload", "Payload Fields")
        .field(
            FieldBuilder::new("header_field", "Header Field", "wsdf.header_field")
                .field_type(FieldType::NoneType)
                .display(FieldDisplay::BaseNone)
                .build()
                .unwrap(),
        )
        .field(
            FieldBuilder::new("field1", "First Field", "wsdf.field1")
                .field_type(FieldType::Uint8)
                .display(FieldDisplay::BaseDec)
                .build()
                .unwrap(),
        )
        .expert_info(
            "expert_condition1",
            ExpertGroup::Assumption,
            ExpertSeverity::Note,
            "Basic field processing completed",
        )
        .decode_from(DissectorDecodeFrom::Uint("ip.proto".into(), vec![17]))
}

fn example_protocol() -> Protocol<u32> {
    example_builder().build(42).unwrap()
}

#[test]
fn field_builder_requires_a_type() {
    let r = FieldBuilder::new("f", "F", "p.f").display(FieldDisplay::BaseHex).build();
    assert!(matches!(r, Err(RegistrationError::MissingFieldType)));
}

#[test]
fn field_builder_keeps_every_setting() {
    let f = FieldBuilder::new("flags", "Flags", "p.flags")
        .field_type(FieldType::Uint16)
        .display(FieldDisplay::BaseHex)
        .strings(vec![(1, "one".to_string()), (2, "two".to_string())])
        .bitmask(0x0ff0)
        .blurb("Some flags")
        .build()
        .unwrap();
    assert_eq!(f.id, "flags");
    assert_eq!(f.name, "Flags");
    assert_eq!(f.abbrev, "p.flags");
    assert_eq!(f.field_type, FieldType::Uint16);
    assert_eq!(f.display, FieldDisplay::BaseHex);
    assert_eq!(f.strings, Some(vec![(1, "one".to_string()), (2, "two".to_string())]));
    assert_eq!(f.bitmask, 0x0ff0);
    assert_eq!(f.blurb, Some("Some flags".to_string()));
}

#[test]
fn field_builder_defaults() {
    let f = FieldBuilder::new("len", "Length", "p.len")
        .field_type(FieldType::Uint32)
        .build()
        .unwrap();
    assert_eq!(f.display, FieldDisplay::BaseNone);
    assert_eq!(f.strings, None);
    assert_eq!(f.bitmask, 0);
    assert_eq!(f.blurb, None);
}

#[test]
fn protocol_builder_requires_a_dissector() {
    let b: ProtocolBuilder<u32> = ProtocolBuilder::new("P", "p", "p");
    assert!(!b.has_dissector());
    assert!(matches!(b.build(1), Err(RegistrationError::MissingDissector)));
}

#[test]
fn protocol_build_puts_root_ett_first() {
    let p = example_protocol();
    assert_eq!(p.abbrev, "wsdf");
    assert_eq!(p.name(), "WSDF Example Protocol");
    assert_eq!(p.filter(), "wsdf_example");
    assert_eq!(p.get_proto_handle(), 42);
    assert_eq!(p.proto_handle, 42);
    assert_eq!(p.dissector_fn, 7);
    let etts: Vec<(String, String)> = p
        .ett_defs()
        .iter()
        .map(|e| (e.id().clone(), e.name().clone()))
        .collect();
    assert_eq!(
        etts,
        vec![
            (ROOT_ETT_ID.to_string(), "WSDF Example Protocol Protocol Tree".to_string()),
            ("header".to_string(), "Header Fields".to_string()),
            ("payload".to_string(), "Payload Fields".to_string()),
        ]
    );
    assert_eq!(p.field_defs().len(), 2);
    assert_eq!(p.field_defs()[1].id, "field1");
    assert_eq!(p.expert_info_defs().len(), 1);
    assert_eq!(p.expert_info_defs()[0].id(), "expert_condition1");
    assert_eq!(p.expert_info_defs()[0].group(), ExpertGroup::Assumption);
    assert_eq!(p.expert_info_defs()[0].severity(), ExpertSeverity::Note);
    assert_eq!(
        p.match_definitions,
        Some(vec![DissectorDecodeFrom::Uint("ip.proto".into(), vec![17])])
    );
    assert!(p.get_field_handle("field1").is_none());
    assert!(p.get_expert_field("expert_condition1").is_none());
}

#[test]
fn recorded_field_handles_are_found() {
    let mut p = example_protocol();
    assert_eq!(p.record_field_handle(0, 100), Ok(()));
    assert_eq!(p.record_field_handle(1, 101), Ok(()));
    assert_eq!(p.get_field_handle("header_field").unwrap().handle, 100);
    assert_eq!(p.get_field_handle("field1").unwrap().handle, 101);
    assert!(p.get_field_handle("field2").is_none());
    // Recording again replaces the handle.
    assert_eq!(p.record_field_handle(1, 205), Ok(()));
    assert_eq!(p.get_field_handle("field1").unwrap().handle, 205);
}

#[test]
fn failed_field_registration_records_nothing() {
    let mut p = example_protocol();
    assert_eq!(
        p.record_field_handle(1, -1),
        Err(RegistrationError::RegistrationFailed)
    );
    assert!(p.get_field_handle("field1").is_none());
}

#[test]
fn ett_handles_follow_definition_order() {
    let mut p = example_protocol();
    p.record_ett_handles(&vec![3, 4, 5]);
    assert_eq!(p.get_ett_handle(ROOT_ETT_ID), 3);
    assert_eq!(p.get_ett_handle("header"), 4);
    assert_eq!(p.get_ett_handle("payload"), 5);
}

#[test]
fn expert_field_names_and_handles() {
    let mut p = example_protocol();
    assert_eq!(p.expert_field_name(0), "wsdf_example.expert_condition1");
    assert_eq!(
        p.record_expert_handle(0, -1, 3),
        Err(RegistrationError::RegistrationFailed)
    );
    assert_eq!(
        p.record_expert_handle(0, 3, -1),
        Err(RegistrationError::RegistrationFailed)
    );
    assert!(p.get_expert_field("expert_condition1").is_none());
    assert_eq!(p.record_expert_handle(0, 8, 9), Ok(()));
    let h = p.get_expert_field("expert_condition1").unwrap();
    assert_eq!((h.ei, h.hf), (8, 9));
}

#[test]
fn handoff_registers_each_key() {
    let defs = vec![
        DissectorDecodeFrom::DecodeAs("moldudp.payload".into()),
        DissectorDecodeFrom::Uint("udp.port".into(), vec![1234, 1235]),
        DissectorDecodeFrom::Uint("ip.proto".into(), vec![]),
    ];
    assert_eq!(
        table_registrations(&defs),
        vec![
            TableRegistration::DecodeAs("moldudp.payload".into()),
            TableRegistration::Uint("udp.port".into(), 1234),
            TableRegistration::Uint("udp.port".into(), 1235),
        ]
    );
    let p = example_protocol();
    assert_eq!(
        p.handoff_registrations(),
        vec![TableRegistration::Uint("ip.proto".into(), 17)]
    );
}

#[test]
fn plugin_keeps_one_protocol_per_abbreviation() {
    let mut plugin: Plugin<u32> = Plugin::new();
    assert!(plugin.get_protocol("wsdf").is_none());
    plugin.add_protocol(example_protocol());
    assert_eq!(plugin.get_protocol("wsdf").unwrap().get_proto_handle(), 42);

    let other = ProtocolBuilder::new("Other", "other", "other").dissector(1).build(7).unwrap();
    plugin.add_protocol(other);
    let mut ids = plugin.protocol_ids();
    ids.sort();
    assert_eq!(ids, vec!["other".to_string(), "wsdf".to_string()]);

    // A protocol with an abbreviation already present replaces the earlier one.
    let replacement = example_builder().build(99).unwrap();
    plugin.add_protocol(replacement);
    assert_eq!(plugin.protocol_ids().len(), 2);
    assert_eq!(plugin.get_protocol("wsdf").unwrap().get_proto_handle(), 99);

    let taken = plugin.take_protocol("other").unwrap();
    assert_eq!(taken.get_proto_handle(), 7);
    assert!(plugin.get_protocol("other").is_none());
    assert!(plugin.take_protocol("other").is_none());
    assert_eq!(plugin.protocol_ids(), vec!["wsdf".to_string()]);
}

#[test]
fn recording_all_handles_gives_every_field_and_expert_info_one() {
    let mut p = example_protocol();
    assert_eq!(p.record_field_handles(&vec![10, 11]), Ok(()));
    assert_eq!(p.get_field_handle("header_field").unwrap().handle, 10);
    assert_eq!(p.get_field_handle("field1").unwrap().handle, 11);
    assert_eq!(p.record_expert_handles(&vec![(3, 4)]), Ok(()));
    let h = p.get_expert_field("expert_condition1").unwrap();
    assert_eq!((h.ei, h.hf), (3, 4));
    p.record_ett_handles(&vec![20, 21, 22]);
    assert_eq!(p.get_ett_handle(ROOT_ETT_ID), 20);
    assert_eq!(p.get_ett_handle("payload"), 22);
}

#[test]
fn a_failed_handle_records_none_of_them() {
    let mut p = example_protocol();
    assert_eq!(p.record_field_handles(&vec![10, -1]), Err(RegistrationError::RegistrationFailed));
    assert!(p.get_field_handle("header_field").is_none());
    assert_eq!(p.record_expert_handles(&vec![(3, -1)]), Err(RegistrationError::RegistrationFailed));
    assert!(p.get_expert_field("expert_condition1").is_none());
}

#[test]
fn builder_example_field() {
    let f = FieldBuilder::new("field1", "First Field", "wsdf.field1")
        .field_type(FieldType::Uint8)
        .display(FieldDisplay::BaseDec)
        .build()
        .unwrap();
    assert_eq!(f.id, "field1");
    assert_eq!(f.name, "First Field");
    assert_eq!(f.abbrev, "wsdf.field1");
    assert_eq!(f.field_type, FieldType::Uint8);
    assert_eq!(f.display, FieldDisplay::BaseDec);
    assert!(f.strings.is_none());
    assert_eq!(f.bitmask, 0);
    assert!(f.blurb.is_none());
    let g = FieldBuilder::new("a", "A", "p.a").bitmask(0x0f).bitmask(0xf0).field_type(FieldType::Uint8).build().unwrap();
    assert_eq!(g.bitmask, 0xf0);
}
