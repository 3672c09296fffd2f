use wsdf::case::{to_snake_case, to_title_case, to_upper_case, words_of};
use wsdf::codegen::{
    dissect_enum_source, dissect_struct_source, doc_text, proto_source, trim_text, subdissector_source, StructInnards, TypeOptions,
    VariantSpec,
};
use wsdf::expand::{plan_proto, ProtocolOptions};
use wsdf::plan::{FieldMeta, FieldOptions, NamedField, Subdissector, UnitTuple};
use wsdf::types::DissectorDecodeFrom;

fn options() -> FieldOptions {
    FieldOptions {
        taps: vec![],
        consume_with: None,
        decode_with: None,
        get_variant: None,
        subdissector: None,
        hidden: None,
        save: None,
        size_hint: None,
        dispatch: None,
        bytes: None,
        rename: None,
        ws_type: None,
        ws_display: None,
        ws_enc: None,
    }
}

fn named(ident: &str, ty: &str, options: FieldOptions) -> NamedField {
    NamedField {
        ident: ident.to_string(),
        meta: FieldMeta { ty: ty.to_string(), docs: None, options, subdissector_key_type: None },
    }
}

fn no_type_options() -> TypeOptions {
    TypeOptions { pre_dissect: vec![], post_dissect: vec![], rename: None }
}

#[test]
fn identifier_spellings() {
    assert_eq!(words_of("SrcPort"), vec!["Src".to_string(), "Port".to_string()]);
    assert_eq!(words_of("__src__port_"), vec!["src".to_string(), "port".to_string()]);
    assert_eq!(to_snake_case("SrcPort"), "src_port");
    assert_eq!(to_snake_case("src_port"), "src_port");
    assert_eq!(to_upper_case("SrcPort"), "SRC_PORT");
    assert_eq!(to_upper_case("udp"), "UDP");
    assert_eq!(to_title_case("src_port"), "Src Port");
    assert_eq!(to_title_case("SrcPort"), "Src Port");
    assert_eq!(to_title_case("ipv4Addr"), "Ipv4 Addr");
    assert_eq!(to_snake_case(""), "");
}

#[test]
fn table_subdissector_tries_each_key_then_the_data_dissector() {
    let subd = Subdissector::Table { table_name: "udp.port".to_string(), fields: vec!["src".to_string(), "dst".to_string()] };
    let src = subdissector_source("Vec<u8>", &subd, "args.proto_root");
    let first = src.find("&__src").unwrap();
    let second = src.find("&__dst").unwrap();
    let data = src.find("call_data_dissector").unwrap();
    assert!(first < second && second < data);
    assert!(src.contains("proto_root: args.proto_root,"));
    assert!(src.contains("try_subdissector(&args_next, \"udp.port\", &__src)"));
    let decode_as = subdissector_source("Vec<u8>", &Subdissector::DecodeAs("my.table".to_string()), "std::ptr::null_mut()");
    assert!(decode_as.contains("try_subdissector(&args_next, \"my.table\", &())"));
    assert!(!decode_as.contains("call_data_dissector"));
}

#[test]
fn struct_expansion_dissects_measures_and_registers_each_field() {
    let mut len_opts = options();
    len_opts.save = Some(true);
    let mut payload_opts = options();
    payload_opts.size_hint = Some("len".to_string());
    let innards = StructInnards::NamedFields {
        fields: vec![named("len", "u8", len_opts), named("payload", "Vec<u8>", payload_opts)],
    };
    let src = dissect_struct_source("Packet", &no_type_options(), &innards).unwrap();
    assert!(src.starts_with("impl<'tvb> wsdf::Dissect<'tvb, ()> for Packet {"));
    assert!(src.contains("let __len = <u8 as wsdf::Dissect<'tvb, ()>>::emit(&args_next);"));
    assert!(src.contains("<u8 as wsdf::Primitive<'tvb, ()>>::save(&args_next, fields, &mut fields_local);"));
    assert!(src.contains("list_len: std::option::Option::Some(__len as usize)"));
    assert!(src.contains("name: \"Payload\\0\".as_ptr() as *const std::ffi::c_char"));
    assert!(src.contains("let parent = args.add_subtree();"));
    assert!(src.contains("fn size("));
    assert!(src.contains("<Vec<u8> as wsdf::Dissect<'tvb, ()>>::register(&args_next, ws_indices);"));
    // Measuring skips every field by its size.
    assert!(src.contains("let offset = offset + <Vec<u8> as wsdf::Dissect<'tvb, ()>>::size(&args_next, fields);"));
}

#[test]
fn unit_tuple_expansion() {
    let mut o = options();
    o.ws_type = Some("FT_UINT8".to_string());
    let innards = StructInnards::UnitTuple(UnitTuple(FieldMeta {
        ty: "u8".to_string(),
        docs: Some("A \"quoted\" byte".to_string()),
        options: o,
        subdissector_key_type: None,
    }));
    let src = dissect_struct_source("Flag", &no_type_options(), &innards).unwrap();
    assert!(src.contains("ws_type: std::option::Option::Some(wsdf::epan_sys::FT_UINT8)"));
    assert!(src.contains("\"A \\\"quoted\\\" byte\\0\".as_ptr()"));
    assert!(!src.contains("add_subtree"));
}

#[test]
fn hooks_run_around_the_fields() {
    let opts = TypeOptions { pre_dissect: vec!["pre".to_string()], post_dissect: vec!["post".to_string()], rename: None };
    let innards = StructInnards::NamedFields { fields: vec![named("a", "u8", options())] };
    let src = dissect_struct_source("S", &opts, &innards).unwrap();
    let pre = src.find("wsdf::tap::handle_tap(&ctx, pre);").unwrap();
    let field = src.find("<u8 as wsdf::Dissect<'tvb, ()>>::add_to_tree").unwrap();
    let post = src.find("wsdf::tap::handle_tap(&ctx, post);").unwrap();
    assert!(pre < field && field < post);
}

#[test]
fn table_without_key_field_is_refused() {
    let mut o = options();
    o.subdissector = Some(Subdissector::Table { table_name: "t".to_string(), fields: vec!["missing".to_string()] });
    let innards = StructInnards::NamedFields { fields: vec![named("payload", "Vec<u8>", o)] };
    assert_eq!(
        dissect_struct_source("S", &no_type_options(), &innards),
        Err("none of the subdissector's key fields is a field of this struct".to_string())
    );
}

#[test]
fn table_keyed_by_a_field_uses_its_type() {
    let mut o = options();
    o.subdissector = Some(Subdissector::Table { table_name: "t".to_string(), fields: vec!["port".to_string()] });
    let innards = StructInnards::NamedFields { fields: vec![named("port", "u16", options()), named("payload", "Vec<u8>", o)] };
    let src = dissect_struct_source("S", &no_type_options(), &innards).unwrap();
    assert!(src.contains("<u16 as wsdf::SubdissectorKey>::create_table(args.proto_id, \"t\", ws_indices.dtable);"));
}

#[test]
fn enum_expansion_dispatches_on_the_variant() {
    let variants = vec![
        VariantSpec {
            ident: "EchoRequest".to_string(),
            options: no_type_options(),
            docs: None,
            fields_source: "{ id : u16 }".to_string(),
            braced: true,
        },
        VariantSpec {
            ident: "Other".to_string(),
            options: TypeOptions { pre_dissect: vec![], post_dissect: vec![], rename: Some("Something else".to_string()) },
            docs: Some("Any other message".to_string()),
            fields_source: "".to_string(),
            braced: false,
        },
    ];
    let src = dissect_enum_source("Message", &variants);
    assert!(src.contains("struct __EchoRequest { id : u16 }\n"));
    assert!(src.contains("struct __Other ;\n"));
    assert!(src.contains("Some(\"EchoRequest\") => {"));
    assert!(src.contains("prefix_local: \"echo_request\""));
    assert!(src.contains("__EchoRequest::add_to_tree(&args_next, fields)"));
    assert!(src.contains("__Other::size(&args_next, fields)"));
    assert!(src.contains("name: \"Echo Request\\0\""));
    assert!(src.contains("name: \"Something else\\0\""));
    assert!(src.contains("blurb: \"Any other message\\0\""));
    assert!(src.contains("panic!(\"unable to determine variant of {}\", \"Message\")"));
}

#[test]
fn proto_expansion_keys_the_handle_by_filter() {
    let opts = ProtocolOptions {
        decode_from: vec![DissectorDecodeFrom::Uint("udp.port".to_string(), vec![1234, 5678])],
        proto_desc: None,
        proto_name: None,
        proto_filter: None,
    };
    let plan = plan_proto(true, &opts, "MY_PROTO", "my_proto").unwrap();
    let src = proto_source("MyProto", &plan);
    assert!(src.starts_with("impl wsdf::Proto for MyProto {"));
    assert!(src.contains("ws_indices.hf.insert(\"my_proto\", proto_id);"));
    assert!(src.contains("let proto_id = hf_indices.get(\"my_proto\").unwrap();"));
    assert!(src.contains("dissector_add_uint(\"udp.port\\0\".as_ptr() as *const std::ffi::c_char, 1234u32 as _, handle);"));
    assert!(src.contains("dissector_add_uint(\"udp.port\\0\".as_ptr() as *const std::ffi::c_char, 5678u32 as _, handle);"));
    assert!(src.contains("\"MY_PROTO\\0\".as_ptr()"));
}

fn parses(src: &str) -> bool {
    syn::parse_file(src).is_ok()
}

#[test]
fn expansions_are_valid_rust() {
    let mut sub = options();
    sub.subdissector = Some(Subdissector::Table { table_name: "t".to_string(), fields: vec!["port".to_string()] });
    let mut consumed = options();
    consumed.consume_with = Some("crate::consume".to_string());
    consumed.taps = vec!["crate::tap_a".to_string()];
    let mut decoded = options();
    decoded.decode_with = Some("crate::decode".to_string());
    decoded.get_variant = Some("crate::variant".to_string());
    let mut hidden = options();
    hidden.hidden = Some(true);
    hidden.bytes = Some(true);
    let innards = StructInnards::NamedFields {
        fields: vec![
            named("port", "u16", options()),
            named("a", "u8", consumed),
            named("b", "Msg", decoded),
            named("c", "Vec<u8>", hidden),
            named("payload", "Vec<u8>", sub),
        ],
    };
    let opts = TypeOptions { pre_dissect: vec!["crate::pre".to_string()], post_dissect: vec![], rename: None };
    let s = dissect_struct_source("S", &opts, &innards).unwrap();
    assert!(parses(&s), "{s}");
    let unit = StructInnards::UnitTuple(UnitTuple(FieldMeta {
        ty: "()".to_string(),
        docs: None,
        options: options(),
        subdissector_key_type: None,
    }));
    let s = dissect_struct_source("U", &no_type_options(), &unit).unwrap();
    assert!(parses(&s), "{s}");
    let variants = vec![
        VariantSpec {
            ident: "A".to_string(),
            options: TypeOptions { pre_dissect: vec!["crate::p".to_string()], post_dissect: vec![], rename: None },
            docs: None,
            fields_source: "{ x : u8 }".to_string(),
            braced: true,
        },
        VariantSpec { ident: "B".to_string(), options: no_type_options(), docs: None, fields_source: "(u16)".to_string(), braced: false },
    ];
    let s = dissect_enum_source("E", &variants);
    assert!(parses(&s), "{s}");
    let popts = ProtocolOptions {
        decode_from: vec![DissectorDecodeFrom::DecodeAs("my.table".to_string())],
        proto_desc: Some("My \"proto\"".to_string()),
        proto_name: None,
        proto_filter: None,
    };
    let plan = plan_proto(true, &popts, "P", "p").unwrap();
    let s = proto_source("P", &plan);
    assert!(parses(&s), "{s}");
}

#[test]
fn doc_comments_are_trimmed_and_joined() {
    assert_eq!(trim_text("  A field.\t"), "A field.");
    assert_eq!(trim_text(" \u{a0} "), "");
    assert_eq!(trim_text("x"), "x");
    assert_eq!(doc_text(&vec![" First line.".to_string(), " Second line. ".to_string()]), Some("First line. Second line.".to_string()));
    assert_eq!(doc_text(&vec![]), None);
    assert_eq!(doc_text(&vec!["".to_string()]), Some("".to_string()));
}
