use wsdf::dissector::{Tree, Tvb};
use wsdf::protocol::{FieldBuilder, Protocol, ProtocolBuilder, ROOT_ETT_ID};
use wsdf::types::{Encoding, ExpertGroup, ExpertSeverity, FieldType};

fn registered_protocol() -> Protocol<()> {
    let mut p = ProtocolBuilder::new("Example", "ex", "ex")
        .dissector(())
        .ett("header", "Header")
        .field(FieldBuilder::new("header_field", "Header", "ex.header").field_type(FieldType::NoneType).build().unwrap())
        .field(FieldBuilder::new("field1", "F1", "ex.f1").field_type(FieldType::Uint8).build().unwrap())
        .field(FieldBuilder::new("field2", "F2", "ex.f2").field_type(FieldType::Uint16).build().unwrap())
        .expert_info("warn", ExpertGroup::Protocol, ExpertSeverity::Warn, "Something")
        .build(10)
        .unwrap();
    p.record_field_handle(0, 20).unwrap();
    p.record_field_handle(1, 21).unwrap();
    p.record_field_handle(2, 22).unwrap();
    p.record_ett_handles(&vec![30, 31]);
    p.record_expert_handle(0, 40, 41).unwrap();
    p
}

#[test]
fn tvb_reads_advance_the_cursor() {
    let data = [0x80u8, 0x12, 0x34, 0x56, 0x78];
    let mut tvb = Tvb::new(&data);
    assert_eq!(tvb.length(), 5);
    assert_eq!(tvb.get_uint8(0), 0x80);
    assert_eq!(tvb.offset(), 1);
    assert_eq!(tvb.get_uint16(1, Encoding::BigEndian), 0x1234);
    assert_eq!(tvb.offset(), 3);
    assert_eq!(tvb.get_uint16(3, Encoding::LittleEndian), 0x7856);
    assert_eq!(tvb.offset(), 5);
    assert_eq!(tvb.remaining_length(2), 3);
    assert_eq!(tvb.start(), 0);
}

#[test]
fn non_big_endian_encodings_read_little_endian() {
    let data = [0x01u8, 0x02];
    let mut tvb = Tvb::new(&data);
    assert_eq!(tvb.get_uint16(0, Encoding::NA), 0x0201);
}

#[test]
fn subset_starts_at_offset() {
    let data = [1u8, 2, 3, 4];
    let tvb = Tvb::new(&data);
    let sub = tvb.new_subset_remaining(1).unwrap();
    assert_eq!(sub.bytes(), &[2u8, 3, 4]);
    assert_eq!(sub.offset(), 0);
    assert_eq!(sub.length(), 3);
}

#[test]
fn items_are_laid_out_one_after_another() {
    let p = registered_protocol();
    let data = [0u8; 8];
    let mut tree = Tree::new(&p, Tvb::new(&data));
    assert_eq!(tree.root_handles(), (10, 30));
    let a = tree.add_item("field1", 1, Encoding::BigEndian).unwrap();
    assert_eq!((a.hf, a.offset, a.length), (21, 0, 1));
    assert_eq!((a.tvb.start(), a.tvb.offset()), (0, 0));
    let b = tree.add_item("field2", 2, Encoding::BigEndian).unwrap();
    assert_eq!((b.hf, b.offset, b.length), (22, 1, 2));
    assert_eq!((b.tvb.start(), b.tvb.offset()), (1, 1));
    assert_eq!(tree.tvb.offset(), 3);
    assert_eq!(tree.get_reported_length(), 8);
}

#[test]
fn unknown_fields_are_not_added() {
    let p = registered_protocol();
    let data = [0u8; 4];
    let mut tree = Tree::new(&p, Tvb::new(&data));
    assert!(tree.add_item("nope", 2, Encoding::NA).is_none());
    assert_eq!(tree.tvb.offset(), 0);
    assert!(tree.add_subtree("nope", "header").is_none());
}

#[test]
fn ending_a_subtree_continues_after_it() {
    let p = registered_protocol();
    let data = [0u8; 8];
    let mut tree = Tree::new(&p, Tvb::new(&data));
    tree.add_item("field1", 1, Encoding::BigEndian).unwrap();
    let placed = tree.add_subtree("header_field", "header").unwrap();
    assert_eq!((placed.hf, placed.ett, placed.offset), (20, 31, 1));
    let mut sub = placed.tree;
    sub.add_item("field2", 2, Encoding::BigEndian).unwrap();
    sub.add_item("field1", 1, Encoding::BigEndian).unwrap();
    // The subtree's view starts where the parent's does, so its length counts from there.
    let len = tree.end_subtree(&sub);
    assert_eq!(len, 4);
    assert_eq!(tree.tvb.offset(), 4);
}

#[test]
fn expert_info_lookup() {
    let p = registered_protocol();
    let data = [0u8; 1];
    let tree = Tree::new(&p, Tvb::new(&data));
    let h = tree.add_expert_info("warn").unwrap();
    assert_eq!((h.ei, h.hf), (40, 41));
    assert!(tree.add_expert_info("other").is_none());
    assert_eq!(p.get_ett_handle(ROOT_ETT_ID), 30);
}

#[test]
fn transformed_data_gets_its_own_tree() {
    let p = registered_protocol();
    let data = [9u8, 1, 2];
    let mut tree = Tree::new(&p, Tvb::new(&data));
    tree.add_item("field1", 1, Encoding::BigEndian).unwrap();
    assert_eq!(tree.transform_source(), &[1u8, 2]);
    let out: Vec<u8> = tree.transform_source().iter().flat_map(|b| [*b, *b]).collect();
    let mut inner = tree.with_tvb(Tvb::new(&out));
    assert_eq!(inner.get_reported_length(), 4);
    let item = inner.add_item("field2", 2, Encoding::BigEndian).unwrap();
    assert_eq!(item.offset, 0);
    assert_eq!(inner.tvb.offset(), 2);
}

#[test]
fn truncated_capture_reports_the_packet_length() {
    let data = [1u8, 2, 3, 4];
    let tvb = Tvb::with_reported_length(&data, 10);
    assert_eq!(tvb.length(), 10);
    assert_eq!(tvb.bytes().len(), 4);
    let sub = tvb.new_subset_remaining(1).unwrap();
    assert_eq!(sub.length(), 9);
    assert_eq!(sub.bytes(), &[2u8, 3, 4]);
    let p = registered_protocol();
    let tree = Tree::new(&p, tvb);
    assert_eq!(tree.get_reported_length(), 10);
}

#[test]
fn remaining_length_counts_captured_bytes() {
    let data = [0u8; 6];
    let tvb = Tvb::new(&data);
    assert_eq!(tvb.remaining_length(0), 6);
    assert_eq!(tvb.remaining_length(6), 0);
    assert_eq!(tvb.remaining_length(7), 0);
    assert_eq!(tvb.remaining_length(-2), 2);
    assert_eq!(tvb.remaining_length(-6), 6);
    assert_eq!(tvb.remaining_length(-7), 0);
    assert_eq!(tvb.remaining_length(i32::MIN), 0);
}
