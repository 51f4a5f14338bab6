use pdl_dissector::ast::{
    Comment, Constraint, Decl, DeclDesc, EndiannessValue, Field, FieldDesc, File, Size,
    SourceLocation, SourceRange, Tag, TagOther, TagRange, TagValue,
};
use pdl_dissector::dissector_info::{
    ConstraintDissectorInfo, DeclDissectorInfo, FieldDissectorInfo,
};
use pdl_dissector::error::ErrorKind;
use pdl_dissector::len_info::{BitLen, RuntimeLenInfo};
use pdl_dissector::lower::{get_desc_id, has_count_field, has_size_field, FieldContext};

fn loc(line: usize) -> SourceRange {
    SourceRange {
        file: 0,
        start: SourceLocation { offset: 0, line, column: 0 },
        end: SourceLocation { offset: 0, line, column: 10 },
    }
}

fn field_at(line: usize, size: Size, desc: FieldDesc) -> Field {
    Field { loc: loc(line), size, desc }
}

fn field(desc: FieldDesc) -> Field {
    let size = match &desc {
        FieldDesc::Scalar { width, .. }
        | FieldDesc::Size { width, .. }
        | FieldDesc::FixedScalar { width, .. }
        | FieldDesc::Reserved { width } => Size::Static(*width),
        FieldDesc::Count { width, .. } => Size::Static(*width * 8),
        FieldDesc::Flag { .. } => Size::Static(1),
        FieldDesc::FixedEnum { .. } => Size::Static(8),
        _ => Size::Dynamic,
    };
    field_at(1000, size, desc)
}

fn scalar(id: &str, width: usize) -> Field {
    field(FieldDesc::Scalar { id: id.to_string(), width })
}

fn typedef(id: &str, type_id: &str) -> Field {
    field(FieldDesc::Typedef { id: id.to_string(), type_id: type_id.to_string() })
}

fn array(id: &str, width: Option<usize>, type_id: Option<&str>, size: Option<usize>) -> Field {
    field(FieldDesc::Array {
        id: id.to_string(),
        width,
        type_id: type_id.map(|t| t.to_string()),
        size_modifier: None,
        size,
    })
}

fn decl(desc: DeclDesc) -> Decl {
    Decl { loc: loc(2000), desc }
}

fn packet(id: &str, parent: Option<&str>, constraints: Vec<Constraint>, fields: Vec<Field>) -> Decl {
    decl(DeclDesc::Packet {
        id: id.to_string(),
        constraints,
        fields,
        parent_id: parent.map(|p| p.to_string()),
    })
}

fn structure(id: &str, fields: Vec<Field>) -> Decl {
    decl(DeclDesc::Struct { id: id.to_string(), constraints: vec![], fields, parent_id: None })
}

fn enumeration(id: &str, width: usize, tags: Vec<Tag>) -> Decl {
    decl(DeclDesc::Enum { id: id.to_string(), tags, width })
}

fn value_tag(id: &str, value: usize) -> Tag {
    Tag::Value(TagValue { id: id.to_string(), value })
}

fn tag_constraint(id: &str, tag: &str) -> Constraint {
    Constraint { id: id.to_string(), value: None, tag_id: Some(tag.to_string()) }
}

fn value_constraint(id: &str, value: usize) -> Constraint {
    Constraint { id: id.to_string(), value: Some(value), tag_id: None }
}

fn file(declarations: Vec<Decl>) -> File {
    File { comments: vec![], endianness: EndiannessValue::LittleEndian, declarations }
}

fn coffee() -> File {
    file(vec![
        enumeration(
            "PacketType",
            8,
            vec![
                value_tag("Simple", 0),
                value_tag("Enum", 1),
                value_tag("Group", 2),
                value_tag("Unaligned", 3),
            ],
        ),
        packet("TopLevel", None, vec![], vec![typedef("type", "PacketType"), field(FieldDesc::Body)]),
        packet(
            "SimplePacket",
            Some("TopLevel"),
            vec![tag_constraint("type", "Simple")],
            vec![scalar("scalar_value", 64)],
        ),
        enumeration(
            "CoffeeAddition",
            8,
            vec![
                value_tag("Empty", 0),
                Tag::Range(TagRange {
                    id: "NonAlcoholic".to_string(),
                    lo: 1,
                    hi: 9,
                    tags: vec![TagValue { id: "Vanilla".to_string(), value: 2 }],
                }),
                value_tag("Custom", 22),
                Tag::Other(TagOther { id: "Other".to_string() }),
            ],
        ),
        packet(
            "EnumPacket",
            Some("TopLevel"),
            vec![tag_constraint("type", "Enum")],
            vec![typedef("addition", "CoffeeAddition")],
        ),
        packet(
            "UnalignedPacket",
            Some("TopLevel"),
            vec![tag_constraint("type", "Unaligned")],
            vec![scalar("a", 3), scalar("b", 9), scalar("c", 4), scalar("d", 3), scalar("e", 4)],
        ),
    ])
}

fn lowered(file: &File, index: usize) -> DeclDissectorInfo {
    file.declarations[index].to_dissector_info(file).unwrap()
}

fn error_of(file: &File, index: usize) -> ErrorKind {
    file.declarations[index].to_dissector_info(file).unwrap_err()
}

fn sequence_parts(
    decl: DeclDissectorInfo,
) -> (String, Vec<FieldDissectorInfo>, Vec<DeclDissectorInfo>, Vec<ConstraintDissectorInfo>) {
    match decl {
        DeclDissectorInfo::Sequence { name, fields, children, constraints } => {
            (name, fields, children, constraints)
        }
        other => panic!("not a sequence: {:?}", other),
    }
}

fn fields_of(file: &File, index: usize) -> Vec<FieldDissectorInfo> {
    sequence_parts(lowered(file, index)).1
}

fn only_fields(fields: Vec<Field>) -> Vec<FieldDissectorInfo> {
    let f = file(vec![structure("S", fields)]);
    fields_of(&f, 0)
}

fn only_error(fields: Vec<Field>) -> ErrorKind {
    let f = file(vec![structure("S", fields)]);
    error_of(&f, 0)
}

fn bounded(len: &RuntimeLenInfo) -> (Vec<String>, usize) {
    match len {
        RuntimeLenInfo::Bounded { referenced_fields, constant_factor } => {
            (referenced_fields.clone(), constant_factor.0)
        }
        RuntimeLenInfo::Unbounded => panic!("unbounded"),
    }
}

#[test]
fn simple_scalar_packet() {
    let f = coffee();
    let (name, fields, children, constraints) = sequence_parts(lowered(&f, 2));
    assert_eq!(name, "SimplePacket");
    assert!(children.is_empty());
    assert_eq!(fields.len(), 1);
    match &fields[0] {
        FieldDissectorInfo::Scalar { common, ftype, len, validate_expr, optional_field } => {
            assert_eq!(common.display_name, "scalar_value");
            assert_eq!(common.abbr, "scalar_value");
            assert_eq!(common.bit_offset.0, 0);
            assert_eq!(common.endian, EndiannessValue::LittleEndian);
            assert_eq!(common.comments, None);
            assert_eq!(ftype.0.map(|b| b.0), Some(64));
            assert_eq!(bounded(len), (vec![], 64));
            assert_eq!(*validate_expr, None);
            assert_eq!(*optional_field, None);
        }
        other => panic!("not a scalar: {:?}", other),
    }
    assert!(!fields[0].is_unaligned());
    assert_eq!(constraints.len(), 1);
    match &constraints[0] {
        ConstraintDissectorInfo::EnumMatch { field, enum_type, enum_value } => {
            assert_eq!(field, "type");
            assert_eq!(enum_type, "PacketType");
            assert_eq!(enum_value, "Simple");
        }
        other => panic!("not an enum match: {:?}", other),
    }
}

#[test]
fn enum_declaration_keeps_its_tags() {
    let f = coffee();
    match lowered(&f, 3) {
        DeclDissectorInfo::Enum { name, values, len } => {
            assert_eq!(name, "CoffeeAddition");
            assert_eq!(len.0, 8);
            assert_eq!(values.len(), 4);
            match &values[1] {
                Tag::Range(r) => {
                    assert_eq!(r.id, "NonAlcoholic");
                    assert_eq!((r.lo, r.hi), (1, 9));
                    assert_eq!(r.tags.len(), 1);
                    assert_eq!(r.tags[0].id, "Vanilla");
                    assert_eq!(r.tags[0].value, 2);
                }
                other => panic!("not a range: {:?}", other),
            }
            match &values[3] {
                Tag::Other(o) => assert_eq!(o.id, "Other"),
                other => panic!("not the catch-all: {:?}", other),
            }
        }
        other => panic!("not an enum: {:?}", other),
    }
    let mut table = String::new();
    lowered(&f, 3).write_proto_fields(&mut table);
    assert_eq!(
        table,
        "CoffeeAddition_enum = ProtoEnum:new()\n\
         CoffeeAddition_enum:define(\"Empty\", 0)\n\
         CoffeeAddition_enum:define(\"NonAlcoholic: Vanilla\", 2)\n\
         CoffeeAddition_enum:define(\"NonAlcoholic\", {1, 9})\n\
         CoffeeAddition_enum:define(\"Custom\", 22)\n\
         CoffeeAddition_enum:define(\"Other\", nil)\n"
    );
}

#[test]
fn parent_packet_hands_its_body_to_its_children() {
    let f = coffee();
    let (name, fields, children, constraints) = sequence_parts(lowered(&f, 1));
    assert_eq!(name, "TopLevel");
    assert!(constraints.is_empty());
    assert_eq!(
        children.iter().map(|c| c.name().to_string()).collect::<Vec<_>>(),
        vec!["SimplePacket", "EnumPacket", "UnalignedPacket"]
    );
    assert_eq!(fields.len(), 2);
    match &fields[0] {
        FieldDissectorInfo::Typedef { common, decl, optional_field } => {
            assert_eq!(common.display_name, "type");
            assert_eq!(decl.name(), "PacketType");
            assert_eq!(*optional_field, None);
        }
        other => panic!("not a typedef: {:?}", other),
    }
    match &fields[1] {
        FieldDissectorInfo::Payload { common, ftype, len, children } => {
            assert_eq!(common.display_name, "Body");
            assert_eq!(common.abbr, "_body_");
            assert_eq!(common.bit_offset.0, 0);
            assert!(ftype.0.is_none());
            assert_eq!(bounded(len), (vec!["_body__size".to_string()], 0));
            assert_eq!(*children, vec!["SimplePacket", "EnumPacket", "UnalignedPacket"]);
        }
        other => panic!("not a payload: {:?}", other),
    }
}

#[test]
fn unaligned_fields_carry_the_running_bit_offset() {
    let f = coffee();
    let fields = fields_of(&f, 5);
    assert_eq!(fields.len(), 5);
    let offsets: Vec<usize> = fields.iter().map(|f| f.common().bit_offset.0).collect();
    assert_eq!(offsets, vec![0, 3, 4, 0, 3]);
    assert!(fields.iter().all(|f| f.is_unaligned()));
    let mut absolute = 0;
    for field in &fields {
        assert_eq!(field.common().bit_offset.0, absolute % 8);
        absolute += bounded(&field.len()).1;
    }
    assert_eq!(absolute, 23);
    assert_eq!(bounded(&lowered(&f, 5).decl_len()), (vec![], 23));
}

#[test]
fn the_length_of_a_sequence_is_the_sum_of_its_field_lengths() {
    let f = coffee();
    for index in [1, 2, 4, 5] {
        let decl = lowered(&f, index);
        let mut sum = RuntimeLenInfo::empty();
        for field in sequence_parts(lowered(&f, index)).1 {
            sum.add(&field.len());
        }
        assert_eq!(decl.decl_len().to_lua_expr(), sum.to_lua_expr());
    }
}

#[test]
fn size_and_count_fields() {
    let fields = only_fields(vec![
        field(FieldDesc::Size { field_id: "_payload_".to_string(), width: 8 }),
        field(FieldDesc::Size { field_id: "items".to_string(), width: 16 }),
        field(FieldDesc::Count { field_id: "things".to_string(), width: 1 }),
        field(FieldDesc::Count { field_id: "_payload_".to_string(), width: 2 }),
    ]);
    let seen: Vec<(String, String, usize, Option<usize>)> = fields
        .iter()
        .map(|f| match f {
            FieldDissectorInfo::Scalar { common, ftype, len, .. } => (
                common.display_name.clone(),
                common.abbr.clone(),
                bounded(len).1,
                ftype.0.map(|b| b.0),
            ),
            other => panic!("not a scalar: {:?}", other),
        })
        .collect();
    assert_eq!(
        seen,
        vec![
            ("Size(Payload)".to_string(), "_payload__size".to_string(), 8, Some(8)),
            ("Size(items)".to_string(), "items_size".to_string(), 16, Some(16)),
            ("Count(things)".to_string(), "things_count".to_string(), 8, Some(8)),
            ("Count(Payload)".to_string(), "_payload__count".to_string(), 16, Some(16)),
        ]
    );
}

#[test]
fn payload_with_and_without_size_modifier() {
    let plain = only_fields(vec![field(FieldDesc::Payload { size_modifier: None })]);
    match &plain[0] {
        FieldDissectorInfo::Payload { common, len, children, .. } => {
            assert_eq!(common.display_name, "Payload");
            assert_eq!(common.abbr, "_payload_");
            assert_eq!(bounded(len), (vec!["_payload__size".to_string()], 0));
            assert!(children.is_empty());
        }
        other => panic!("not a payload: {:?}", other),
    }
    let modified =
        only_fields(vec![field(FieldDesc::Payload { size_modifier: Some("+1".to_string()) })]);
    assert_eq!(bounded(&modified[0].len()), (vec!["_payload__size".to_string()], 8));
    assert_eq!(
        modified[0].len().to_lua_expr(),
        "sum_or_nil(8 / 8, field_values[path .. \"._payload__size\"])"
    );
    for bad in ["-1", "*8", "+", "", "x"] {
        assert_eq!(
            only_error(vec![field(FieldDesc::Payload { size_modifier: Some(bad.to_string()) })]),
            ErrorKind::UnsupportedConstruct
        );
    }
    let too_many = format!("+{}", usize::MAX / 8 + 1);
    assert_eq!(
        only_error(vec![field(FieldDesc::Payload { size_modifier: Some(too_many) })]),
        ErrorKind::UnsupportedConstruct
    );
}

#[test]
fn fixed_and_reserved_fields_are_numbered() {
    let f = file(vec![
        enumeration("Kind", 8, vec![value_tag("A", 1)]),
        structure(
            "S",
            vec![
                field(FieldDesc::FixedScalar { width: 8, value: 42 }),
                field(FieldDesc::Reserved { width: 4 }),
                field(FieldDesc::FixedEnum { enum_id: "Kind".to_string(), tag_id: "A".to_string() }),
                field(FieldDesc::Reserved { width: 4 }),
            ],
        ),
    ]);
    let fields = fields_of(&f, 1);
    let seen: Vec<(String, String, Option<String>, usize, usize)> = fields
        .iter()
        .map(|f| match f {
            FieldDissectorInfo::Scalar { common, len, validate_expr, .. } => (
                common.display_name.clone(),
                common.abbr.clone(),
                validate_expr.clone(),
                bounded(len).1,
                common.bit_offset.0,
            ),
            other => panic!("not a scalar: {:?}", other),
        })
        .collect();
    assert_eq!(
        seen,
        vec![
            (
                "Fixed value".to_string(),
                "_fixed_0".to_string(),
                Some("value == 42".to_string()),
                8,
                0
            ),
            ("Reserved".to_string(), "_reserved_0".to_string(), None, 4, 0),
            (
                "Fixed value: A".to_string(),
                "_fixed_1".to_string(),
                Some("Kind_enum:match(\"A\", value)".to_string()),
                8,
                4
            ),
            ("Reserved".to_string(), "_reserved_1".to_string(), None, 4, 4),
        ]
    );
    let mut text = String::new();
    fields[0].write_dissect_fn(&mut text);
    assert!(text.contains("\"Error: Expected `value == 42` where value=\" .. tostring(value)"));
}

#[test]
fn a_flag_opens_the_field_it_names() {
    let f = file(vec![
        structure("Inner", vec![scalar("x", 8)]),
        structure(
            "S",
            vec![
                field(FieldDesc::Flag {
                    id: "has_a".to_string(),
                    optional_field_id: "a".to_string(),
                    set_value: 1,
                }),
                field(FieldDesc::Flag {
                    id: "no_b".to_string(),
                    optional_field_id: "b".to_string(),
                    set_value: 0,
                }),
                scalar("pad", 6),
                scalar("a", 8),
                typedef("b", "Inner"),
                scalar("c", 8),
            ],
        ),
    ]);
    let fields = fields_of(&f, 1);
    assert_eq!(fields.len(), 6);
    match &fields[0] {
        FieldDissectorInfo::Scalar { common, len, optional_field, ftype, .. } => {
            assert_eq!(common.abbr, "has_a");
            assert_eq!(bounded(len), (vec![], 1));
            assert_eq!(ftype.0.map(|b| b.0), Some(1));
            assert_eq!(*optional_field, None);
        }
        other => panic!("not a scalar: {:?}", other),
    }
    assert_eq!(fields[1].common().bit_offset.0, 1);
    assert_eq!(fields[2].common().bit_offset.0, 2);
    match &fields[3] {
        FieldDissectorInfo::Scalar { optional_field, .. } => {
            assert_eq!(*optional_field, Some(("has_a".to_string(), 1)));
        }
        other => panic!("not a scalar: {:?}", other),
    }
    match &fields[4] {
        FieldDissectorInfo::Typedef { optional_field, decl, .. } => {
            assert_eq!(*optional_field, Some(("no_b".to_string(), 0)));
            assert_eq!(decl.name(), "Inner");
        }
        other => panic!("not a typedef: {:?}", other),
    }
    match &fields[5] {
        FieldDissectorInfo::Scalar { optional_field, .. } => assert_eq!(*optional_field, None),
        other => panic!("not a scalar: {:?}", other),
    }
}

#[test]
fn the_flag_recorded_last_decides() {
    let mut ctx = FieldContext::new();
    assert_eq!(ctx.gate(&"a".to_string()), None);
    ctx.record_gate("a".to_string(), "first".to_string(), 1);
    ctx.record_gate("b".to_string(), "other".to_string(), 0);
    ctx.record_gate("a".to_string(), "second".to_string(), 0);
    assert_eq!(ctx.gate(&"a".to_string()), Some(("second".to_string(), 0)));
    assert_eq!(ctx.gate(&"b".to_string()), Some(("other".to_string(), 0)));
    assert_eq!(ctx.gate(&"c".to_string()), None);
}

#[test]
fn arrays_of_scalars_and_of_declared_types() {
    let f = file(vec![
        structure("Item", vec![scalar("x", 8)]),
        structure(
            "S",
            vec![
                scalar("lead", 4),
                field(FieldDesc::Size { field_id: "sized".to_string(), width: 4 }),
                field(FieldDesc::Count { field_id: "counted".to_string(), width: 1 }),
                array("fixed", Some(16), None, Some(3)),
                field(FieldDesc::Array {
                    id: "sized".to_string(),
                    width: None,
                    type_id: Some("Item".to_string()),
                    size_modifier: Some("+2".to_string()),
                    size: None,
                }),
                array("counted", Some(8), None, None),
                array("rest", None, Some("Item"), None),
            ],
        ),
    ]);
    let fields = fields_of(&f, 1);
    assert_eq!(fields.len(), 7);
    match &fields[3] {
        FieldDissectorInfo::ScalarArray { common, ftype, item_len, array_info } => {
            assert_eq!(common.display_name, "fixed");
            assert_eq!(common.abbr, "fixed");
            assert_eq!(common.bit_offset.0, 0);
            assert_eq!(ftype.0.map(|b| b.0), Some(16));
            assert_eq!(item_len.0, 16);
            assert_eq!(array_info.count, Some(3));
            assert_eq!(array_info.size_modifier, None);
            assert_eq!(array_info.pad_to_size, None);
            assert!(!array_info.has_size_field);
            assert!(!array_info.has_count_field);
        }
        other => panic!("not a scalar array: {:?}", other),
    }
    match &fields[4] {
        FieldDissectorInfo::TypedefArray { common, decl, array_info } => {
            assert_eq!(common.abbr, "sized");
            assert_eq!(decl.name(), "Item");
            assert_eq!(array_info.count, None);
            assert_eq!(array_info.size_modifier, Some("+2".to_string()));
            assert!(array_info.has_size_field);
            assert!(!array_info.has_count_field);
        }
        other => panic!("not a typedef array: {:?}", other),
    }
    match &fields[5] {
        FieldDissectorInfo::ScalarArray { array_info, .. } => {
            assert!(array_info.has_count_field);
            assert!(!array_info.has_size_field);
        }
        other => panic!("not a scalar array: {:?}", other),
    }
    match &fields[6] {
        FieldDissectorInfo::TypedefArray { array_info, .. } => {
            assert!(!array_info.has_count_field);
            assert!(!array_info.has_size_field);
            assert_eq!(array_info.count, None);
        }
        other => panic!("not a typedef array: {:?}", other),
    }
    let s = &f.declarations[1];
    assert!(has_size_field(s, &"sized".to_string()));
    assert!(!has_size_field(s, &"counted".to_string()));
    assert!(has_count_field(s, &"counted".to_string()));
    assert!(!has_count_field(s, &"sized".to_string()));
    assert!(!has_size_field(&f.declarations[0], &"x".to_string()));
}

#[test]
fn padding_folds_into_the_array_before_it() {
    let fields = only_fields(vec![
        scalar("head", 8),
        array("items", Some(8), None, None),
        field(FieldDesc::Padding { size: 10 }),
        scalar("tail", 8),
    ]);
    assert_eq!(fields.len(), 3);
    match &fields[1] {
        FieldDissectorInfo::ScalarArray { common, array_info, item_len, .. } => {
            assert_eq!(common.display_name, "items (Padded)");
            assert_eq!(common.abbr, "items");
            assert_eq!(array_info.pad_to_size, Some(10));
            assert_eq!(item_len.0, 8);
        }
        other => panic!("not a scalar array: {:?}", other),
    }
    assert_eq!(fields[0].common().display_name, "head");
    assert_eq!(fields[2].common().display_name, "tail");
    let mut text = String::new();
    fields[1].write_dissect_fn(&mut text);
    assert!(text.contains("\"Error: Expected a minimum of 10 octets in field `items (Padded)`\""));
    let f = file(vec![
        structure("Item", vec![scalar("x", 8)]),
        structure(
            "S",
            vec![array("things", None, Some("Item"), Some(2)), field(FieldDesc::Padding { size: 4 })],
        ),
    ]);
    let fields = fields_of(&f, 1);
    assert_eq!(fields.len(), 1);
    match &fields[0] {
        FieldDissectorInfo::TypedefArray { common, array_info, decl } => {
            assert_eq!(common.display_name, "things (Padded)");
            assert_eq!(array_info.pad_to_size, Some(4));
            assert_eq!(array_info.count, Some(2));
            assert_eq!(decl.name(), "Item");
        }
        other => panic!("not a typedef array: {:?}", other),
    }
}

#[test]
fn padding_after_anything_but_an_array_is_bad_padding() {
    assert_eq!(only_error(vec![field(FieldDesc::Padding { size: 10 })]), ErrorKind::BadPadding);
    assert_eq!(
        only_error(vec![scalar("x", 8), field(FieldDesc::Padding { size: 10 })]),
        ErrorKind::BadPadding
    );
    assert_eq!(
        only_error(vec![
            array("items", Some(8), None, None),
            scalar("x", 8),
            field(FieldDesc::Padding { size: 10 }),
        ]),
        ErrorKind::BadPadding
    );
}

#[test]
fn checksum_start_adds_no_field() {
    let fields = only_fields(vec![
        scalar("a", 8),
        field(FieldDesc::Checksum { field_id: "crc".to_string() }),
        scalar("b", 8),
    ]);
    assert_eq!(fields.len(), 2);
    assert_eq!(fields[1].common().display_name, "b");
}

#[test]
fn a_type_name_without_declaration_is_unresolved() {
    assert_eq!(only_error(vec![typedef("x", "Missing")]), ErrorKind::TypedefUnresolved);
    assert_eq!(
        only_error(vec![array("x", None, Some("Missing"), None)]),
        ErrorKind::TypedefUnresolved
    );
    assert_eq!(
        only_error(vec![field(FieldDesc::FixedEnum {
            enum_id: "Missing".to_string(),
            tag_id: "A".to_string()
        })]),
        ErrorKind::TypedefUnresolved
    );
}

#[test]
fn constructs_without_a_rule_are_unsupported() {
    assert_eq!(
        only_error(vec![field(FieldDesc::ElementSize { field_id: "x".to_string(), width: 8 })]),
        ErrorKind::UnsupportedConstruct
    );
    assert_eq!(
        only_error(vec![field(FieldDesc::Group { group_id: "G".to_string(), constraints: vec![] })]),
        ErrorKind::UnsupportedConstruct
    );
    assert_eq!(only_error(vec![array("x", None, None, None)]), ErrorKind::UnsupportedConstruct);
    assert_eq!(
        only_error(vec![field(FieldDesc::Array {
            id: "x".to_string(),
            width: Some(8),
            type_id: Some("S".to_string()),
            size_modifier: None,
            size: None,
        })]),
        ErrorKind::UnsupportedConstruct
    );
    assert_eq!(
        only_error(vec![field(FieldDesc::Count {
            field_id: "x".to_string(),
            width: usize::MAX / 8 + 1
        })]),
        ErrorKind::UnsupportedConstruct
    );
    let f = file(vec![decl(DeclDesc::Test { type_id: "S".to_string() })]);
    assert_eq!(error_of(&f, 0), ErrorKind::UnsupportedConstruct);
    let f = file(vec![enumeration("Nibble", 4, vec![])]);
    assert_eq!(error_of(&f, 0), ErrorKind::UnsupportedConstruct);
}

#[test]
fn an_array_has_at_most_one_extent() {
    let both = vec![
        field(FieldDesc::Size { field_id: "x".to_string(), width: 8 }),
        field(FieldDesc::Count { field_id: "x".to_string(), width: 1 }),
        array("x", Some(8), None, None),
    ];
    assert_eq!(only_error(both), ErrorKind::UnsupportedConstruct);
    let fixed_and_count = vec![
        field(FieldDesc::Count { field_id: "x".to_string(), width: 1 }),
        array("x", Some(8), None, Some(2)),
    ];
    assert_eq!(only_error(fixed_and_count), ErrorKind::UnsupportedConstruct);
    let fixed_and_size = vec![
        field(FieldDesc::Size { field_id: "x".to_string(), width: 8 }),
        array("x", Some(8), None, Some(2)),
    ];
    assert_eq!(only_error(fixed_and_size), ErrorKind::UnsupportedConstruct);
    let modifier_without_size = vec![field(FieldDesc::Array {
        id: "x".to_string(),
        width: Some(8),
        type_id: None,
        size_modifier: Some("+1".to_string()),
        size: None,
    })];
    assert_eq!(only_error(modifier_without_size), ErrorKind::UnsupportedConstruct);
}

#[test]
fn the_first_field_that_fails_decides_the_error() {
    assert_eq!(
        only_error(vec![
            scalar("a", 8),
            field(FieldDesc::Padding { size: 1 }),
            typedef("x", "Missing"),
        ]),
        ErrorKind::BadPadding
    );
    assert_eq!(
        only_error(vec![
            typedef("x", "Missing"),
            field(FieldDesc::Padding { size: 1 }),
        ]),
        ErrorKind::TypedefUnresolved
    );
}

#[test]
fn lengths_that_do_not_fit_are_unsupported() {
    assert_eq!(
        only_error(vec![scalar("a", usize::MAX), scalar("b", 1)]),
        ErrorKind::UnsupportedConstruct
    );
    let fields = only_fields(vec![scalar("a", usize::MAX - 1), scalar("b", 1)]);
    assert_eq!(fields.len(), 2);
}

#[test]
fn declarations_that_contain_themselves_are_unsupported() {
    let f = file(vec![structure("A", vec![typedef("b", "B")]), structure("B", vec![typedef("a", "A")])]);
    assert_eq!(error_of(&f, 0), ErrorKind::UnsupportedConstruct);
    let f = file(vec![structure("A", vec![typedef("again", "A")])]);
    assert_eq!(error_of(&f, 0), ErrorKind::UnsupportedConstruct);
    let f = file(vec![packet("A", Some("A"), vec![], vec![])]);
    assert_eq!(error_of(&f, 0), ErrorKind::UnsupportedConstruct);
}

#[test]
fn nesting_as_deep_as_the_file_is_long_is_lowered() {
    let f = file(vec![
        structure("A", vec![typedef("b", "B")]),
        structure("B", vec![typedef("c", "C")]),
        structure("C", vec![typedef("d", "D")]),
        structure("D", vec![scalar("x", 8)]),
    ]);
    assert_eq!(bounded(&lowered(&f, 0).decl_len()), (vec![], 8));
    let outside = structure("Outer", vec![typedef("a", "A")]);
    let model = outside.to_dissector_info(&f).unwrap();
    assert_eq!(bounded(&model.decl_len()), (vec![], 8));
}

#[test]
fn checksums_custom_fields_and_groups() {
    let f = file(vec![
        decl(DeclDesc::Checksum { id: "Crc".to_string(), function: "crc".to_string(), width: 16 }),
        decl(DeclDesc::CustomField {
            id: "Custom".to_string(),
            width: Some(24),
            function: "custom".to_string(),
        }),
        decl(DeclDesc::Group { id: "G".to_string(), fields: vec![scalar("x", 8)] }),
        structure("S", vec![typedef("crc", "Crc"), typedef("custom", "Custom")]),
    ]);
    match lowered(&f, 0) {
        DeclDissectorInfo::Checksum { name, len } => {
            assert_eq!(name, "Crc");
            assert_eq!(len.0, 16);
        }
        other => panic!("not a checksum: {:?}", other),
    }
    match lowered(&f, 1) {
        DeclDissectorInfo::Checksum { name, len } => {
            assert_eq!(name, "Custom");
            assert_eq!(len.0, 24);
        }
        other => panic!("not modelled like a checksum: {:?}", other),
    }
    let (name, fields, _, _) = sequence_parts(lowered(&f, 2));
    assert_eq!(name, "G");
    assert_eq!(fields.len(), 1);
    let fields = fields_of(&f, 3);
    assert_eq!(bounded(&fields[0].len()), (vec![], 16));
    assert_eq!(bounded(&fields[1].len()), (vec![], 24));
}

#[test]
fn a_custom_field_without_a_width_is_unsupported() {
    let f = file(vec![
        decl(DeclDesc::CustomField {
            id: "Custom".to_string(),
            width: None,
            function: "custom".to_string(),
        }),
        structure("S", vec![typedef("custom", "Custom")]),
    ]);
    assert_eq!(error_of(&f, 0), ErrorKind::UnsupportedConstruct);
    assert_eq!(error_of(&f, 1), ErrorKind::UnsupportedConstruct);
}

#[test]
fn an_error_leaves_the_context_and_the_field_before_as_they_were() {
    let f = file(vec![structure("S", vec![])]);
    let owner = &f.declarations[0];
    let offset = BitLen(0);
    let mut ctx = FieldContext::new();
    ctx.num_fixed = 4;
    ctx.num_reserved = 2;
    ctx.record_gate("a".to_string(), "has_a".to_string(), 1);
    let mut last = scalar("x", 8)
        .to_dissector_info(&mut ctx, &offset, owner, &f, 0, None)
        .unwrap()
        .unwrap();
    let before = format!("{:?}", last);
    let seen = format!("{:?}", ctx);
    let padding = field(FieldDesc::Padding { size: 7 })
        .to_dissector_info(&mut ctx, &offset, owner, &f, 0, Some(&mut last));
    assert_eq!(padding.unwrap_err(), ErrorKind::BadPadding);
    assert_eq!(format!("{:?}", last), before);
    assert_eq!(format!("{:?}", ctx), seen);
    let missing =
        field(FieldDesc::FixedEnum { enum_id: "Missing".to_string(), tag_id: "A".to_string() })
            .to_dissector_info(&mut ctx, &offset, owner, &f, 0, Some(&mut last));
    assert_eq!(missing.unwrap_err(), ErrorKind::TypedefUnresolved);
    assert_eq!(format!("{:?}", last), before);
    assert_eq!(format!("{:?}", ctx), seen);
    assert_eq!(ctx.num_fixed, 4);
    let alone = field(FieldDesc::Padding { size: 7 })
        .to_dissector_info(&mut ctx, &offset, owner, &f, 0, None);
    assert_eq!(alone.unwrap_err(), ErrorKind::BadPadding);
    assert_eq!(format!("{:?}", ctx), seen);
}

#[test]
fn every_error_has_words() {
    assert_eq!(
        ErrorKind::BadInput.message(),
        "no target was named, or a named target is not declared"
    );
    assert_eq!(
        ErrorKind::UnsupportedConstruct.message(),
        "the description holds a construct that no dissector can be generated for"
    );
    assert_eq!(ErrorKind::BadPadding.message(), "a padding field does not follow an array");
    assert_eq!(ErrorKind::TypedefUnresolved.message(), "a type name stands for no declaration");
}

#[test]
fn field_and_constraint_lists_by_kind_of_declaration() {
    let empty = packet("Empty", None, vec![], vec![]);
    assert_eq!(empty.fields().map(|l| l.len()), Some(0));
    assert_eq!(empty.constraints().map(|l| l.len()), Some(0));
    assert_eq!(structure("S", vec![]).fields().map(|l| l.len()), Some(0));
    assert_eq!(structure("S", vec![]).constraints().map(|l| l.len()), Some(0));
    let group = decl(DeclDesc::Group { id: "G".to_string(), fields: vec![] });
    assert_eq!(group.fields().map(|l| l.len()), Some(0));
    assert!(group.constraints().is_none());
    assert!(enumeration("E", 8, vec![]).fields().is_none());
    assert!(enumeration("E", 8, vec![]).constraints().is_none());
    let custom = decl(DeclDesc::CustomField {
        id: "C".to_string(),
        width: Some(8),
        function: "c".to_string(),
    });
    assert!(custom.fields().is_none());
    assert!(decl(DeclDesc::Test { type_id: "S".to_string() }).fields().is_none());
}

#[test]
fn constraints_on_values_and_tags() {
    let f = coffee();
    let child = &f.declarations[2];
    let by_value = value_constraint("type", 3).to_dissector_info(&f, child).unwrap();
    match by_value {
        ConstraintDissectorInfo::ValueMatch { field, value } => {
            assert_eq!(field, "type");
            assert_eq!(value, 3);
        }
        other => panic!("not a value match: {:?}", other),
    }
    let neither = Constraint { id: "type".to_string(), value: None, tag_id: None };
    assert_eq!(neither.to_dissector_info(&f, child).unwrap_err(), ErrorKind::UnsupportedConstruct);
    let both = Constraint { id: "type".to_string(), value: Some(1), tag_id: Some("A".to_string()) };
    assert_eq!(both.to_dissector_info(&f, child).unwrap_err(), ErrorKind::UnsupportedConstruct);
    let orphan = &f.declarations[1];
    assert_eq!(
        tag_constraint("type", "Simple").to_dissector_info(&f, orphan).unwrap_err(),
        ErrorKind::TypedefUnresolved
    );
    assert_eq!(
        tag_constraint("nothing", "Simple").to_dissector_info(&f, child).unwrap_err(),
        ErrorKind::UnsupportedConstruct
    );
}

#[test]
fn a_tag_constraint_finds_its_enum_in_the_nearest_ancestor() {
    let f = file(vec![
        enumeration("Kind", 8, vec![value_tag("A", 1)]),
        packet("Root", None, vec![], vec![typedef("kind", "Kind"), scalar("plain", 8), field(FieldDesc::Body)]),
        packet("Middle", Some("Root"), vec![], vec![scalar("m", 8), field(FieldDesc::Body)]),
        packet("Leaf", Some("Middle"), vec![tag_constraint("kind", "A")], vec![]),
        packet("Odd", Some("Middle"), vec![tag_constraint("plain", "A")], vec![]),
    ]);
    let (_, _, _, constraints) = sequence_parts(lowered(&f, 3));
    match &constraints[0] {
        ConstraintDissectorInfo::EnumMatch { field, enum_type, enum_value } => {
            assert_eq!((field.as_str(), enum_type.as_str(), enum_value.as_str()), ("kind", "Kind", "A"));
        }
        other => panic!("not an enum match: {:?}", other),
    }
    assert_eq!(error_of(&f, 4), ErrorKind::UnsupportedConstruct);
    assert_eq!(error_of(&f, 1), ErrorKind::UnsupportedConstruct);
}

#[test]
fn comments_on_the_line_of_a_field_are_kept() {
    let mut f = file(vec![structure(
        "S",
        vec![
            field_at(3, Size::Static(8), FieldDesc::Scalar { id: "a".to_string(), width: 8 }),
            field_at(4, Size::Static(8), FieldDesc::Scalar { id: "b".to_string(), width: 8 }),
        ],
    )]);
    f.comments = vec![
        Comment { loc: loc(4), text: "/* the second */".to_string() },
        Comment { loc: loc(9), text: "// far away".to_string() },
    ];
    f.endianness = EndiannessValue::BigEndian;
    let fields = fields_of(&f, 0);
    assert_eq!(fields[0].common().comments, None);
    assert_eq!(fields[1].common().comments, Some("the second".to_string()));
    assert_eq!(fields[1].common().endian, EndiannessValue::BigEndian);
}

#[test]
fn names_of_declarations() {
    let f = coffee();
    assert_eq!(get_desc_id(&f.declarations[0].desc), Some("PacketType".to_string()));
    assert_eq!(get_desc_id(&DeclDesc::Test { type_id: "S".to_string() }), None);
    assert_eq!(f.declarations[2].id().map(|s| s.as_str()), Some("SimplePacket"));
    assert_eq!(f.declarations[2].parent_id().map(|s| s.as_str()), Some("TopLevel"));
    assert_eq!(f.declarations[1].parent_id(), None);
    assert!(f.declarations[2].derives_from(&f.declarations[1]));
    assert!(!f.declarations[1].derives_from(&f.declarations[2]));
    assert_eq!(f.typedef(&"EnumPacket".to_string()).and_then(|d| d.id()).map(|s| s.as_str()), Some("EnumPacket"));
    assert!(f.typedef(&"Nothing".to_string()).is_none());
    assert_eq!(
        f.get_parent(&f.declarations[4]).and_then(|d| d.id()).map(|s| s.as_str()),
        Some("TopLevel")
    );
    assert!(f.get_parent(&f.declarations[1]).is_none());
    assert_eq!(f.declarations[2].fields().map(|l| l.len()), Some(1));
    assert!(f.declarations[0].fields().is_none());
    assert_eq!(f.declarations[2].constraints().map(|l| l.len()), Some(1));
    assert_eq!(f.declarations[2].fields().unwrap()[0].id().map(|s| s.as_str()), Some("scalar_value"));
    assert_eq!(f.declarations[1].fields().unwrap()[1].id(), None);
}

#[test]
fn lowering_one_field_at_a_time() {
    let f = file(vec![structure("S", vec![])]);
    let owner = &f.declarations[0];
    let mut ctx = FieldContext::new();
    let offset = BitLen(5);
    let first = scalar("x", 3)
        .to_dissector_info(&mut ctx, &offset, owner, &f, 0, None)
        .unwrap()
        .unwrap();
    assert_eq!(first.common().bit_offset.0, 5);
    let mut last = array("items", Some(8), None, None)
        .to_dissector_info(&mut ctx, &offset, owner, &f, 0, None)
        .unwrap()
        .unwrap();
    assert_eq!(last.common().bit_offset.0, 0);
    let nothing = field(FieldDesc::Padding { size: 7 })
        .to_dissector_info(&mut ctx, &offset, owner, &f, 0, Some(&mut last))
        .unwrap();
    assert!(nothing.is_none());
    assert_eq!(last.common().display_name, "items (Padded)");
    let fixed = field(FieldDesc::FixedScalar { width: 8, value: 1 })
        .to_dissector_info(&mut ctx, &offset, owner, &f, 0, Some(&mut last))
        .unwrap()
        .unwrap();
    assert_eq!(fixed.common().abbr, "_fixed_0");
    assert_eq!(ctx.num_fixed, 1);
    assert_eq!(last.common().display_name, "items (Padded)");
}
