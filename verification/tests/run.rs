use pdl_dissector::ast::{
    Constraint, Decl, DeclDesc, EndiannessValue, Field, FieldDesc, File, Size, SourceLocation,
    SourceRange, Tag, TagValue,
};
use pdl_dissector::driver::generate_for_decl;
use pdl_dissector::error::ErrorKind;
use pdl_dissector::{run, Args};
use std::path::PathBuf;

fn loc() -> SourceRange {
    let at = SourceLocation { offset: 0, line: 0, column: 0 };
    SourceRange { file: 0, start: at, end: at }
}

fn scalar(id: &str, width: usize) -> Field {
    Field {
        loc: loc(),
        size: Size::Static(width),
        desc: FieldDesc::Scalar { id: id.to_string(), width },
    }
}

fn typedef(id: &str, type_id: &str) -> Field {
    Field {
        loc: loc(),
        size: Size::Dynamic,
        desc: FieldDesc::Typedef { id: id.to_string(), type_id: type_id.to_string() },
    }
}

fn packet(id: &str, parent: Option<&str>, constraints: Vec<Constraint>, fields: Vec<Field>) -> Decl {
    Decl {
        loc: loc(),
        desc: DeclDesc::Packet {
            id: id.to_string(),
            constraints,
            fields,
            parent_id: parent.map(|p| p.to_string()),
        },
    }
}

fn structure(id: &str, fields: Vec<Field>) -> Decl {
    Decl {
        loc: loc(),
        desc: DeclDesc::Struct { id: id.to_string(), constraints: vec![], fields, parent_id: None },
    }
}

fn kind_enum() -> Decl {
    Decl {
        loc: loc(),
        desc: DeclDesc::Enum {
            id: "Kind".to_string(),
            tags: vec![Tag::Value(TagValue { id: "A".to_string(), value: 1 })],
            width: 8,
        },
    }
}

fn file(declarations: Vec<Decl>) -> File {
    File { comments: vec![], endianness: EndiannessValue::BigEndian, declarations }
}

fn args(targets: &[&str]) -> Args {
    Args {
        pdl_file: PathBuf::from("unused.pdl"),
        target_packets: targets.iter().map(|t| t.to_string()).collect(),
    }
}

fn lines(parts: &[&str]) -> String {
    let mut text = parts.join("\n");
    text.push('\n');
    text
}

const PRELUDE: &str = "-- prelude\n";

fn kind_block() -> String {
    lines(&[r#"Kind_enum = ProtoEnum:new()"#, r#"Kind_enum:define("A", 1)"#])
}

fn block(name: &str, field: &str) -> String {
    lines(&[
        &format!("function {name}_protocol_fields(fields, path)"),
        &format!("    fields[path .. \".{field}\"] = AlignedProtoField:new({{"),
        &format!("        name = \"{field}\","),
        &format!("        abbr = path .. \".{field}\","),
        "        ftype = ftypes.UINT8,",
        "        bitlen = 8,",
        "        is_little_endian = false,",
        "        description = nil,",
        "    })",
        "end",
        &format!("-- Sequence: {name} (1 fields, 0 children, 0 constraints)"),
        &format!("function {name}_dissect(buffer, pinfo, tree, fields, path)"),
        "    local i = 0",
        "    local field_values = {}",
        &format!("    -- Scalar: {field}"),
        "    local field_len = enforce_len_limit(sum_or_nil(8 / 8), buffer(i):len(), tree)",
        &format!("    subtree, field_values[path .. \".{field}\"], bitlen = fields[path .. \".{field}\"]:dissect(tree, buffer(i), field_len)"),
        "    i = i + bitlen / 8",
        "    return i",
        "end",
        &format!("function {name}_match_constraints(field_values, path)"),
        "    return true",
        "end",
    ])
}

fn registration(name: &str) -> String {
    lines(&[
        &format!("-- Protocol definition for \"{name}\""),
        &format!("{name}_protocol = Proto(\"{name}\",  \"{name}\")"),
        &format!("{name}_protocol_fields_table = {{}}"),
        &format!("function {name}_protocol.dissector(buffer, pinfo, tree)"),
        &format!("    pinfo.cols.protocol = \"{name}\""),
        &format!("    local subtree = tree:add({name}_protocol, buffer(), \"{name}\")"),
        &format!("    local i = {name}_dissect(buffer, pinfo, subtree, {name}_protocol_fields_table, \"{name}\")"),
        "    if buffer(i):len() > 0 then",
        "        local remaining_bytes = buffer:len() - i",
        "        if math.floor(remaining_bytes) == remaining_bytes then",
        "            subtree:add_expert_info(PI_MALFORMED, PI_WARN, \"Error: \" .. remaining_bytes .. \" undissected bytes remaining\")",
        "        else",
        "            subtree:add_expert_info(PI_MALFORMED, PI_WARN, \"Error: \" .. (remaining_bytes * 8) .. \" undissected bits remaining\")",
        "        end",
        "    end",
        "end",
        &format!("{name}_protocol_fields({name}_protocol_fields_table, \"{name}\")"),
        &format!("for name,field in pairs({name}_protocol_fields_table) do"),
        &format!("    {name}_protocol.fields[name] = field.field"),
        "end",
    ])
}

fn three() -> File {
    file(vec![
        kind_enum(),
        packet("First", None, vec![], vec![scalar("x", 8)]),
        structure("Second", vec![scalar("y", 8)]),
        packet("Third", None, vec![], vec![scalar("z", 8)]),
    ])
}

fn all_blocks() -> String {
    [kind_block(), block("First", "x"), block("Second", "y"), block("Third", "z")].concat()
}

#[test]
fn one_target_gets_every_block_and_its_registration() {
    let out = run(&args(&["Third"]), &three(), PRELUDE).unwrap();
    assert_eq!(out, [PRELUDE.to_string(), all_blocks(), registration("Third")].concat());
}

#[test]
fn a_struct_can_be_a_target() {
    let out = run(&args(&["Second"]), &three(), PRELUDE).unwrap();
    assert_eq!(out, [PRELUDE.to_string(), all_blocks(), registration("Second")].concat());
}

#[test]
fn the_all_target_registers_every_packet() {
    let out = run(&args(&["_all_"]), &three(), PRELUDE).unwrap();
    assert_eq!(
        out,
        [PRELUDE.to_string(), all_blocks(), registration("First"), registration("Third")].concat()
    );
}

#[test]
fn targets_are_handled_in_argument_order() {
    let out = run(&args(&["Third", "First"]), &three(), "").unwrap();
    assert_eq!(
        out,
        [all_blocks(), registration("Third"), all_blocks(), registration("First")].concat()
    );
}

#[test]
fn no_target_is_bad_input() {
    assert_eq!(run(&args(&[]), &three(), PRELUDE).unwrap_err(), ErrorKind::BadInput);
}

#[test]
fn a_target_that_is_not_declared_is_bad_input() {
    assert_eq!(run(&args(&["Fourth"]), &three(), PRELUDE).unwrap_err(), ErrorKind::BadInput);
    assert_eq!(run(&args(&["First", "Fourth"]), &three(), PRELUDE).unwrap_err(), ErrorKind::BadInput);
    assert_eq!(run(&args(&["_all_"]), &file(vec![]), PRELUDE).unwrap(), PRELUDE);
}

#[test]
fn an_enum_cannot_be_a_protocol() {
    assert_eq!(
        run(&args(&["Kind"]), &three(), PRELUDE).unwrap_err(),
        ErrorKind::UnsupportedConstruct
    );
}

#[test]
fn a_declaration_that_cannot_be_lowered_fails_every_target() {
    let f = file(vec![
        packet("Good", None, vec![], vec![scalar("x", 8)]),
        structure("Bad", vec![typedef("t", "Missing")]),
    ]);
    assert_eq!(run(&args(&["Good"]), &f, PRELUDE).unwrap_err(), ErrorKind::TypedefUnresolved);
    assert_eq!(run(&args(&["Nothing"]), &f, PRELUDE).unwrap_err(), ErrorKind::TypedefUnresolved);
}

#[test]
fn generating_twice_gives_the_same_text() {
    let first = run(&args(&["_all_", "Second"]), &three(), PRELUDE).unwrap();
    let second = run(&args(&["_all_", "Second"]), &three(), PRELUDE).unwrap();
    assert_eq!(first, second);
}

#[test]
fn unrelated_neighbours_can_change_places() {
    let swapped = file(vec![
        kind_enum(),
        structure("Second", vec![scalar("y", 8)]),
        packet("First", None, vec![], vec![scalar("x", 8)]),
        packet("Third", None, vec![], vec![scalar("z", 8)]),
    ]);
    let out = run(&args(&["Third"]), &swapped, PRELUDE).unwrap();
    assert_eq!(
        out,
        [
            PRELUDE.to_string(),
            kind_block(),
            block("Second", "y"),
            block("First", "x"),
            block("Third", "z"),
            registration("Third"),
        ]
        .concat()
    );
}

#[test]
fn registration_of_one_declaration() {
    let f = three();
    let mut out = String::from("kept\n");
    assert_eq!(generate_for_decl("Renamed", &f.declarations[1], &f, &mut out), Ok(()));
    assert!(out.starts_with("kept\n-- Protocol definition for \"Renamed\"\nRenamed_protocol = Proto(\"Renamed\",  \"Renamed\")\nFirst_protocol_fields_table = {}\n"));
    let mut out = String::from("kept\n");
    assert_eq!(
        generate_for_decl("Kind", &f.declarations[0], &f, &mut out),
        Err(ErrorKind::UnsupportedConstruct)
    );
    assert_eq!(out, "kept\n");
}

#[test]
fn children_are_dispatched_by_their_constraints() {
    let f = file(vec![
        kind_enum(),
        packet(
            "Parent",
            None,
            vec![],
            vec![
                typedef("kind", "Kind"),
                Field { loc: loc(), size: Size::Dynamic, desc: FieldDesc::Body },
            ],
        ),
        packet(
            "Child",
            Some("Parent"),
            vec![Constraint { id: "kind".to_string(), value: None, tag_id: Some("A".to_string()) }],
            vec![scalar("x", 8)],
        ),
    ]);
    let out = run(&args(&["Parent"]), &f, "").unwrap();
    assert!(out.contains("    Child_protocol_fields(fields, path .. \".Child\")\n"));
    assert!(out.contains("    if Child_match_constraints(field_values, path) then\n"));
    assert!(out.contains(
        "function Child_match_constraints(field_values, path)\n    return Kind_enum:match(\"A\", field_values[path .. \".kind\"])\nend\n"
    ));
    assert!(out.contains("-- Sequence: Parent (2 fields, 1 children, 0 constraints)\n"));
    assert!(out.ends_with("    Parent_protocol.fields[name] = field.field\nend\n"));
}
