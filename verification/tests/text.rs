use pdl_dissector::comments::{find_comments_on_same_line, unwrap_comment, ToLuaExpr};
use pdl_dissector::ast::{Comment, EndiannessValue, File, SourceLocation, SourceRange};
use pdl_dissector::len_info::{BitLen, RuntimeLenInfo};
use pdl_dissector::text::{
    bool_text, decimal_text, escaped_text, join2, join3, parse_usize, quoted_text,
};
use pdl_dissector::utils::{buffer_value_lua_function, lua_if_then_else};

#[test]
fn decimal_numerals() {
    assert_eq!(decimal_text(0), "0");
    assert_eq!(decimal_text(7), "7");
    assert_eq!(decimal_text(10), "10");
    assert_eq!(decimal_text(1311768465173141112), "1311768465173141112");
    assert_eq!(decimal_text(usize::MAX), usize::MAX.to_string());
}

#[test]
fn booleans_quotes_and_joins() {
    assert_eq!(bool_text(true), "true");
    assert_eq!(bool_text(false), "false");
    assert_eq!(quoted_text("a b"), "\"a b\"");
    assert_eq!(join2("ab", "cd"), "abcd");
    assert_eq!(join3("Size(", "x", ")"), "Size(x)");
}

#[test]
fn escaping_doubles_backslashes_and_protects_quotes() {
    assert_eq!(escaped_text("value == 42"), "value == 42");
    assert_eq!(escaped_text("E_enum:match(\"A\", value)"), "E_enum:match(\\\"A\\\", value)");
    assert_eq!(escaped_text("a\\b"), "a\\\\b");
    assert_eq!(escaped_text("\\\""), "\\\\\\\"");
    assert_eq!(escaped_text(""), "");
    assert_eq!(escaped_text("é\"ü"), "é\\\"ü");
}

#[test]
fn numbers_are_read_like_unsigned_integers() {
    assert_eq!(parse_usize("0"), Some(0));
    assert_eq!(parse_usize("+1"), Some(1));
    assert_eq!(parse_usize("0012"), Some(12));
    assert_eq!(parse_usize("+"), None);
    assert_eq!(parse_usize(""), None);
    assert_eq!(parse_usize("-1"), None);
    assert_eq!(parse_usize("*8"), None);
    assert_eq!(parse_usize("1+1"), None);
    assert_eq!(parse_usize(" 1"), None);
    assert_eq!(parse_usize("1_0"), None);
    assert_eq!(parse_usize("++1"), None);
    assert_eq!(parse_usize(&usize::MAX.to_string()), Some(usize::MAX));
    assert_eq!(parse_usize(&format!("{}0", usize::MAX)), None);
    assert_eq!(parse_usize("99999999999999999999999999"), None);
    for text in ["0", "+1", "0012", "+", "", "-1", "18446744073709551615", "18446744073709551616"] {
        assert_eq!(parse_usize(text), text.parse::<usize>().ok());
    }
}

#[test]
fn comments_lose_their_delimiters_and_surrounding_space() {
    assert_eq!(unwrap_comment("// hello "), "hello");
    assert_eq!(unwrap_comment("//hello"), "hello");
    assert_eq!(unwrap_comment("/* a block */"), "a block");
    assert_eq!(unwrap_comment("/**/"), "");
    assert_eq!(unwrap_comment("/* two\n lines \t*/"), "two\n lines");
    assert_eq!(unwrap_comment("//"), "");
    assert_eq!(unwrap_comment("// \u{2003}wide\u{3000}"), "wide");
}

#[test]
fn text_that_is_no_comment_unwraps_to_nothing() {
    assert_eq!(unwrap_comment(""), "");
    assert_eq!(unwrap_comment("/"), "");
    assert_eq!(unwrap_comment("hello"), "");
    assert_eq!(unwrap_comment("/* open"), "");
    assert_eq!(unwrap_comment("/*/"), "");
    assert_eq!(unwrap_comment(" // late"), "");
}

#[test]
fn a_block_comment_that_is_not_closed_is_not_a_line_comment() {
    assert_eq!(unwrap_comment("/*/ x"), "");
    assert_eq!(unwrap_comment("//* x */"), "* x */");
}

fn at(line: usize) -> SourceLocation {
    SourceLocation { offset: line * 100, line, column: 0 }
}

fn range(file: usize, start: usize, end: usize) -> SourceRange {
    SourceRange { file, start: at(start), end: at(end) }
}

#[test]
fn the_comment_that_ends_on_the_last_line_of_the_range_is_found() {
    let file = File {
        comments: vec![
            Comment { loc: range(0, 1, 1), text: "// first".to_string() },
            Comment { loc: range(1, 4, 4), text: "// other file".to_string() },
            Comment { loc: range(0, 3, 4), text: "/* block */".to_string() },
            Comment { loc: range(0, 4, 4), text: "// second on line".to_string() },
        ],
        endianness: EndiannessValue::LittleEndian,
        declarations: vec![],
    };
    let found = find_comments_on_same_line(&file, &range(0, 2, 4));
    assert_eq!(found.map(|c| c.text.as_str()), Some("/* block */"));
    let found = find_comments_on_same_line(&file, &range(0, 0, 1));
    assert_eq!(found.map(|c| c.text.as_str()), Some("// first"));
    assert!(find_comments_on_same_line(&file, &range(0, 0, 2)).is_none());
    assert!(find_comments_on_same_line(&file, &range(2, 0, 1)).is_none());
}

#[test]
fn optional_text_as_expression() {
    assert_eq!(Some("note").to_lua_expr(), "\"note\"");
    assert_eq!(None::<&str>.to_lua_expr(), "nil");
}

#[test]
fn buffer_accessor_by_byte_order_and_width() {
    let fixed = |bits| RuntimeLenInfo::fixed(BitLen(bits));
    assert_eq!(buffer_value_lua_function(EndiannessValue::LittleEndian, &fixed(8)), "le_uint()");
    assert_eq!(buffer_value_lua_function(EndiannessValue::LittleEndian, &fixed(32)), "le_uint()");
    assert_eq!(buffer_value_lua_function(EndiannessValue::LittleEndian, &fixed(33)), "le_uint64()");
    assert_eq!(buffer_value_lua_function(EndiannessValue::BigEndian, &fixed(32)), "uint()");
    assert_eq!(buffer_value_lua_function(EndiannessValue::BigEndian, &fixed(64)), "uint64()");
    let mut referenced = fixed(8);
    referenced.add_len_field("x".to_string(), BitLen(0));
    assert_eq!(buffer_value_lua_function(EndiannessValue::BigEndian, &referenced), "raw()");
    assert_eq!(
        buffer_value_lua_function(EndiannessValue::LittleEndian, &RuntimeLenInfo::Unbounded),
        "raw()"
    );
}

fn chain(branches: &[(&str, &str)], default: Option<&str>) -> String {
    let branches: Vec<(String, String)> =
        branches.iter().map(|(c, b)| (c.to_string(), b.to_string())).collect();
    let mut out = String::from("-- before\n");
    lua_if_then_else(&mut out, &branches, default);
    out
}

#[test]
fn an_empty_chain_is_its_default() {
    assert_eq!(chain(&[], Some("x = 1\n")), "-- before\nx = 1\n");
    assert_eq!(chain(&[], None), "-- before\n");
}

#[test]
fn a_chain_indents_each_body() {
    assert_eq!(
        chain(&[("a", "x = 1\ny = 2\n")], None),
        "-- before\nif a then\n    x = 1\n    y = 2\nend\n"
    );
    assert_eq!(
        chain(&[("a", "x = 1\n"), ("b", "x = 2\n"), ("c", "x = 3\n")], Some("x = 4\n")),
        "-- before\nif a then\n    x = 1\nelseif b then\n    x = 2\nelseif c then\n    x = 3\nelse\n    x = 4\nend\n"
    );
}

#[test]
fn indentation_skips_empty_lines() {
    assert_eq!(
        chain(&[("a", "x = 1\n\n\ny = 2")], None),
        "-- before\nif a then\n    x = 1\n\n\n    y = 2end\n"
    );
    assert_eq!(chain(&[("a", "")], None), "-- before\nif a then\nend\n");
    assert_eq!(chain(&[("a", "\nx\n")], None), "-- before\nif a then\n\n    x\nend\n");
}
