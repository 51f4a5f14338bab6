use pdl_dissector::ast::Size;
use pdl_dissector::len_info::{BitLen, FType, RuntimeLenInfo};

fn bounded(fields: &[&str], bits: usize) -> RuntimeLenInfo {
    RuntimeLenInfo::Bounded {
        referenced_fields: fields.iter().map(|s| s.to_string()).collect(),
        constant_factor: BitLen(bits),
    }
}

fn parts(len: &RuntimeLenInfo) -> Option<(Vec<String>, usize)> {
    match len {
        RuntimeLenInfo::Bounded { referenced_fields, constant_factor } => {
            Some((referenced_fields.clone(), constant_factor.0))
        }
        RuntimeLenInfo::Unbounded => None,
    }
}

#[test]
fn empty_length_renders_as_zero_sum() {
    assert_eq!(RuntimeLenInfo::empty().to_lua_expr(), "sum_or_nil(0 / 8)");
    assert_eq!(parts(&RuntimeLenInfo::empty()), Some((vec![], 0)));
}

#[test]
fn fixed_length_keeps_its_bits() {
    let len = RuntimeLenInfo::fixed(BitLen(24));
    assert_eq!(parts(&len), Some((vec![], 24)));
    assert_eq!(len.to_lua_expr(), "sum_or_nil(24 / 8)");
}

#[test]
fn unbounded_length_renders_as_nil() {
    assert_eq!(RuntimeLenInfo::Unbounded.to_lua_expr(), "nil");
}

#[test]
fn bounded_length_renders_each_referenced_field() {
    let len = bounded(&["a_size", "b_count"], 16);
    assert_eq!(
        len.to_lua_expr(),
        "sum_or_nil(16 / 8, field_values[path .. \".a_size\"], field_values[path .. \".b_count\"])"
    );
}

#[test]
fn bit_offset_is_the_constant_modulo_eight() {
    assert_eq!(RuntimeLenInfo::fixed(BitLen(0)).bit_offset().0, 0);
    assert_eq!(RuntimeLenInfo::fixed(BitLen(3)).bit_offset().0, 3);
    assert_eq!(RuntimeLenInfo::fixed(BitLen(8)).bit_offset().0, 0);
    assert_eq!(RuntimeLenInfo::fixed(BitLen(19)).bit_offset().0, 3);
    assert_eq!(bounded(&["x"], 12).bit_offset().0, 4);
    assert_eq!(RuntimeLenInfo::Unbounded.bit_offset().0, 0);
}

#[test]
fn add_len_field_appends_the_name_and_adds_the_modifier() {
    let mut len = RuntimeLenInfo::fixed(BitLen(8));
    len.add_len_field("_payload__size".to_string(), BitLen(16));
    assert_eq!(parts(&len), Some((vec!["_payload__size".to_string()], 24)));
    len.add_len_field("other".to_string(), BitLen(0));
    assert_eq!(parts(&len), Some((vec!["_payload__size".to_string(), "other".to_string()], 24)));
}

#[test]
fn add_len_field_leaves_unbounded_alone() {
    let mut len = RuntimeLenInfo::Unbounded;
    len.add_len_field("x".to_string(), BitLen(8));
    assert_eq!(parts(&len), None);
}

#[test]
fn add_concatenates_references_and_sums_constants() {
    let mut len = bounded(&["a"], 3);
    len.add(&bounded(&["b", "c"], 9));
    assert_eq!(
        parts(&len),
        Some((vec!["a".to_string(), "b".to_string(), "c".to_string()], 12))
    );
}

#[test]
fn add_with_unbounded_on_either_side_is_unbounded() {
    let mut left = bounded(&["a"], 3);
    left.add(&RuntimeLenInfo::Unbounded);
    assert_eq!(parts(&left), None);
    let mut right = RuntimeLenInfo::Unbounded;
    right.add(&bounded(&["a"], 3));
    assert_eq!(parts(&right), None);
}

#[test]
fn add_is_associative_and_empty_is_neutral_on_examples() {
    let a = bounded(&["a"], 1);
    let b = bounded(&["b"], 2);
    let c = bounded(&[], 4);
    let mut left = a.duplicate();
    left.add(&b);
    left.add(&c);
    let mut bc = b.duplicate();
    bc.add(&c);
    let mut right = a.duplicate();
    right.add(&bc);
    assert_eq!(parts(&left), parts(&right));
    let mut with_empty = a.duplicate();
    with_empty.add(&RuntimeLenInfo::empty());
    assert_eq!(parts(&with_empty), parts(&a));
    let mut from_empty = RuntimeLenInfo::empty();
    from_empty.add(&a);
    assert_eq!(parts(&from_empty), parts(&a));
}

#[test]
fn try_add_refuses_a_sum_that_does_not_fit() {
    let mut len = RuntimeLenInfo::fixed(BitLen(usize::MAX));
    assert!(!len.try_add(&RuntimeLenInfo::fixed(BitLen(1))));
    assert_eq!(parts(&len), Some((vec![], usize::MAX)));
    assert!(len.try_add(&RuntimeLenInfo::Unbounded));
    assert_eq!(parts(&len), None);
    let mut small = RuntimeLenInfo::fixed(BitLen(1));
    assert!(small.try_add(&RuntimeLenInfo::fixed(BitLen(2))));
    assert_eq!(parts(&small), Some((vec![], 3)));
}

#[test]
fn length_from_size() {
    assert_eq!(parts(&RuntimeLenInfo::from_size(Size::Static(7))), Some((vec![], 7)));
    assert_eq!(parts(&RuntimeLenInfo::from_size(Size::Dynamic)), None);
    assert_eq!(parts(&RuntimeLenInfo::from_size(Size::Unknown)), None);
}

#[test]
fn bit_len_default_and_text() {
    assert_eq!(BitLen::default().0, 0);
    assert_eq!(BitLen(1234).to_text(), "1234");
}

#[test]
fn field_type_tokens_follow_the_width_ranges() {
    let cases = [
        (0, "ftypes.BYTES"),
        (1, "ftypes.UINT8"),
        (8, "ftypes.UINT8"),
        (9, "ftypes.UINT16"),
        (16, "ftypes.UINT16"),
        (17, "ftypes.UINT24"),
        (24, "ftypes.UINT24"),
        (25, "ftypes.UINT32"),
        (32, "ftypes.UINT32"),
        (33, "ftypes.UINT64"),
        (64, "ftypes.UINT64"),
        (65, "ftypes.BYTES"),
    ];
    for (bits, token) in cases {
        assert_eq!(FType(Some(BitLen(bits))).to_lua_expr(), token);
    }
    assert_eq!(FType(None).to_lua_expr(), "ftypes.BYTES");
}

#[test]
fn field_type_widths_follow_the_width_ranges() {
    let cases = [
        (0, None),
        (1, Some(8)),
        (8, Some(8)),
        (9, Some(16)),
        (16, Some(16)),
        (17, Some(24)),
        (24, Some(24)),
        (25, Some(32)),
        (32, Some(32)),
        (33, Some(64)),
        (64, Some(64)),
        (65, None),
    ];
    for (bits, width) in cases {
        assert_eq!(FType(Some(BitLen(bits))).to_type_len(), width);
    }
    assert_eq!(FType(None).to_type_len(), None);
}

#[test]
fn field_type_from_size() {
    assert_eq!(FType::from(Size::Static(12)).0.map(|b| b.0), Some(12));
    assert!(FType::from(Size::Dynamic).0.is_none());
    assert!(FType::from_size(Size::Unknown).0.is_none());
    assert_eq!(FType(Some(BitLen(12))).bitlen_text(), "12");
    assert_eq!(FType(None).bitlen_text(), "nil");
}
