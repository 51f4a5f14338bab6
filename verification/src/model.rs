//! The dissector model: what the generator knows about each declaration and
//! field once the description has been lowered, and before any text is
//! written.

use vstd::prelude::*;
use crate::ast::EndiannessValue;
use crate::len_info::RuntimeLen;
use crate::text::decimal;

verus! {

/// A condition on a field value of the parent declaration.
pub enum ConstraintModel {
    EnumMatch { field: Seq<char>, enum_type: Seq<char>, enum_value: Seq<char> },
    ValueMatch { field: Seq<char>, value: nat },
}

/// What all kinds of field have in common.
pub struct CommonField {
    /// The name shown in the dissection tree.
    pub display_name: Seq<char>,
    /// The name used in filters and in lookups of field values.
    pub abbr: Seq<char>,
    /// The offset of the field's first bit within its octet.
    pub bit_offset: nat,
    pub endian: EndiannessValue,
    /// The text of the comment on the field's line, if there is one.
    pub comments: Option<Seq<char>>,
}

/// What is known about the extent of an array field.
pub struct ArrayAttrs {
    /// The fixed number of items, if the array has one.
    pub count: Option<nat>,
    /// Script text that is added to the value of the size field.
    pub size_modifier: Option<Seq<char>>,
    /// The least number of octets the array must fill.
    pub pad_to_size: Option<nat>,
    pub has_size_sibling: bool,
    pub has_count_sibling: bool,
}

pub enum TagModel {
    Value { name: Seq<char>, value: nat },
    Range { name: Seq<char>, lo: nat, hi: nat, tags: Seq<(Seq<char>, nat)> },
    Other { name: Seq<char> },
}

pub enum FieldModel {
    Scalar {
        common: CommonField,
        ftype: Option<nat>,
        len: RuntimeLen,
        validate: Option<Seq<char>>,
        optional_gate: Option<(Seq<char>, nat)>,
    },
    Payload { common: CommonField, ftype: Option<nat>, len: RuntimeLen, children: Seq<Seq<char>> },
    Typedef { common: CommonField, decl: Box<DeclModel>, optional_gate: Option<(Seq<char>, nat)> },
    TypedefArray { common: CommonField, decl: Box<DeclModel>, attrs: ArrayAttrs },
    ScalarArray { common: CommonField, ftype: Option<nat>, item_bits: nat, attrs: ArrayAttrs },
}

pub enum DeclModel {
    Sequence {
        name: Seq<char>,
        fields: Seq<FieldModel>,
        children: Seq<DeclModel>,
        constraints: Seq<ConstraintModel>,
    },
    Enum { name: Seq<char>, tags: Seq<TagModel>, len: nat },
    Checksum { name: Seq<char>, len: nat },
}

impl ArrayAttrs {
    /// An array has at most one of a fixed count, a count field and a size
    /// field, and a size modifier only together with a size field.
    pub open spec fn wf(self) -> bool {
        &&& self.size_modifier is Some ==> self.has_size_sibling
        &&& self.count is Some ==> !self.has_count_sibling
        &&& !((self.count is Some || self.has_count_sibling) && self.has_size_sibling)
    }
}

/// The sum of the lengths of the first `n` fields of `fields`.
pub open spec fn sum_len(fields: Seq<FieldModel>, n: nat) -> RuntimeLen
    decreases fields, n,
{
    if n == 0 || n > fields.len() {
        RuntimeLen::empty()
    } else {
        sum_len(fields, (n - 1) as nat).plus(fields[n - 1].len())
    }
}

impl FieldModel {
    pub open spec fn common(self) -> CommonField {
        match self {
            FieldModel::Scalar { common, .. } => common,
            FieldModel::Payload { common, .. } => common,
            FieldModel::Typedef { common, .. } => common,
            FieldModel::TypedefArray { common, .. } => common,
            FieldModel::ScalarArray { common, .. } => common,
        }
    }

    /// The length of the field; for an array, of one item.
    pub open spec fn len(self) -> RuntimeLen
        decreases self,
    {
        match self {
            FieldModel::Scalar { len, .. } => len,
            FieldModel::Payload { len, .. } => len,
            FieldModel::Typedef { decl, .. } => decl.decl_len(),
            FieldModel::TypedefArray { decl, .. } => decl.decl_len(),
            FieldModel::ScalarArray { item_bits, .. } => RuntimeLen::fixed(item_bits),
        }
    }

    /// Whether the field must be read bit by bit: it has a width of its
    /// own, and it starts inside an octet or its width is no whole number
    /// of octets. A field of a declared type has no width of its own.
    pub open spec fn is_unaligned(self) -> bool {
        match self {
            FieldModel::Scalar { common, ftype, .. } => unaligned(common.bit_offset, ftype),
            FieldModel::Payload { common, ftype, .. } => unaligned(common.bit_offset, ftype),
            FieldModel::ScalarArray { common, ftype, .. } => unaligned(common.bit_offset, ftype),
            _ => false,
        }
    }

    /// The lengths of all declarations inside the field can be computed,
    /// and its array attributes are consistent.
    pub open spec fn wf(self) -> bool
        decreases self,
    {
        match self {
            FieldModel::Scalar { len, .. } => len.fits(),
            FieldModel::Payload { len, .. } => len.fits(),
            FieldModel::Typedef { decl, .. } => decl.wf(),
            FieldModel::TypedefArray { decl, attrs, .. } => decl.wf() && attrs.wf(),
            FieldModel::ScalarArray { attrs, item_bits, .. } => attrs.wf() && item_bits
                <= usize::MAX,
        }
    }

    /// One line that names the kind of the field and what it shows as.
    pub open spec fn comment(self) -> Seq<char> {
        match self {
            FieldModel::Scalar { common, .. } => "Scalar: "@ + common.display_name,
            FieldModel::Payload { common, .. } => "Payload: "@ + common.display_name,
            FieldModel::Typedef { common, .. } => "Typedef: "@ + common.display_name,
            FieldModel::TypedefArray { common, .. } => "TypedefArray: "@ + common.display_name,
            FieldModel::ScalarArray { common, .. } => "ScalarArray: "@ + common.display_name,
        }
    }
}

/// Whether a value of width `ftype` at bit offset `bit_offset` must be read
/// bit by bit.
pub open spec fn unaligned(bit_offset: nat, ftype: Option<nat>) -> bool {
    bit_offset % 8 != 0 || match ftype {
        Some(bits) => bits % 8 != 0,
        None => false,
    }
}

impl DeclModel {
    pub open spec fn name(self) -> Seq<char> {
        match self {
            DeclModel::Sequence { name, .. } => name,
            DeclModel::Enum { name, .. } => name,
            DeclModel::Checksum { name, .. } => name,
        }
    }

    /// The length of the declaration: for a sequence the sum of the
    /// lengths of its fields, else the declared width.
    pub open spec fn decl_len(self) -> RuntimeLen
        decreases self,
    {
        match self {
            DeclModel::Sequence { fields, .. } => sum_len(fields, fields.len()),
            DeclModel::Enum { len, .. } => RuntimeLen::fixed(len),
            DeclModel::Checksum { len, .. } => RuntimeLen::fixed(len),
        }
    }

    /// Every field and child is well formed, and the sum of the lengths of
    /// any number of leading fields can be computed.
    pub open spec fn wf(self) -> bool
        decreases self,
    {
        match self {
            DeclModel::Sequence { fields, children, .. } => {
                &&& forall|i: int| 0 <= i < fields.len() ==> (#[trigger] fields[i]).wf()
                &&& forall|i: int| 0 <= i < children.len() ==> (#[trigger] children[i]).wf()
                &&& forall|n: nat| n <= fields.len() ==> (#[trigger] sum_len(fields, n)).fits()
            },
            DeclModel::Enum { len, .. } => len <= usize::MAX,
            DeclModel::Checksum { len, .. } => len <= usize::MAX,
        }
    }

    /// One line that sums up a sequence: its name and how many fields,
    /// children and constraints it has.
    pub open spec fn summary(self) -> Seq<char>
        recommends
            self is Sequence,
    {
        match self {
            DeclModel::Sequence { name, fields, children, constraints } => "Sequence: "@ + name
                + " ("@ + decimal(fields.len()) + " fields, "@ + decimal(
                children.len(),
            ) + " children, "@ + decimal(constraints.len()) + " constraints)"@,
            _ => Seq::empty(),
        }
    }
}

} // verus!
