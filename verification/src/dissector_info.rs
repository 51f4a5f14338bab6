//! The executable form of the dissector model, with the view of each type
//! and the queries the emitters ask of it.

use vstd::prelude::*;
use crate::ast::{EndiannessValue, Tag, TagValue};
use crate::len_info::{BitLen, FType, RuntimeLenInfo, names_view};
use crate::model::{
    ArrayAttrs,
    CommonField,
    ConstraintModel,
    DeclModel,
    FieldModel,
    TagModel,
    sum_len,
    unaligned,
};
use crate::text::decimal_text;

verus! {

#[derive(Debug, Clone)]
pub enum ConstraintDissectorInfo {
    EnumMatch { field: String, enum_type: String, enum_value: String },
    ValueMatch { field: String, value: usize },
}

#[derive(Debug, Clone)]
pub struct CommonFieldDissectorInfo {
    /// Actual name of the field (the string that appears in the tree).
    pub display_name: String,
    /// Filter name of the field (the string that is used in filters).
    pub abbr: String,
    pub bit_offset: BitLen,
    pub endian: EndiannessValue,
    pub comments: Option<String>,
}

#[derive(Debug, Clone)]
pub struct ArrayFieldDissectorInfo {
    /// Number of items in the array, or `None` if the array is unbounded.
    pub count: Option<usize>,
    pub size_modifier: Option<String>,
    pub pad_to_size: Option<usize>,
    pub has_size_field: bool,
    pub has_count_field: bool,
}

#[derive(Debug)]
pub enum FieldDissectorInfo {
    Scalar {
        common: CommonFieldDissectorInfo,
        ftype: FType,
        /// The length this field takes before repetition.
        len: RuntimeLenInfo,
        /// A script expression that yields a boolean. If it is false when
        /// the script runs, a warning is shown. The expression may use the
        /// variable `value`, the value of this field.
        validate_expr: Option<String>,
        /// (flag field name, match value)
        optional_field: Option<(String, usize)>,
    },
    Payload {
        common: CommonFieldDissectorInfo,
        ftype: FType,
        /// The length this field takes before repetition.
        len: RuntimeLenInfo,
        children: Vec<String>,
    },
    Typedef {
        common: CommonFieldDissectorInfo,
        decl: Box<DeclDissectorInfo>,
        /// (flag field name, match value)
        optional_field: Option<(String, usize)>,
    },
    TypedefArray {
        common: CommonFieldDissectorInfo,
        decl: Box<DeclDissectorInfo>,
        array_info: ArrayFieldDissectorInfo,
    },
    ScalarArray {
        common: CommonFieldDissectorInfo,
        ftype: FType,
        item_len: BitLen,
        array_info: ArrayFieldDissectorInfo,
    },
}

#[derive(Debug)]
pub enum DeclDissectorInfo {
    Sequence {
        name: String,
        fields: Vec<FieldDissectorInfo>,
        children: Vec<DeclDissectorInfo>,
        constraints: Vec<ConstraintDissectorInfo>,
    },
    Enum { name: String, values: Vec<Tag>, len: BitLen },
    Checksum { name: String, len: BitLen },
}

/// The view of an optional text.
pub open spec fn opt_text(s: Option<String>) -> Option<Seq<char>> {
    match s {
        Some(t) => Some(t@),
        None => None,
    }
}

/// The view of an optional number.
pub open spec fn opt_nat(n: Option<usize>) -> Option<nat> {
    match n {
        Some(v) => Some(v as nat),
        None => None,
    }
}

/// The view of an optional gate: the flag field and the value that lets
/// the gated field through.
pub open spec fn opt_gate(g: Option<(String, usize)>) -> Option<(Seq<char>, nat)> {
    match g {
        Some((name, value)) => Some((name@, value as nat)),
        None => None,
    }
}

/// The view of the tags inside a range tag.
pub open spec fn tag_values_view(tags: Seq<TagValue>) -> Seq<(Seq<char>, nat)> {
    Seq::new(tags.len(), |i: int| (tags[i].id@, tags[i].value as nat))
}

/// The view of an enum tag.
pub open spec fn tag_model(tag: Tag) -> TagModel {
    match tag {
        Tag::Value(v) => TagModel::Value { name: v.id@, value: v.value as nat },
        Tag::Range(r) => TagModel::Range {
            name: r.id@,
            lo: r.lo as nat,
            hi: r.hi as nat,
            tags: tag_values_view(r.tags@),
        },
        Tag::Other(o) => TagModel::Other { name: o.id@ },
    }
}

/// The views of a list of enum tags.
pub open spec fn tags_view(tags: Seq<Tag>) -> Seq<TagModel> {
    Seq::new(tags.len(), |i: int| tag_model(tags[i]))
}

impl View for ConstraintDissectorInfo {
    type V = ConstraintModel;

    open spec fn view(&self) -> ConstraintModel {
        match self {
            ConstraintDissectorInfo::EnumMatch { field, enum_type, enum_value } => {
                ConstraintModel::EnumMatch {
                    field: field@,
                    enum_type: enum_type@,
                    enum_value: enum_value@,
                }
            },
            ConstraintDissectorInfo::ValueMatch { field, value } => ConstraintModel::ValueMatch {
                field: field@,
                value: *value as nat,
            },
        }
    }
}

/// The views of a list of constraints.
pub open spec fn constraints_view(cs: Seq<ConstraintDissectorInfo>) -> Seq<ConstraintModel> {
    Seq::new(cs.len(), |i: int| cs[i]@)
}

impl View for CommonFieldDissectorInfo {
    type V = CommonField;

    open spec fn view(&self) -> CommonField {
        CommonField {
            display_name: self.display_name@,
            abbr: self.abbr@,
            bit_offset: self.bit_offset@,
            endian: self.endian,
            comments: opt_text(self.comments),
        }
    }
}

impl View for ArrayFieldDissectorInfo {
    type V = ArrayAttrs;

    open spec fn view(&self) -> ArrayAttrs {
        ArrayAttrs {
            count: opt_nat(self.count),
            size_modifier: opt_text(self.size_modifier),
            pad_to_size: opt_nat(self.pad_to_size),
            has_size_sibling: self.has_size_field,
            has_count_sibling: self.has_count_field,
        }
    }
}

/// The model of a field.
pub open spec fn field_model(f: FieldDissectorInfo) -> FieldModel
    decreases f,
{
    match f {
        FieldDissectorInfo::Scalar { common, ftype, len, validate_expr, optional_field } => {
            FieldModel::Scalar {
                common: common@,
                ftype: ftype@,
                len: len@,
                validate: opt_text(validate_expr),
                optional_gate: opt_gate(optional_field),
            }
        },
        FieldDissectorInfo::Payload { common, ftype, len, children } => FieldModel::Payload {
            common: common@,
            ftype: ftype@,
            len: len@,
            children: names_view(children@),
        },
        FieldDissectorInfo::Typedef { common, decl, optional_field } => FieldModel::Typedef {
            common: common@,
            decl: Box::new(decl_model(*decl)),
            optional_gate: opt_gate(optional_field),
        },
        FieldDissectorInfo::TypedefArray { common, decl, array_info } => FieldModel::TypedefArray {
            common: common@,
            decl: Box::new(decl_model(*decl)),
            attrs: array_info@,
        },
        FieldDissectorInfo::ScalarArray { common, ftype, item_len, array_info } => {
            FieldModel::ScalarArray {
                common: common@,
                ftype: ftype@,
                item_bits: item_len@,
                attrs: array_info@,
            }
        },
    }
}

/// The model of a declaration.
pub open spec fn decl_model(d: DeclDissectorInfo) -> DeclModel
    decreases d,
{
    match d {
        DeclDissectorInfo::Sequence { name, fields, children, constraints } => DeclModel::Sequence {
            name: name@,
            fields: Seq::new(
                fields@.len(),
                |i: int|
                    if 0 <= i < fields@.len() {
                        field_model(fields@[i])
                    } else {
                        arbitrary()
                    },
            ),
            children: Seq::new(
                children@.len(),
                |i: int|
                    if 0 <= i < children@.len() {
                        decl_model(children@[i])
                    } else {
                        arbitrary()
                    },
            ),
            constraints: constraints_view(constraints@),
        },
        DeclDissectorInfo::Enum { name, values, len } => DeclModel::Enum {
            name: name@,
            tags: tags_view(values@),
            len: len@,
        },
        DeclDissectorInfo::Checksum { name, len } => DeclModel::Checksum { name: name@, len: len@ },
    }
}

/// The models of a list of fields.
pub open spec fn fields_view(fields: Seq<FieldDissectorInfo>) -> Seq<FieldModel> {
    Seq::new(fields.len(), |i: int| field_model(fields[i]))
}

/// The models of a list of declarations.
pub open spec fn decls_view(decls: Seq<DeclDissectorInfo>) -> Seq<DeclModel> {
    Seq::new(decls.len(), |i: int| decl_model(decls[i]))
}

impl View for FieldDissectorInfo {
    type V = FieldModel;

    open spec fn view(&self) -> FieldModel {
        field_model(*self)
    }
}

impl View for DeclDissectorInfo {
    type V = DeclModel;

    open spec fn view(&self) -> DeclModel {
        decl_model(*self)
    }
}

/// The model of a sequence holds the models of its fields and children.
pub proof fn lemma_sequence_view(d: DeclDissectorInfo)
    requires
        d is Sequence,
    ensures
        d@ is Sequence,
        d@->Sequence_name == d->Sequence_name@,
        d@->Sequence_fields == fields_view(d->Sequence_fields@),
        d@->Sequence_children == decls_view(d->Sequence_children@),
        d@->Sequence_constraints == constraints_view(d->Sequence_constraints@),
{
    assert(d@->Sequence_fields =~= fields_view(d->Sequence_fields@));
    assert(d@->Sequence_children =~= decls_view(d->Sequence_children@));
}

impl DeclDissectorInfo {
    pub fn name(&self) -> (r: &str)
        ensures
            r@ == self@.name(),
    {
        match self {
            DeclDissectorInfo::Sequence { name, .. } => name.as_str(),
            DeclDissectorInfo::Enum { name, .. } => name.as_str(),
            DeclDissectorInfo::Checksum { name, .. } => name.as_str(),
        }
    }

    /// The length of this declaration, which for a sequence is the sum of
    /// the lengths of all of its fields.
    pub fn decl_len(&self) -> (r: RuntimeLenInfo)
        requires
            self@.wf(),
        ensures
            r@ == self@.decl_len(),
        decreases self,
    {
        match self {
            DeclDissectorInfo::Sequence { fields, .. } => {
                proof {
                    lemma_sequence_view(*self);
                }
                let ghost models = fields_view(fields@);
                let mut field_len = RuntimeLenInfo::empty();
                let mut i: usize = 0;
                while i < fields.len()
                    invariant
                        i <= fields.len(),
                        self is Sequence,
                        self->Sequence_fields == *fields,
                        self@.wf(),
                        self@->Sequence_fields == models,
                        models == fields_view(fields@),
                        field_len@ == sum_len(models, i as nat),
                    decreases fields.len() - i,
                {
                    assert(models[i as int] == fields[i as int]@);
                    assert(models[i as int].wf());
                    assert(sum_len(models, (i + 1) as nat).fits());
                    let item_len = fields[i].len();
                    field_len.add(&item_len);
                    i = i + 1;
                }
                field_len
            },
            DeclDissectorInfo::Enum { name: _, values: _, len } => RuntimeLenInfo::fixed(*len),
            DeclDissectorInfo::Checksum { name: _, len } => RuntimeLenInfo::fixed(*len),
        }
    }

    /// One line that sums up a sequence.
    pub(crate) fn to_comments(&self) -> (s: String)
        requires
            self is Sequence,
        ensures
            s@ == self@.summary(),
    {
        proof {
            lemma_sequence_view(*self);
        }
        match self {
            DeclDissectorInfo::Sequence { name, fields, children, constraints } => {
                let mut s = String::from_str("Sequence: ");
                s.append(name.as_str());
                s.append(" (");
                s.append(decimal_text(fields.len()).as_str());
                s.append(" fields, ");
                s.append(decimal_text(children.len()).as_str());
                s.append(" children, ");
                s.append(decimal_text(constraints.len()).as_str());
                s.append(" constraints)");
                s
            },
            _ => String::new(),
        }
    }
}

impl CommonFieldDissectorInfo {
    /// Whether a value of width `ftype` at this field's bit offset must be
    /// read bit by bit.
    pub fn is_unaligned_with(&self, ftype: &FType) -> (r: bool)
        ensures
            r == unaligned(self@.bit_offset, ftype@),
    {
        self.bit_offset.0 % 8 != 0 || match ftype.0 {
            Some(len) => len.0 % 8 != 0,
            None => false,
        }
    }
}

impl FieldDissectorInfo {
    pub fn common(&self) -> (r: &CommonFieldDissectorInfo)
        ensures
            r@ == self@.common(),
    {
        match self {
            FieldDissectorInfo::Scalar { common, .. } => common,
            FieldDissectorInfo::Payload { common, .. } => common,
            FieldDissectorInfo::Typedef { common, .. } => common,
            FieldDissectorInfo::TypedefArray { common, .. } => common,
            FieldDissectorInfo::ScalarArray { common, .. } => common,
        }
    }

    /// One line that names the kind of the field and what it shows as.
    pub fn to_comments(&self) -> (s: String)
        ensures
            s@ == self@.comment(),
    {
        let mut s = match self {
            FieldDissectorInfo::Scalar { .. } => String::from_str("Scalar: "),
            FieldDissectorInfo::Payload { .. } => String::from_str("Payload: "),
            FieldDissectorInfo::Typedef { .. } => String::from_str("Typedef: "),
            FieldDissectorInfo::TypedefArray { .. } => String::from_str("TypedefArray: "),
            FieldDissectorInfo::ScalarArray { .. } => String::from_str("ScalarArray: "),
        };
        s.append(self.common().display_name.as_str());
        s
    }

    /// Whether the field must be read bit by bit.
    pub fn is_unaligned(&self) -> (r: bool)
        ensures
            r == self@.is_unaligned(),
    {
        match self {
            FieldDissectorInfo::Scalar { common, ftype, .. } => common.is_unaligned_with(ftype),
            FieldDissectorInfo::Payload { common, ftype, .. } => common.is_unaligned_with(ftype),
            FieldDissectorInfo::ScalarArray { common, ftype, .. } => common.is_unaligned_with(
                ftype,
            ),
            _ => false,
        }
    }

    /// The length of the field; for an array, of one item.
    pub fn len(&self) -> (r: RuntimeLenInfo)
        requires
            self@.wf(),
        ensures
            r@ == self@.len(),
        decreases self,
    {
        match self {
            FieldDissectorInfo::Scalar { len, .. } => len.duplicate(),
            FieldDissectorInfo::Payload { len, .. } => len.duplicate(),
            FieldDissectorInfo::Typedef { decl, .. } => decl.decl_len(),
            FieldDissectorInfo::TypedefArray { decl, .. } => decl.decl_len(),
            FieldDissectorInfo::ScalarArray { item_len, .. } => RuntimeLenInfo::fixed(*item_len),
        }
    }
}

} // verus!
