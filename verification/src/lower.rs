//! The executable lowering of the description file into the dissector
//! model, proved against the lowering rules.

use vstd::prelude::*;
use crate::ast::{
    Constraint,
    Decl,
    DeclDesc,
    Field,
    FieldDesc,
    File,
    SourceRange,
    Tag,
    TagOther,
    TagRange,
    TagValue,
    children_among,
};
use crate::comments::{find_comments_on_same_line, unwrap_comment};
use crate::dissector_info::{
    ArrayFieldDissectorInfo,
    CommonFieldDissectorInfo,
    ConstraintDissectorInfo,
    DeclDissectorInfo,
    FieldDissectorInfo,
    constraints_view,
    decls_view,
    field_model,
    fields_view,
    lemma_sequence_view,
    opt_gate,
    opt_text,
    tag_model,
    tag_values_view,
    tags_view,
};
use crate::error::ErrorKind;
use crate::len_info::{BitLen, FType, RuntimeLenInfo, names_view, lemma_names_view_push};
use crate::model::{ConstraintModel, DeclModel, FieldModel, sum_len};
use crate::rules::{
    ContextModel,
    FieldStep,
    FieldsState,
    ancestor_field_type,
    array_attrs,
    child_names,
    common_of,
    field_comment,
    find_field,
    has_count_sibling,
    has_size_sibling,
    is_count_of,
    is_size_of,
    lookup_gate,
    lower_children,
    lower_constraint,
    lower_constraints,
    lower_decl,
    lower_field,
    lower_fields,
    lower_typedef,
    model_of,
    shown_target,
};
use crate::text::{decimal_text, join2, join3, parse_usize};

verus! {

/// What lowering remembers from one field of a declaration to the next.
#[derive(Clone, Debug)]
pub struct FieldContext {
    pub num_fixed: usize,
    pub num_reserved: usize,
    /// The gates recorded by flag fields, oldest first: the name of the
    /// gated field, then the flag field and the value that lets it through.
    /// The list stands for a map from the name of the gated field: where
    /// a name was recorded more than once, the latest record decides.
    pub optional_decl: Vec<(String, (String, usize))>,
}

/// The views of a list of recorded gates.
pub open spec fn gates_view(gates: Seq<(String, (String, usize))>) -> Seq<
    (Seq<char>, (Seq<char>, nat)),
> {
    Seq::new(gates.len(), |i: int| (gates[i].0@, (gates[i].1.0@, gates[i].1.1 as nat)))
}

impl View for FieldContext {
    type V = ContextModel;

    open spec fn view(&self) -> ContextModel {
        ContextModel {
            num_fixed: self.num_fixed as nat,
            num_reserved: self.num_reserved as nat,
            gates: gates_view(self.optional_decl@),
        }
    }
}

impl FieldContext {
    pub fn new() -> (r: Self)
        ensures
            r@ == ContextModel::new(),
    {
        let r = FieldContext { num_fixed: 0, num_reserved: 0, optional_decl: Vec::new() };
        assert(r@.gates =~= Seq::empty());
        r
    }

    /// What was recorded last for the field `id`: its flag field and value.
    pub fn gate(&self, id: &String) -> (r: Option<(String, usize)>)
        ensures
            opt_gate(r) == self@.gate_of(id@),
    {
        let ghost all = gates_view(self.optional_decl@);
        let mut i: usize = self.optional_decl.len();
        assert(all.take(i as int) =~= all);
        while i > 0
            invariant
                i <= self.optional_decl.len(),
                all == gates_view(self.optional_decl@),
                lookup_gate(all, id@) == lookup_gate(all.take(i as int), id@),
            decreases i,
        {
            let entry = &self.optional_decl[i - 1];
            let ghost upto = all.take(i as int);
            assert(upto.last() == all[i - 1]);
            assert(upto.drop_last() =~= all.take(i - 1));
            if entry.0 == *id {
                return Some((entry.1.0.clone(), entry.1.1));
            }
            i = i - 1;
        }
        None
    }

    /// Records that the flag field `flag` opens the field `gated` when it
    /// has the value `value`.
    pub fn record_gate(&mut self, gated: String, flag: String, value: usize)
        ensures
            final(self)@ == (ContextModel {
                gates: old(self)@.gates.push((gated@, (flag@, value as nat))),
                ..old(self)@
            }),
    {
        let ghost before = gates_view(self.optional_decl@);
        self.optional_decl.push((gated, (flag, value)));
        assert(gates_view(self.optional_decl@) =~= before.push((gated@, (flag@, value as nat))));
    }
}

/// Whether `decl` has a size field for the field `id`.
pub fn has_size_field(decl: &Decl, id: &String) -> (r: bool)
    ensures
        r == has_size_sibling(*decl, id@),
{
    match decl.fields() {
        Some(fields) => {
            let mut i: usize = 0;
            while i < fields.len()
                invariant
                    i <= fields.len(),
                    fields@ == decl.field_seq(),
                    forall|k: int| 0 <= k < i ==> !is_size_of(#[trigger] fields@[k], id@),
                decreases fields.len() - i,
            {
                match &fields[i].desc {
                    FieldDesc::Size { field_id, .. } => {
                        if *field_id == *id {
                            assert(is_size_of(decl.field_seq()[i as int], id@));
                            return true;
                        }
                    },
                    _ => {},
                }
                i = i + 1;
            }
            false
        },
        None => false,
    }
}

/// Whether `decl` has a count field for the field `id`.
pub fn has_count_field(decl: &Decl, id: &String) -> (r: bool)
    ensures
        r == has_count_sibling(*decl, id@),
{
    match decl.fields() {
        Some(fields) => {
            let mut i: usize = 0;
            while i < fields.len()
                invariant
                    i <= fields.len(),
                    fields@ == decl.field_seq(),
                    forall|k: int| 0 <= k < i ==> !is_count_of(#[trigger] fields@[k], id@),
                decreases fields.len() - i,
            {
                match &fields[i].desc {
                    FieldDesc::Count { field_id, .. } => {
                        if *field_id == *id {
                            assert(is_count_of(decl.field_seq()[i as int], id@));
                            return true;
                        }
                    },
                    _ => {},
                }
                i = i + 1;
            }
            false
        },
        None => false,
    }
}

/// The name of a declaration; a test declaration has none.
pub fn get_desc_id(desc: &DeclDesc) -> (r: Option<String>)
    ensures
        opt_text(r) == desc.name(),
{
    match desc {
        DeclDesc::Checksum { id, .. } => Some(id.clone()),
        DeclDesc::CustomField { id, .. } => Some(id.clone()),
        DeclDesc::Enum { id, .. } => Some(id.clone()),
        DeclDesc::Packet { id, .. } => Some(id.clone()),
        DeclDesc::Struct { id, .. } => Some(id.clone()),
        DeclDesc::Group { id, .. } => Some(id.clone()),
        DeclDesc::Test { .. } => None,
    }
}

/// The text of the comment that trails the source range `loc`.
fn field_comment_text(file: &File, loc: &SourceRange) -> (r: Option<String>)
    ensures
        opt_text(r) == field_comment(*file, *loc),
{
    match find_comments_on_same_line(file, loc) {
        Some(comment) => Some(String::from_str(unwrap_comment(comment.text.as_str()))),
        None => None,
    }
}

/// The common part of the model of `field`.
fn common_info(
    file: &File,
    field: &Field,
    display_name: String,
    abbr: String,
    bit_offset: BitLen,
) -> (r: CommonFieldDissectorInfo)
    ensures
        r@ == common_of(*file, *field, display_name@, abbr@, bit_offset@),
{
    CommonFieldDissectorInfo {
        display_name,
        abbr,
        bit_offset,
        endian: file.endianness,
        comments: field_comment_text(file, &field.loc),
    }
}

/// How the target of a size or count field is shown.
fn shown_target_text(field_id: &String) -> (r: &str)
    ensures
        r@ == shown_target(field_id@),
{
    if *field_id == String::from_str("_payload_") {
        "Payload"
    } else {
        field_id.as_str()
    }
}

/// The names of the declarations that derive from `decl`, in file order.
fn child_name_list(file: &File, decl: &Decl) -> (r: Vec<String>)
    ensures
        names_view(r@) == child_names(file.children_of(decl)),
{
    let mut names: Vec<String> = Vec::new();
    let mut i: usize = 0;
    assert(names_view(names@) =~= Seq::<Seq<char>>::empty());
    assert(file.declarations@.take(0) =~= Seq::<Decl>::empty());
    while i < file.declarations.len()
        invariant
            i <= file.declarations.len(),
            names_view(names@) == child_names(
                children_among(file.declarations@.take(i as int), *decl),
            ),
        decreases file.declarations.len() - i,
    {
        let other = &file.declarations[i];
        let ghost upto = file.declarations@.take(i + 1);
        let ghost kids = children_among(file.declarations@.take(i as int), *decl);
        assert(upto.last() == *other);
        assert(upto.drop_last() =~= file.declarations@.take(i as int));
        if other.derives_from(decl) {
            assert(kids.push(*other).drop_last() =~= kids);
            match other.id() {
                Some(name) => {
                    proof {
                        lemma_names_view_push(names@, *name);
                    }
                    names.push(name.clone());
                },
                None => {},
            }
        }
        i = i + 1;
    }
    assert(file.declarations@.take(i as int) =~= file.declarations@);
    names
}

/// Whether `r` is the outcome `want`, up to the view of the model.
pub open spec fn lowered_as<T: View>(r: Result<T, ErrorKind>, want: Result<T::V, ErrorKind>) -> bool {
    match want {
        Ok(model) => r is Ok && r->Ok_0@ == model,
        Err(e) => r is Err && r->Err_0 == e,
    }
}

/// Looks for the field `id` in `decl` and then in the declarations `decl`
/// derives from, nearest first, and gives the name of its type.
fn find_ancestor_field(file: &File, decl: &Decl, id: &String, depth: usize) -> (r: Result<
    String,
    ErrorKind,
>)
    ensures
        lowered_as(r, ancestor_field_type(*file, *decl, id@, depth as nat)),
    decreases depth,
{
    match decl.fields() {
        Some(fields) => {
            let mut i: usize = 0;
            assert(fields@.skip(0) =~= fields@);
            while i < fields.len()
                invariant
                    i <= fields.len(),
                    fields@ == decl.field_seq(),
                    find_field(fields@, id@) == find_field(fields@.skip(i as int), id@),
                decreases fields.len() - i,
            {
                let field = &fields[i];
                let ghost rest = fields@.skip(i as int);
                assert(rest[0] == *field);
                assert(rest.drop_first() =~= fields@.skip(i + 1));
                match field.id() {
                    Some(name) => {
                        if *name == *id {
                            return match &field.desc {
                                FieldDesc::Typedef { id: _, type_id } => Ok(type_id.clone()),
                                _ => Err(ErrorKind::UnsupportedConstruct),
                            };
                        }
                    },
                    None => {},
                }
                i = i + 1;
            }
        },
        None => {},
    }
    match file.get_parent(decl) {
        Some(parent) => {
            if depth == 0 {
                Err(ErrorKind::UnsupportedConstruct)
            } else {
                find_ancestor_field(file, parent, id, depth - 1)
            }
        },
        None => Err(ErrorKind::UnsupportedConstruct),
    }
}

impl Constraint {
    /// Lowers a constraint of `decl`.
    pub fn to_dissector_info(&self, file: &File, decl: &Decl) -> (r: Result<
        ConstraintDissectorInfo,
        ErrorKind,
    >)
        ensures
            lowered_as(r, lower_constraint(*file, *decl, *self)),
    {
        match (&self.value, &self.tag_id) {
            (Some(v), None) => Ok(
                ConstraintDissectorInfo::ValueMatch { field: self.id.clone(), value: *v },
            ),
            (None, Some(enum_tag)) => {
                match file.get_parent(decl) {
                    None => Err(ErrorKind::TypedefUnresolved),
                    Some(parent_decl) => {
                        match find_ancestor_field(
                            file,
                            parent_decl,
                            &self.id,
                            file.declarations.len(),
                        ) {
                            Err(e) => Err(e),
                            Ok(enum_type) => Ok(
                                ConstraintDissectorInfo::EnumMatch {
                                    field: self.id.clone(),
                                    enum_type,
                                    enum_value: enum_tag.clone(),
                                },
                            ),
                        }
                    },
                }
            },
            _ => Err(ErrorKind::UnsupportedConstruct),
        }
    }
}

/// The view of an optional field.
pub open spec fn opt_field(f: Option<FieldDissectorInfo>) -> Option<FieldModel> {
    match f {
        Some(field) => Some(field@),
        None => None,
    }
}

/// Whether the executable outcome of lowering one field is the outcome
/// `want`: `r` is what was returned, `ctx` the context afterwards, and
/// `last` the field before this one as it is afterwards.
pub open spec fn step_done(
    r: Result<Option<FieldDissectorInfo>, ErrorKind>,
    ctx: ContextModel,
    last: Option<FieldModel>,
    want: Result<FieldStep, ErrorKind>,
) -> bool {
    match want {
        Err(e) => r is Err && r->Err_0 == e,
        Ok(step) => r is Ok && opt_field(r->Ok_0) == step.emitted && ctx == step.ctx && last
            == step.last,
    }
}

/// The models of a list with one more field are the models of the list
/// with one more model.
pub proof fn lemma_fields_view_push(fields: Seq<FieldDissectorInfo>, field: FieldDissectorInfo)
    ensures
        fields_view(fields.push(field)) == fields_view(fields).push(field@),
{
    assert(fields_view(fields.push(field)) =~= fields_view(fields).push(field@));
}

/// The models of a list without its last field are the models of the
/// list without the last model.
pub proof fn lemma_fields_view_drop_last(fields: Seq<FieldDissectorInfo>)
    requires
        fields.len() > 0,
    ensures
        fields_view(fields.drop_last()) == fields_view(fields).drop_last(),
        fields_view(fields).last() == fields.last()@,
{
    assert(fields_view(fields.drop_last()) =~= fields_view(fields).drop_last());
}

/// The sum of the lengths of the first `n` fields depends on the lengths
/// of those fields alone.
pub proof fn lemma_sum_len_prefix(a: Seq<FieldModel>, b: Seq<FieldModel>, n: nat)
    requires
        n <= a.len(),
        n <= b.len(),
        forall|i: int| 0 <= i < n ==> (#[trigger] a[i]).len() == b[i].len(),
    ensures
        sum_len(a, n) == sum_len(b, n),
    decreases n,
{
    if n > 0 {
        lemma_sum_len_prefix(a, b, (n - 1) as nat);
    }
}

/// Once a field has failed, lowering more fields fails in the same way.
pub proof fn lemma_fields_error_sticks(
    file: File,
    decl: Decl,
    fields: Seq<Field>,
    n: nat,
    m: nat,
    depth: nat,
)
    requires
        n <= m <= fields.len(),
        lower_fields(file, decl, fields, n, depth) is Err,
    ensures
        lower_fields(file, decl, fields, m, depth) == lower_fields(file, decl, fields, n, depth),
    decreases m,
{
    if m > n {
        lemma_fields_error_sticks(file, decl, fields, n, (m - 1) as nat, depth);
    }
}

/// Once a child has failed, lowering more children fails in the same way.
pub proof fn lemma_children_error_sticks(file: File, kids: Seq<Decl>, n: int, m: int, depth: nat)
    requires
        0 <= n <= m <= kids.len(),
        lower_children(file, kids.take(n), depth) is Err,
    ensures
        lower_children(file, kids.take(m), depth) == lower_children(file, kids.take(n), depth),
    decreases m,
{
    if m > n {
        lemma_children_error_sticks(file, kids, n, m - 1, depth);
        assert(kids.take(m).drop_last() =~= kids.take(m - 1));
    }
}

/// Once a constraint has failed, lowering more constraints fails in the
/// same way.
pub proof fn lemma_constraints_error_sticks(
    file: File,
    decl: Decl,
    constraints: Seq<Constraint>,
    n: nat,
    m: nat,
)
    requires
        n <= m <= constraints.len(),
        lower_constraints(file, decl, constraints, n) is Err,
    ensures
        lower_constraints(file, decl, constraints, m) == lower_constraints(
            file,
            decl,
            constraints,
            n,
        ),
    decreases m,
{
    if m > n {
        lemma_constraints_error_sticks(file, decl, constraints, n, (m - 1) as nat);
    }
}

/// The declarations at the positions `indices` of `file`.
pub open spec fn decls_at(file: File, indices: Seq<usize>) -> Seq<Decl> {
    Seq::new(indices.len(), |k: int| file.declarations@[indices[k] as int])
}

/// The positions of the declarations that derive from `decl`, in file
/// order.
fn child_indices(file: &File, decl: &Decl) -> (r: Vec<usize>)
    ensures
        forall|k: int| 0 <= k < r.len() ==> #[trigger] r[k] < file.declarations.len(),
        decls_at(*file, r@) == file.children_of(decl),
{
    let mut indices: Vec<usize> = Vec::new();
    let mut i: usize = 0;
    assert(file.declarations@.take(0) =~= Seq::<Decl>::empty());
    assert(decls_at(*file, indices@) =~= Seq::<Decl>::empty());
    while i < file.declarations.len()
        invariant
            i <= file.declarations.len(),
            forall|k: int| 0 <= k < indices.len() ==> #[trigger] indices[k] < file.declarations.len(),
            decls_at(*file, indices@) == children_among(file.declarations@.take(i as int), *decl),
        decreases file.declarations.len() - i,
    {
        let other = &file.declarations[i];
        let ghost upto = file.declarations@.take(i + 1);
        assert(upto.last() == *other);
        assert(upto.drop_last() =~= file.declarations@.take(i as int));
        if other.derives_from(decl) {
            let ghost before = indices@;
            indices.push(i);
            assert(decls_at(*file, indices@) =~= decls_at(*file, before).push(*other));
        }
        i = i + 1;
    }
    assert(file.declarations@.take(i as int) =~= file.declarations@);
    indices
}

/// A copy of a list of enum tags.
fn duplicate_tags(tags: &Vec<Tag>) -> (r: Vec<Tag>)
    ensures
        tags_view(r@) == tags_view(tags@),
{
    let mut out: Vec<Tag> = Vec::new();
    let mut i: usize = 0;
    while i < tags.len()
        invariant
            i <= tags.len(),
            out.len() == i,
            forall|k: int|
                0 <= k < i ==> tag_model(#[trigger] out[k])
                    == tag_model(tags[k]),
        decreases tags.len() - i,
    {
        let copy = match &tags[i] {
            Tag::Value(v) => Tag::Value(
                TagValue { id: v.id.clone(), value: v.value },
            ),
            Tag::Range(r) => {
                let mut subs: Vec<TagValue> = Vec::new();
                let mut j: usize = 0;
                while j < r.tags.len()
                    invariant
                        j <= r.tags.len(),
                        subs.len() == j,
                        forall|k: int|
                            0 <= k < j ==> (#[trigger] subs[k]).id@ == r.tags[k].id@ && subs[k].value
                                == r.tags[k].value,
                    decreases r.tags.len() - j,
                {
                    subs.push(
                        TagValue { id: r.tags[j].id.clone(), value: r.tags[j].value },
                    );
                    j = j + 1;
                }
                assert(tag_values_view(subs@)
                    =~= tag_values_view(r.tags@));
                Tag::Range(
                    TagRange { id: r.id.clone(), lo: r.lo, hi: r.hi, tags: subs },
                )
            },
            Tag::Other(o) => Tag::Other(
                TagOther { id: o.id.clone() },
            ),
        };
        out.push(copy);
        i = i + 1;
    }
    assert(tags_view(out@) =~= tags_view(tags@));
    out
}

/// Lowers the declaration that the type name `name` stands for.
fn lower_named(file: &File, name: &String, depth: usize) -> (r: Result<
    DeclDissectorInfo,
    ErrorKind,
>)
    ensures
        lowered_as(r, lower_typedef(*file, name@, depth as nat)),
        r is Ok ==> r->Ok_0@.wf(),
    decreases depth, 0nat, 0nat,
{
    match file.typedef(name) {
        None => Err(ErrorKind::TypedefUnresolved),
        Some(target) => {
            if depth == 0 {
                Err(ErrorKind::UnsupportedConstruct)
            } else {
                target.lower_at(file, depth - 1)
            }
        },
    }
}

/// The array attributes of the array field `id` of `decl`.
fn array_info_of(decl: &Decl, id: &String, size_modifier: &Option<String>, size: &Option<usize>) -> (r:
    ArrayFieldDissectorInfo)
    ensures
        r@ == array_attrs(*decl, id@, *size_modifier, *size),
{
    ArrayFieldDissectorInfo {
        count: *size,
        size_modifier: match size_modifier {
            Some(m) => Some(m.clone()),
            None => None,
        },
        pad_to_size: None,
        has_size_field: has_size_field(decl, id),
        has_count_field: has_count_field(decl, id),
    }
}

/// Whether the array attributes are consistent.
fn array_info_wf(info: &ArrayFieldDissectorInfo) -> (r: bool)
    ensures
        r == info@.wf(),
{
    (info.size_modifier.is_none() || info.has_size_field) && (info.count.is_none()
        || !info.has_count_field) && !((info.count.is_some() || info.has_count_field)
        && info.has_size_field)
}

impl Field {
    fn size_field(&self, file: &File, field_id: &String, width: usize, bit_offset: &BitLen) -> (r:
        FieldDissectorInfo)
        ensures
            r@ == crate::rules::size_field(*file, *self, field_id@, width as nat, bit_offset@),
            r@.wf(),
    {
        FieldDissectorInfo::Scalar {
            common: common_info(
                file,
                self,
                join3("Size(", shown_target_text(field_id), ")"),
                join2(field_id.as_str(), "_size"),
                *bit_offset,
            ),
            ftype: FType::from_size(self.size),
            len: RuntimeLenInfo::fixed(BitLen(width)),
            validate_expr: None,
            optional_field: None,
        }
    }

    fn count_field(&self, file: &File, field_id: &String, width: usize, bit_offset: &BitLen) -> (r:
        FieldDissectorInfo)
        requires
            width * 8 <= usize::MAX,
        ensures
            r@ == crate::rules::count_field(*file, *self, field_id@, width as nat, bit_offset@),
            r@.wf(),
    {
        FieldDissectorInfo::Scalar {
            common: common_info(
                file,
                self,
                join3("Count(", shown_target_text(field_id), ")"),
                join2(field_id.as_str(), "_count"),
                *bit_offset,
            ),
            ftype: FType::from_size(self.size),
            len: RuntimeLenInfo::fixed(BitLen(width * 8)),
            validate_expr: None,
            optional_field: None,
        }
    }

    fn body_field(&self, file: &File, decl: &Decl, bit_offset: &BitLen) -> (r: FieldDissectorInfo)
        ensures
            r@ == crate::rules::body_field(*file, *decl, *self, bit_offset@),
            r@.wf(),
    {
        let children = child_name_list(file, decl);
        let mut field_len = RuntimeLenInfo::empty();
        field_len.add_len_field(String::from_str("_body__size"), BitLen(0));
        FieldDissectorInfo::Payload {
            common: common_info(
                file,
                self,
                String::from_str("Body"),
                String::from_str("_body_"),
                *bit_offset,
            ),
            ftype: FType::from_size(self.size),
            len: field_len,
            children,
        }
    }

    fn payload_field(&self, file: &File, modifier: BitLen, bit_offset: &BitLen) -> (r:
        FieldDissectorInfo)
        ensures
            r@ == crate::rules::payload_field(*file, *self, modifier@, bit_offset@),
            r@.wf(),
    {
        let mut field_len = RuntimeLenInfo::empty();
        field_len.add_len_field(String::from_str("_payload__size"), modifier);
        let children: Vec<String> = Vec::new();
        assert(names_view(children@) =~= Seq::<Seq<char>>::empty());
        FieldDissectorInfo::Payload {
            common: common_info(
                file,
                self,
                String::from_str("Payload"),
                String::from_str("_payload_"),
                *bit_offset,
            ),
            ftype: FType::from_size(self.size),
            len: field_len,
            children,
        }
    }

    fn fixed_scalar_field(
        &self,
        file: &File,
        index: usize,
        width: usize,
        value: usize,
        bit_offset: &BitLen,
    ) -> (r: FieldDissectorInfo)
        ensures
            r@ == crate::rules::fixed_scalar_field(
                *file,
                *self,
                index as nat,
                width as nat,
                value as nat,
                bit_offset@,
            ),
            r@.wf(),
    {
        FieldDissectorInfo::Scalar {
            common: common_info(
                file,
                self,
                String::from_str("Fixed value"),
                join2("_fixed_", decimal_text(index).as_str()),
                *bit_offset,
            ),
            ftype: FType::from_size(self.size),
            len: RuntimeLenInfo::fixed(BitLen(width)),
            validate_expr: Some(join2("value == ", decimal_text(value).as_str())),
            optional_field: None,
        }
    }

    fn fixed_enum_field(
        &self,
        file: &File,
        index: usize,
        enum_id: &String,
        tag_id: &String,
        len: RuntimeLenInfo,
        bit_offset: &BitLen,
    ) -> (r: FieldDissectorInfo)
        ensures
            r@ == crate::rules::fixed_enum_field(
                *file,
                *self,
                index as nat,
                enum_id@,
                tag_id@,
                len@,
                bit_offset@,
            ),
            r@.wf(),
    {
        let mut validate = join2(enum_id.as_str(), "_enum:match(\"");
        validate.append(tag_id.as_str());
        validate.append("\", value)");
        FieldDissectorInfo::Scalar {
            common: common_info(
                file,
                self,
                join2("Fixed value: ", tag_id.as_str()),
                join2("_fixed_", decimal_text(index).as_str()),
                *bit_offset,
            ),
            ftype: FType::from_size(self.size),
            len,
            validate_expr: Some(validate),
            optional_field: None,
        }
    }

    fn reserved_field(&self, file: &File, index: usize, width: usize, bit_offset: &BitLen) -> (r:
        FieldDissectorInfo)
        ensures
            r@ == crate::rules::reserved_field(
                *file,
                *self,
                index as nat,
                width as nat,
                bit_offset@,
            ),
            r@.wf(),
    {
        FieldDissectorInfo::Scalar {
            common: common_info(
                file,
                self,
                String::from_str("Reserved"),
                join2("_reserved_", decimal_text(index).as_str()),
                *bit_offset,
            ),
            ftype: FType(Some(BitLen(width))),
            len: RuntimeLenInfo::fixed(BitLen(width)),
            validate_expr: None,
            optional_field: None,
        }
    }

    fn typedef_array_field(
        &self,
        file: &File,
        id: &String,
        item: DeclDissectorInfo,
        array_info: ArrayFieldDissectorInfo,
        bit_offset: &BitLen,
    ) -> (r: FieldDissectorInfo)
        requires
            item@.wf(),
            array_info@.wf(),
        ensures
            r@ == crate::rules::typedef_array_field(
                *file,
                *self,
                id@,
                item@,
                array_info@,
                bit_offset@,
            ),
            r@.wf(),
    {
        FieldDissectorInfo::TypedefArray {
            common: common_info(file, self, id.clone(), id.clone(), *bit_offset),
            decl: Box::new(item),
            array_info,
        }
    }

    fn scalar_array_field(
        &self,
        file: &File,
        id: &String,
        width: usize,
        array_info: ArrayFieldDissectorInfo,
    ) -> (r: FieldDissectorInfo)
        requires
            array_info@.wf(),
        ensures
            r@ == crate::rules::scalar_array_field(*file, *self, id@, width as nat, array_info@),
            r@.wf(),
    {
        FieldDissectorInfo::ScalarArray {
            common: common_info(file, self, id.clone(), id.clone(), BitLen::default()),
            ftype: FType(Some(BitLen(width))),
            item_len: BitLen(width),
            array_info,
        }
    }

    fn scalar_field(
        &self,
        file: &File,
        id: &String,
        width: usize,
        gate: Option<(String, usize)>,
        bit_offset: &BitLen,
    ) -> (r: FieldDissectorInfo)
        ensures
            r@ == crate::rules::scalar_field(
                *file,
                *self,
                id@,
                width as nat,
                opt_gate(gate),
                bit_offset@,
            ),
            r@.wf(),
    {
        FieldDissectorInfo::Scalar {
            common: common_info(file, self, id.clone(), id.clone(), *bit_offset),
            ftype: FType(Some(BitLen(width))),
            len: RuntimeLenInfo::fixed(BitLen(width)),
            validate_expr: None,
            optional_field: gate,
        }
    }

    fn flag_field(&self, file: &File, id: &String, bit_offset: &BitLen) -> (r: FieldDissectorInfo)
        ensures
            r@ == crate::rules::flag_field(*file, *self, id@, bit_offset@),
            r@.wf(),
    {
        FieldDissectorInfo::Scalar {
            common: common_info(file, self, id.clone(), id.clone(), *bit_offset),
            ftype: FType::from_size(self.size),
            len: RuntimeLenInfo::fixed(BitLen(1)),
            validate_expr: None,
            optional_field: None,
        }
    }

    fn typedef_field(
        &self,
        file: &File,
        id: &String,
        target: DeclDissectorInfo,
        gate: Option<(String, usize)>,
        bit_offset: &BitLen,
    ) -> (r: FieldDissectorInfo)
        requires
            target@.wf(),
        ensures
            r@ == crate::rules::typedef_field(
                *file,
                *self,
                id@,
                target@,
                opt_gate(gate),
                bit_offset@,
            ),
            r@.wf(),
    {
        FieldDissectorInfo::Typedef {
            common: common_info(file, self, id.clone(), id.clone(), *bit_offset),
            decl: Box::new(target),
            optional_field: gate,
        }
    }

    /// Lowers this field of `decl`, whose first bit lies at `bit_offset`
    /// within its octet. A padding field changes `last_field`, the field
    /// before it; any other field leaves it as it is. `depth` bounds how
    /// deep the declarations of nested types may nest. On an error the
    /// context and `last_field` are left as they were.
    pub fn to_dissector_info(
        &self,
        ctx: &mut FieldContext,
        bit_offset: &BitLen,
        decl: &Decl,
        file: &File,
        depth: usize,
        last_field: Option<&mut FieldDissectorInfo>,
    ) -> (r: Result<Option<FieldDissectorInfo>, ErrorKind>)
        requires
            old(ctx).num_fixed < usize::MAX,
            old(ctx).num_reserved < usize::MAX,
            last_field is Some ==> field_model(*(last_field->0)).wf(),
        ensures
            step_done(
                r,
                final(ctx)@,
                if last_field is Some {
                    Some(field_model(*final(last_field->0)))
                } else {
                    None
                },
                lower_field(
                    *file,
                    *decl,
                    old(ctx)@,
                    bit_offset@,
                    if last_field is Some {
                        Some(field_model(*(last_field->0)))
                    } else {
                        None
                    },
                    *self,
                    depth as nat,
                ),
            ),
            r is Ok && r->Ok_0 is Some ==> r->Ok_0->0@.wf(),
            r is Ok && last_field is Some ==> field_model(*final(last_field->0)).wf()
                && field_model(*final(last_field->0)).len() == field_model(*(last_field->0)).len(),
            r is Err ==> *final(ctx) == *old(ctx),
            r is Err && last_field is Some ==> *final(last_field->0) == *(last_field->0),
        decreases depth, 1nat, 0nat,
    {
        match &self.desc {
            FieldDesc::Checksum { field_id: _ } => Ok(None),
            FieldDesc::Padding { size: octet_size } => {
                match last_field {
                    Some(last) => pad_array(last, *octet_size),
                    None => Err(ErrorKind::BadPadding),
                }
            },
            FieldDesc::Size { field_id, width } => Ok(
                Some(self.size_field(file, field_id, *width, bit_offset)),
            ),
            FieldDesc::Count { field_id, width } => {
                if *width > usize::MAX / 8 {
                    Err(ErrorKind::UnsupportedConstruct)
                } else {
                    Ok(Some(self.count_field(file, field_id, *width, bit_offset)))
                }
            },
            FieldDesc::ElementSize { .. } => Err(ErrorKind::UnsupportedConstruct),
            FieldDesc::Body => Ok(Some(self.body_field(file, decl, bit_offset))),
            FieldDesc::Payload { size_modifier } => {
                match payload_modifier(size_modifier) {
                    Some(modifier) => Ok(Some(self.payload_field(file, modifier, bit_offset))),
                    None => Err(ErrorKind::UnsupportedConstruct),
                }
            },
            FieldDesc::FixedScalar { width, value } => {
                ctx.num_fixed = ctx.num_fixed + 1;
                Ok(
                    Some(
                        self.fixed_scalar_field(
                            file,
                            ctx.num_fixed - 1,
                            *width,
                            *value,
                            bit_offset,
                        ),
                    ),
                )
            },
            FieldDesc::FixedEnum { enum_id, tag_id } => {
                match lower_named(file, enum_id, depth) {
                    Ok(referenced_enum) => {
                        ctx.num_fixed = ctx.num_fixed + 1;
                        Ok(
                            Some(
                                self.fixed_enum_field(
                                    file,
                                    ctx.num_fixed - 1,
                                    enum_id,
                                    tag_id,
                                    referenced_enum.decl_len(),
                                    bit_offset,
                                ),
                            ),
                        )
                    },
                    Err(e) => Err(e),
                }
            },
            FieldDesc::Reserved { width } => {
                ctx.num_reserved = ctx.num_reserved + 1;
                Ok(Some(self.reserved_field(file, ctx.num_reserved - 1, *width, bit_offset)))
            },
            FieldDesc::Array { id, width, type_id, size_modifier, size } => {
                match (width, type_id) {
                    (None, Some(item_type)) => {
                        match lower_named(file, item_type, depth) {
                            Ok(item) => {
                                let array_info = array_info_of(decl, id, size_modifier, size);
                                if !array_info_wf(&array_info) {
                                    Err(ErrorKind::UnsupportedConstruct)
                                } else {
                                    Ok(
                                        Some(
                                            self.typedef_array_field(
                                                file,
                                                id,
                                                item,
                                                array_info,
                                                bit_offset,
                                            ),
                                        ),
                                    )
                                }
                            },
                            Err(e) => Err(e),
                        }
                    },
                    (Some(width), None) => {
                        let array_info = array_info_of(decl, id, size_modifier, size);
                        if !array_info_wf(&array_info) {
                            Err(ErrorKind::UnsupportedConstruct)
                        } else {
                            Ok(Some(self.scalar_array_field(file, id, *width, array_info)))
                        }
                    },
                    _ => Err(ErrorKind::UnsupportedConstruct),
                }
            },
            FieldDesc::Scalar { id, width } => {
                let gate = ctx.gate(id);
                Ok(Some(self.scalar_field(file, id, *width, gate, bit_offset)))
            },
            FieldDesc::Flag { id, optional_field_id, set_value } => {
                ctx.record_gate(optional_field_id.clone(), id.clone(), *set_value);
                Ok(Some(self.flag_field(file, id, bit_offset)))
            },
            FieldDesc::Typedef { id, type_id } => {
                match lower_named(file, type_id, depth) {
                    Ok(dissector_info) => {
                        let gate = ctx.gate(id);
                        Ok(Some(self.typedef_field(file, id, dissector_info, gate, bit_offset)))
                    },
                    Err(e) => Err(e),
                }
            },
            FieldDesc::Group { .. } => Err(ErrorKind::UnsupportedConstruct),
        }
    }
}

/// Folds a padding of `octets` octets into the array `last`.
fn pad_array(last: &mut FieldDissectorInfo, octets: usize) -> (r: Result<
    Option<FieldDissectorInfo>,
    ErrorKind,
>)
    requires
        old(last)@.wf(),
    ensures
        match crate::rules::padded(Some(old(last)@), octets as nat) {
            Some(array) => r is Ok && r->Ok_0 is None && final(last)@ == array,
            None => r is Err && r->Err_0 == ErrorKind::BadPadding,
        },
        r is Ok ==> final(last)@.wf() && final(last)@.len() == old(last)@.len(),
        r is Err ==> *final(last) == *old(last),
{
    match last {
        FieldDissectorInfo::TypedefArray { common, array_info, .. } => {
            common.display_name = join2(common.display_name.as_str(), " (Padded)");
            array_info.pad_to_size = Some(octets);
            Ok(None)
        },
        FieldDissectorInfo::ScalarArray { common, array_info, .. } => {
            common.display_name = join2(common.display_name.as_str(), " (Padded)");
            array_info.pad_to_size = Some(octets);
            Ok(None)
        },
        _ => Err(ErrorKind::BadPadding),
    }
}

/// The constant bits that the size modifier of a payload adds.
fn payload_modifier(size_modifier: &Option<String>) -> (r: Option<BitLen>)
    ensures
        match crate::rules::payload_modifier_bits(*size_modifier) {
            Some(bits) => r is Some && r->0@ == bits,
            None => r is None,
        },
{
    match size_modifier {
        Some(text) => match parse_usize(text.as_str()) {
            Some(octets) => {
                if octets > usize::MAX / 8 {
                    None
                } else {
                    Some(BitLen(octets * 8))
                }
            },
            None => None,
        },
        None => Some(BitLen(0)),
    }
}

impl Decl {
    /// Lowers this declaration of `file`.
    pub fn to_dissector_info(&self, file: &File) -> (r: Result<DeclDissectorInfo, ErrorKind>)
        ensures
            lowered_as(r, model_of(*file, *self)),
            r is Ok ==> r->Ok_0@.wf(),
    {
        self.lower_at(file, file.declarations.len())
    }

    /// Lowers this declaration of `file`; declarations may nest `depth`
    /// deep below it.
    pub fn lower_at(&self, file: &File, depth: usize) -> (r: Result<DeclDissectorInfo, ErrorKind>)
        ensures
            lowered_as(r, lower_decl(*file, *self, depth as nat)),
            r is Ok ==> r->Ok_0@.wf(),
        decreases depth, 3nat, 0nat,
    {
        match &self.desc {
            DeclDesc::Enum { id, tags, width } => {
                if *width % 8 != 0 {
                    Err(ErrorKind::UnsupportedConstruct)
                } else {
                    Ok(
                        DeclDissectorInfo::Enum {
                            name: id.clone(),
                            values: duplicate_tags(tags),
                            len: BitLen(*width),
                        },
                    )
                }
            },
            DeclDesc::Checksum { id, width, .. } => Ok(
                DeclDissectorInfo::Checksum { name: id.clone(), len: BitLen(*width) },
            ),
            DeclDesc::CustomField { id, width, .. } => match width {
                Some(bits) => Ok(
                    DeclDissectorInfo::Checksum { name: id.clone(), len: BitLen(*bits) },
                ),
                None => Err(ErrorKind::UnsupportedConstruct),
            },
            DeclDesc::Test { .. } => Err(ErrorKind::UnsupportedConstruct),
            _ => {
                let name = match self.id() {
                    Some(id) => id.clone(),
                    None => String::new(),
                };
                let fields = match self.lower_field_list(file, depth) {
                    Ok(fields) => fields,
                    Err(e) => {
                        return Err(e);
                    },
                };
                let children = match self.lower_child_list(file, depth) {
                    Ok(children) => children,
                    Err(e) => {
                        return Err(e);
                    },
                };
                let constraints = match self.lower_constraint_list(file) {
                    Ok(constraints) => constraints,
                    Err(e) => {
                        return Err(e);
                    },
                };
                let r = DeclDissectorInfo::Sequence { name, fields, children, constraints };
                proof {
                    lemma_sequence_view(r);
                }
                Ok(r)
            },
        }
    }

    /// Lowers the fields of this declaration from left to right.
    fn lower_field_list(&self, file: &File, depth: usize) -> (r: Result<
        Vec<FieldDissectorInfo>,
        ErrorKind,
    >)
        ensures
            match lower_fields(
                *file,
                *self,
                self.field_seq(),
                self.field_seq().len(),
                depth as nat,
            ) {
                Ok(state) => r is Ok && fields_view(r->Ok_0@) == state.fields,
                Err(e) => r is Err && r->Err_0 == e,
            },
            r is Ok ==> {
                &&& forall|k: int|
                    0 <= k < r->Ok_0.len() ==> (#[trigger] fields_view(r->Ok_0@)[k]).wf()
                &&& forall|n: nat|
                    n <= r->Ok_0.len() ==> (#[trigger] sum_len(fields_view(r->Ok_0@), n)).fits()
            },
        decreases depth, 2nat, 0nat,
    {
        let mut fields: Vec<FieldDissectorInfo> = Vec::new();
        let mut ctx = FieldContext::new();
        let mut bit_offset = BitLen(0);
        let mut total = RuntimeLenInfo::empty();
        let list = match self.fields() {
            Some(list) => list,
            None => {
                assert(fields_view(fields@) =~= Seq::<FieldModel>::empty());
                return Ok(fields);
            },
        };
        let ghost all = self.field_seq();
        let mut i: usize = 0;
        assert(fields_view(fields@) =~= Seq::<FieldModel>::empty());
        while i < list.len()
            invariant
                i <= list.len(),
                list@ == all,
                all == self.field_seq(),
                lower_fields(*file, *self, all, i as nat, depth as nat) == Ok::<
                    FieldsState,
                    ErrorKind,
                >(
                    FieldsState {
                        ctx: ctx@,
                        bit_offset: bit_offset@,
                        fields: fields_view(fields@),
                        total: total@,
                    },
                ),
                bit_offset.0 < 8,
                ctx.num_fixed <= i,
                ctx.num_reserved <= i,
                forall|k: int| 0 <= k < fields.len() ==> (#[trigger] fields_view(fields@)[k]).wf(),
                forall|n: nat|
                    n <= fields.len() ==> (#[trigger] sum_len(fields_view(fields@), n)).fits(),
                total@ == sum_len(fields_view(fields@), fields.len() as nat),
            decreases list.len() - i,
        {
            let field = &list[i];
            let ghost before = fields_view(fields@);
            let ghost state = FieldsState {
                ctx: ctx@,
                bit_offset: bit_offset@,
                fields: before,
                total: total@,
            };
            let ghost held = fields@;
            let mut last = fields.pop();
            proof {
                if held.len() > 0 {
                    lemma_fields_view_drop_last(held);
                }
            }
            let lowered = match &mut last {
                Some(l) => field.to_dissector_info(&mut ctx, &bit_offset, self, file, depth, Some(l)),
                None => field.to_dissector_info(&mut ctx, &bit_offset, self, file, depth, None),
            };
            let emitted = match lowered {
                Ok(emitted) => emitted,
                Err(e) => {
                    proof {
                        lemma_fields_error_sticks(
                            *file,
                            *self,
                            all,
                            (i + 1) as nat,
                            all.len(),
                            depth as nat,
                        );
                    }
                    return Err(e);
                },
            };
            match last {
                Some(l) => {
                    proof {
                        lemma_fields_view_push(fields@, l);
                    }
                    fields.push(l);
                },
                None => {},
            }
            let ghost kept = fields_view(fields@);
            proof {
                assert(kept.len() == before.len());
                assert forall|k: int| 0 <= k < kept.len() implies (#[trigger] kept[k]).len()
                    == before[k].len() && kept[k].wf() by {
                    if k < kept.len() - 1 {
                        assert(kept[k] == before[k]);
                    }
                }
                assert forall|n: nat| n <= kept.len() implies (#[trigger] sum_len(kept, n)).fits() by {
                    lemma_sum_len_prefix(kept, before, n);
                }
                lemma_sum_len_prefix(kept, before, kept.len());
            }
            match emitted {
                Some(info) => {
                    let item_len = info.len();
                    if !total.try_add(&item_len) {
                        proof {
                            lemma_fields_error_sticks(
                                *file,
                                *self,
                                all,
                                (i + 1) as nat,
                                all.len(),
                                depth as nat,
                            );
                        }
                        return Err(ErrorKind::UnsupportedConstruct);
                    }
                    bit_offset = BitLen((bit_offset.0 + item_len.bit_offset().0) % 8);
                    proof {
                        lemma_fields_view_push(fields@, info);
                        let next = kept.push(info@);
                        assert forall|n: nat| n <= next.len() implies (#[trigger] sum_len(
                            next,
                            n,
                        )).fits() by {
                            if n <= kept.len() {
                                lemma_sum_len_prefix(next, kept, n);
                            } else {
                                lemma_sum_len_prefix(next, kept, kept.len());
                            }
                        }
                        lemma_sum_len_prefix(next, kept, kept.len());
                    }
                    fields.push(info);
                },
                None => {},
            }
            i = i + 1;
        }
        Ok(fields)
    }

    /// Lowers the declarations that derive from this one, in file order.
    fn lower_child_list(&self, file: &File, depth: usize) -> (r: Result<
        Vec<DeclDissectorInfo>,
        ErrorKind,
    >)
        ensures
            match lower_children(*file, file.children_of(self), depth as nat) {
                Ok(models) => r is Ok && decls_view(r->Ok_0@) == models,
                Err(e) => r is Err && r->Err_0 == e,
            },
            r is Ok ==> forall|k: int|
                0 <= k < r->Ok_0.len() ==> (#[trigger] decls_view(r->Ok_0@)[k]).wf(),
        decreases depth, 2nat, 0nat,
    {
        let indices = child_indices(file, self);
        let ghost kids = file.children_of(self);
        let mut children: Vec<DeclDissectorInfo> = Vec::new();
        let mut k: usize = 0;
        assert(kids.take(0) =~= Seq::<Decl>::empty());
        assert(decls_view(children@) =~= Seq::<DeclModel>::empty());
        while k < indices.len()
            invariant
                k <= indices.len(),
                kids == file.children_of(self),
                kids == decls_at(*file, indices@),
                forall|j: int| 0 <= j < indices.len() ==> #[trigger] indices[j] < file.declarations.len(),
                lower_children(*file, kids.take(k as int), depth as nat) == Ok::<
                    Seq<DeclModel>,
                    ErrorKind,
                >(decls_view(children@)),
                forall|j: int|
                    0 <= j < children.len() ==> (#[trigger] decls_view(children@)[j]).wf(),
            decreases indices.len() - k,
        {
            let child = &file.declarations[indices[k]];
            proof {
                assert(kids[k as int] == *child);
                assert(kids.take(k + 1).drop_last() =~= kids.take(k as int));
                assert(kids.take(k + 1).last() == *child);
            }
            if depth == 0 {
                proof {
                    lemma_children_error_sticks(*file, kids, k + 1, kids.len() as int, depth as nat);
                    assert(kids.take(kids.len() as int) =~= kids);
                }
                return Err(ErrorKind::UnsupportedConstruct);
            }
            match child.lower_at(file, depth - 1) {
                Ok(model) => {
                    let ghost before = children@;
                    children.push(model);
                    assert(decls_view(children@) =~= decls_view(before).push(model@));
                },
                Err(e) => {
                    proof {
                        lemma_children_error_sticks(
                            *file,
                            kids,
                            k + 1,
                            kids.len() as int,
                            depth as nat,
                        );
                        assert(kids.take(kids.len() as int) =~= kids);
                    }
                    return Err(e);
                },
            }
            k = k + 1;
        }
        assert(kids.take(k as int) =~= kids);
        Ok(children)
    }

    /// Lowers the constraints of this declaration, in order.
    fn lower_constraint_list(&self, file: &File) -> (r: Result<
        Vec<ConstraintDissectorInfo>,
        ErrorKind,
    >)
        ensures
            match lower_constraints(
                *file,
                *self,
                self.constraint_seq(),
                self.constraint_seq().len(),
            ) {
                Ok(models) => r is Ok && constraints_view(r->Ok_0@) == models,
                Err(e) => r is Err && r->Err_0 == e,
            },
    {
        let mut constraints: Vec<ConstraintDissectorInfo> = Vec::new();
        assert(constraints_view(constraints@) =~= Seq::<ConstraintModel>::empty());
        let list = match self.constraints() {
            Some(list) => list,
            None => {
                return Ok(constraints);
            },
        };
        let ghost all = self.constraint_seq();
        let mut i: usize = 0;
        while i < list.len()
            invariant
                i <= list.len(),
                list@ == all,
                all == self.constraint_seq(),
                lower_constraints(*file, *self, all, i as nat) == Ok::<
                    Seq<ConstraintModel>,
                    ErrorKind,
                >(constraints_view(constraints@)),
            decreases list.len() - i,
        {
            match list[i].to_dissector_info(file, self) {
                Ok(model) => {
                    let ghost before = constraints@;
                    constraints.push(model);
                    assert(constraints_view(constraints@) =~= constraints_view(before).push(
                        model@,
                    ));
                },
                Err(e) => {
                    proof {
                        lemma_constraints_error_sticks(
                            *file,
                            *self,
                            all,
                            (i + 1) as nat,
                            all.len(),
                        );
                    }
                    return Err(e);
                },
            }
            i = i + 1;
        }
        Ok(constraints)
    }
}

} // verus!
