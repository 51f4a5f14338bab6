//! Laws of the length algebra, of the model and of lowering that hold of
//! every input.

use vstd::prelude::*;
use crate::ast::{Decl, Field, FieldDesc, File};
use crate::driver::run_text;
use crate::error::ErrorKind;
use crate::len_info::RuntimeLen;
use crate::lower::{lemma_sum_len_prefix, lowered_as};
use crate::model::{ConstraintModel, DeclModel, FieldModel, TagModel};
use crate::proto_fields::{catch_all_definitions, tag_definition, tag_definitions};
use crate::text::lemma_after_nothing;
use crate::rules::{FieldsState, lower_field, lower_fields, padded};

verus! {

/// Adding the empty length changes nothing.
pub proof fn lemma_empty_is_neutral(len: RuntimeLen)
    ensures
        RuntimeLen::empty().plus(len) == len,
        len.plus(RuntimeLen::empty()) == len,
{
    match len {
        RuntimeLen::Bounded { refs, const_bits } => {
            assert(Seq::<Seq<char>>::empty() + refs =~= refs);
            assert(refs + Seq::<Seq<char>>::empty() =~= refs);
        },
        RuntimeLen::Unbounded => {},
    }
}

/// Adding lengths is associative.
pub proof fn lemma_plus_is_associative(a: RuntimeLen, b: RuntimeLen, c: RuntimeLen)
    ensures
        a.plus(b).plus(c) == a.plus(b.plus(c)),
{
    match (a, b, c) {
        (
            RuntimeLen::Bounded { refs: r1, .. },
            RuntimeLen::Bounded { refs: r2, .. },
            RuntimeLen::Bounded { refs: r3, .. },
        ) => {
            assert((r1 + r2) + r3 =~= r1 + (r2 + r3));
        },
        _ => {},
    }
}

/// Anything plus an unbounded length is unbounded.
pub proof fn lemma_unbounded_absorbs(len: RuntimeLen)
    ensures
        len.plus(RuntimeLen::Unbounded) == RuntimeLen::Unbounded,
        RuntimeLen::Unbounded.plus(len) == RuntimeLen::Unbounded,
{
}

/// The length of a sequence is the sum of the lengths of its fields: that
/// of a sequence without fields is empty, and one more field adds its
/// length.
pub proof fn lemma_decl_len_sums_fields(
    name: Seq<char>,
    fields: Seq<FieldModel>,
    field: FieldModel,
    children: Seq<DeclModel>,
    constraints: Seq<ConstraintModel>,
)
    ensures
        (DeclModel::Sequence { name, fields: Seq::empty(), children, constraints }).decl_len()
            == RuntimeLen::empty(),
        (DeclModel::Sequence { name, fields: fields.push(field), children, constraints }).decl_len()
            == (DeclModel::Sequence { name, fields, children, constraints }).decl_len().plus(
            field.len(),
        ),
{
    let more = fields.push(field);
    lemma_sum_len_prefix(more, fields, fields.len());
    assert(more[more.len() - 1] == field);
}

/// A field with a width of its own is unaligned exactly if it starts
/// inside an octet or its width is no whole number of octets.
pub proof fn lemma_unaligned_iff(field: FieldModel)
    requires
        field is Scalar || field is Payload || field is ScalarArray,
    ensures
        field.is_unaligned() <==> (field.common().bit_offset % 8 != 0 || match field {
            FieldModel::Scalar { ftype, .. } => ftype is Some && ftype->0 % 8 != 0,
            FieldModel::Payload { ftype, .. } => ftype is Some && ftype->0 % 8 != 0,
            FieldModel::ScalarArray { ftype, .. } => ftype is Some && ftype->0 % 8 != 0,
            _ => false,
        }),
{
}

/// After each field that joins the model, the running bit offset is the
/// offset before it plus the length of the field, modulo 8, and the field
/// itself starts at the offset before it unless it is an array of scalars.
/// A field that adds nothing to the model leaves the offset as it is.
pub proof fn lemma_bit_offset_runs(file: File, decl: Decl, fields: Seq<Field>, n: nat, depth: nat)
    requires
        n < fields.len(),
        lower_fields(file, decl, fields, n, depth) is Ok,
        lower_fields(file, decl, fields, n + 1, depth) is Ok,
    ensures
        ({
            let before = lower_fields(file, decl, fields, n, depth)->Ok_0;
            let after = lower_fields(file, decl, fields, n + 1, depth)->Ok_0;
            if after.fields.len() == before.fields.len() + 1 {
                &&& after.bit_offset == (before.bit_offset + after.fields.last().len().bit_offset())
                    % 8
                &&& !(after.fields.last() is ScalarArray) ==> after.fields.last().common().bit_offset
                    == before.bit_offset
            } else {
                after.bit_offset == before.bit_offset
            }
        }),
{
    let before = lower_fields(file, decl, fields, n, depth)->Ok_0;
    let step = lower_field(
        file,
        decl,
        before.ctx,
        before.bit_offset,
        before.last(),
        fields[n as int],
        depth,
    );
    assert(step is Ok);
    assert(lower_fields(file, decl, fields, n + 1, depth) == before.after(step->Ok_0));
}

/// The bit offset that lowering keeps is always less than 8.
pub proof fn lemma_bit_offset_below_eight(
    file: File,
    decl: Decl,
    fields: Seq<Field>,
    n: nat,
    depth: nat,
)
    requires
        lower_fields(file, decl, fields, n, depth) is Ok,
    ensures
        lower_fields(file, decl, fields, n, depth)->Ok_0.bit_offset < 8,
    decreases n,
{
    if n == 0 || n > fields.len() {
    } else {
        lemma_bit_offset_below_eight(file, decl, fields, (n - 1) as nat, depth);
    }
}

/// A padding field after an array adds no field to the model: the array
/// before it gets the padding as its least size and ` (Padded)` after its
/// shown name, and every other field stays as it is. After anything but
/// an array, the padding is an error.
pub proof fn lemma_padding_folds(
    file: File,
    decl: Decl,
    fields: Seq<Field>,
    n: nat,
    depth: nat,
    octets: usize,
)
    requires
        n < fields.len(),
        fields[n as int].desc == (FieldDesc::Padding { size: octets }),
        lower_fields(file, decl, fields, n, depth) is Ok,
    ensures
        ({
            let before = lower_fields(file, decl, fields, n, depth)->Ok_0;
            let after = lower_fields(file, decl, fields, n + 1, depth);
            match padded(before.last(), octets as nat) {
                Some(array) => {
                    &&& after is Ok
                    &&& after->Ok_0.fields == before.fields.drop_last().push(array)
                    &&& after->Ok_0.fields.len() == before.fields.len()
                    &&& array.common().display_name == before.fields.last().common().display_name
                        + " (Padded)"@
                    &&& match array {
                        FieldModel::TypedefArray { attrs, .. } => attrs.pad_to_size == Some(
                            octets as nat,
                        ),
                        FieldModel::ScalarArray { attrs, .. } => attrs.pad_to_size == Some(
                            octets as nat,
                        ),
                        _ => false,
                    }
                },
                None => after == Err::<FieldsState, ErrorKind>(ErrorKind::BadPadding),
            }
        }),
        padded(lower_fields(file, decl, fields, n, depth)->Ok_0.last(), octets as nat) is Some <==> {
            let before = lower_fields(file, decl, fields, n, depth)->Ok_0;
            before.fields.len() > 0 && (before.fields.last() is TypedefArray
                || before.fields.last() is ScalarArray)
        },
{
    let before = lower_fields(file, decl, fields, n, depth)->Ok_0;
    let step = lower_field(
        file,
        decl,
        before.ctx,
        before.bit_offset,
        before.last(),
        fields[n as int],
        depth,
    );
    match padded(before.last(), octets as nat) {
        Some(array) => {
            assert(step is Ok);
            assert(step->Ok_0.last == Some(array));
            assert(step->Ok_0.emitted is None);
            assert(lower_fields(file, decl, fields, n + 1, depth) == before.after(step->Ok_0));
            assert(before.fields.len() > 0);
        },
        None => {
            assert(step is Err);
        },
    }
}

/// The definitions of the catch-all tags among the first `n` tags, when
/// the tag at `k` is the only catch-all: nothing up to `k`, its
/// definition after it.
proof fn lemma_one_catch_all(name: Seq<char>, tags: Seq<TagModel>, k: int, n: nat)
    requires
        0 <= k < tags.len(),
        n <= tags.len(),
        tags[k] is Other,
        forall|j: int| 0 <= j < tags.len() && j != k ==> !(#[trigger] tags[j] is Other),
    ensures
        catch_all_definitions(name, tags, n) == if n <= k {
            Seq::<char>::empty()
        } else {
            tag_definition(name, tags[k])
        },
    decreases n,
{
    if n > 0 {
        lemma_one_catch_all(name, tags, k, (n - 1) as nat);
        if n - 1 == k {
            lemma_after_nothing(tag_definition(name, tags[k]));
        }
    }
}

/// The catch-all tag is registered last. The table of an enum is its
/// opening line, then the definitions of its value and range tags, then
/// the definitions of its catch-all tags; with one catch-all tag,
/// wherever it is declared, the table ends with the definition of that
/// tag.
pub proof fn lemma_catch_all_is_registered_last(
    name: Seq<char>,
    tags: Seq<TagModel>,
    len: nat,
    k: int,
)
    requires
        0 <= k < tags.len(),
        tags[k] is Other,
        forall|j: int| 0 <= j < tags.len() && j != k ==> !(#[trigger] tags[j] is Other),
    ensures
        (DeclModel::Enum { name, tags, len }).proto_fields_text() == name
            + "_enum = ProtoEnum:new()\n"@ + tag_definitions(name, tags, tags.len())
            + tag_definition(name, tags[k]),
{
    lemma_one_catch_all(name, tags, k, tags.len());
}

/// Generation is a function of its inputs: two runs on the same file,
/// targets and prelude give the same text, or the same error.
pub proof fn lemma_run_is_deterministic(
    file: File,
    targets: Seq<Seq<char>>,
    prelude: Seq<char>,
    first: Result<String, ErrorKind>,
    second: Result<String, ErrorKind>,
)
    requires
        lowered_as(first, run_text(file, targets, prelude)),
        lowered_as(second, run_text(file, targets, prelude)),
    ensures
        first is Ok <==> second is Ok,
        first is Ok ==> first->Ok_0@ == second->Ok_0@,
        first is Err ==> first->Err_0 == second->Err_0,
{
}

} // verus!
