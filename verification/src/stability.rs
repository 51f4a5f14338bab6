//! Order stability: what a declaration is lowered to depends on the file
//! only through its lookups, so declarations that nothing derives from
//! and that derive from nothing can change places without any block of
//! text changing.

use vstd::prelude::*;
use crate::ast::{Constraint, Decl, DeclDesc, Field, FieldDesc, File, children_among, find_decl};
use crate::driver::{decl_block, decl_blocks, registration, target_registration};
use crate::error::ErrorKind;
use crate::model::FieldModel;
use crate::text::lemma_after_nothing;
use crate::rules::{
    ContextModel,
    ancestor_field_type,
    lower_children,
    lower_constraint,
    lower_constraints,
    lower_decl,
    lower_field,
    lower_fields,
    lower_typedef,
    model_of,
};

verus! {

/// Two files that offer the same lookups: the same comments and byte
/// order, as many declarations, the same declaration under every type
/// name, and the same children of every named declaration.
pub open spec fn same_scope(a: File, b: File) -> bool {
    &&& a.comments@ == b.comments@
    &&& a.endianness == b.endianness
    &&& a.declarations@.len() == b.declarations@.len()
    &&& forall|name: Seq<char>| #[trigger] a.typedef_of(name) == b.typedef_of(name)
    &&& forall|parent: Decl|
        parent.name() is Some ==> #[trigger] a.children_of(&parent) == b.children_of(&parent)
}

/// `b` is `a` with the declarations at `i` and `i + 1` in each other's
/// place.
pub open spec fn swapped_at(a: File, b: File, i: int) -> bool {
    &&& 0 <= i
    &&& i + 1 < a.declarations@.len()
    &&& a.comments@ == b.comments@
    &&& a.endianness == b.endianness
    &&& b.declarations@ == a.declarations@.update(i, a.declarations@[i + 1]).update(
        i + 1,
        a.declarations@[i],
    )
}

/// The position in `a` of the declaration that stands at `k` once the
/// declarations at `i` and `i + 1` have changed places.
pub open spec fn swap_index(i: int, k: int) -> int {
    if k == i {
        i + 1
    } else if k == i + 1 {
        i
    } else {
        k
    }
}

proof fn lemma_same_ancestor(a: File, b: File, decl: Decl, id: Seq<char>, depth: nat)
    requires
        same_scope(a, b),
    ensures
        ancestor_field_type(a, decl, id, depth) == ancestor_field_type(b, decl, id, depth),
    decreases depth,
{
    if decl.parent_name() is Some {
        assert(a.typedef_of(decl.parent_name()->0) == b.typedef_of(decl.parent_name()->0));
    }
    if depth > 0 && a.parent_of(&decl) is Some {
        lemma_same_ancestor(a, b, a.parent_of(&decl)->0, id, (depth - 1) as nat);
    }
}

proof fn lemma_same_constraint(a: File, b: File, decl: Decl, constraint: Constraint)
    requires
        same_scope(a, b),
    ensures
        lower_constraint(a, decl, constraint) == lower_constraint(b, decl, constraint),
{
    if decl.parent_name() is Some {
        assert(a.typedef_of(decl.parent_name()->0) == b.typedef_of(decl.parent_name()->0));
    }
    if a.parent_of(&decl) is Some {
        lemma_same_ancestor(a, b, a.parent_of(&decl)->0, constraint.id@, a.declarations@.len());
    }
}

proof fn lemma_same_constraints(a: File, b: File, decl: Decl, constraints: Seq<Constraint>, n: nat)
    requires
        same_scope(a, b),
    ensures
        lower_constraints(a, decl, constraints, n) == lower_constraints(b, decl, constraints, n),
    decreases n,
{
    if n == 0 || n > constraints.len() {
    } else {
        lemma_same_constraints(a, b, decl, constraints, (n - 1) as nat);
        lemma_same_constraint(a, b, decl, constraints[n - 1]);
    }
}

proof fn lemma_same_typedef(a: File, b: File, name: Seq<char>, depth: nat)
    requires
        same_scope(a, b),
    ensures
        lower_typedef(a, name, depth) == lower_typedef(b, name, depth),
    decreases depth, 0nat, 0nat,
{
    assert(a.typedef_of(name) == b.typedef_of(name));
    if a.typedef_of(name) is Some && depth > 0 {
        lemma_same_decl(a, b, a.typedef_of(name)->0, (depth - 1) as nat);
    }
}

proof fn lemma_same_field(
    a: File,
    b: File,
    decl: Decl,
    ctx: ContextModel,
    bit_offset: nat,
    last: Option<FieldModel>,
    field: Field,
    depth: nat,
)
    requires
        same_scope(a, b),
        decl.name() is Some,
    ensures
        lower_field(a, decl, ctx, bit_offset, last, field, depth) == lower_field(
            b,
            decl,
            ctx,
            bit_offset,
            last,
            field,
            depth,
        ),
    decreases depth, 1nat, 0nat,
{
    assert(a.children_of(&decl) == b.children_of(&decl));
    match field.desc {
        FieldDesc::FixedEnum { enum_id, .. } => {
            lemma_same_typedef(a, b, enum_id@, depth);
        },
        FieldDesc::Array { type_id: Some(item_type), .. } => {
            lemma_same_typedef(a, b, item_type@, depth);
        },
        FieldDesc::Typedef { type_id, .. } => {
            lemma_same_typedef(a, b, type_id@, depth);
        },
        _ => {},
    }
}

proof fn lemma_same_fields(a: File, b: File, decl: Decl, fields: Seq<Field>, n: nat, depth: nat)
    requires
        same_scope(a, b),
        decl.name() is Some,
    ensures
        lower_fields(a, decl, fields, n, depth) == lower_fields(b, decl, fields, n, depth),
    decreases depth, 2nat, n,
{
    if n == 0 || n > fields.len() {
    } else {
        lemma_same_fields(a, b, decl, fields, (n - 1) as nat, depth);
        match lower_fields(a, decl, fields, (n - 1) as nat, depth) {
            Ok(state) => {
                lemma_same_field(
                    a,
                    b,
                    decl,
                    state.ctx,
                    state.bit_offset,
                    state.last(),
                    fields[n - 1],
                    depth,
                );
            },
            Err(_) => {},
        }
    }
}

proof fn lemma_same_children(a: File, b: File, kids: Seq<Decl>, depth: nat)
    requires
        same_scope(a, b),
    ensures
        lower_children(a, kids, depth) == lower_children(b, kids, depth),
    decreases depth, 2nat, kids.len(),
{
    if kids.len() > 0 {
        lemma_same_children(a, b, kids.drop_last(), depth);
        if depth > 0 {
            lemma_same_decl(a, b, kids.last(), (depth - 1) as nat);
        }
    }
}

/// Files that offer the same lookups lower every declaration to the same
/// model.
pub proof fn lemma_same_decl(a: File, b: File, decl: Decl, depth: nat)
    requires
        same_scope(a, b),
    ensures
        lower_decl(a, decl, depth) == lower_decl(b, decl, depth),
    decreases depth, 3nat, 0nat,
{
    match decl.desc {
        DeclDesc::Enum { .. } => {},
        DeclDesc::Checksum { .. } => {},
        DeclDesc::CustomField { .. } => {},
        DeclDesc::Test { .. } => {},
        _ => {
            assert(decl.name() is Some);
            assert(a.children_of(&decl) == b.children_of(&decl));
            lemma_same_fields(a, b, decl, decl.field_seq(), decl.field_seq().len(), depth);
            lemma_same_children(a, b, a.children_of(&decl), depth);
            lemma_same_constraints(
                a,
                b,
                decl,
                decl.constraint_seq(),
                decl.constraint_seq().len(),
            );
        },
    }
}

/// Looking a name up among declarations does not depend on the order of
/// two neighbours with different names.
proof fn lemma_find_decl_swap(decls: Seq<Decl>, i: int, name: Seq<char>)
    requires
        0 <= i,
        i + 1 < decls.len(),
        decls[i].name() != decls[i + 1].name(),
    ensures
        find_decl(decls.update(i, decls[i + 1]).update(i + 1, decls[i]), name) == find_decl(
            decls,
            name,
        ),
    decreases i,
{
    let other = decls.update(i, decls[i + 1]).update(i + 1, decls[i]);
    if i == 0 {
        reveal_with_fuel(find_decl, 3);
        assert(other[0] == decls[1]);
        assert(other.drop_first().drop_first() =~= decls.drop_first().drop_first());
        assert(other.drop_first()[0] == decls[0]);
        assert(decls.drop_first()[0] == decls[1]);
    } else {
        let rest = decls.drop_first();
        assert(other[0] == decls[0]);
        assert(other.drop_first() =~= rest.update(i - 1, rest[i]).update(i, rest[i - 1]));
        lemma_find_decl_swap(rest, i - 1, name);
    }
}

/// The children of a named declaration do not depend on the order of two
/// neighbours that derive from nothing.
proof fn lemma_children_swap(decls: Seq<Decl>, i: int, parent: Decl)
    requires
        0 <= i,
        i + 1 < decls.len(),
        decls[i].parent_name() is None,
        decls[i + 1].parent_name() is None,
        parent.name() is Some,
    ensures
        children_among(decls.update(i, decls[i + 1]).update(i + 1, decls[i]), parent)
            == children_among(decls, parent),
    decreases decls.len(),
{
    let other = decls.update(i, decls[i + 1]).update(i + 1, decls[i]);
    if i + 2 == decls.len() {
        reveal_with_fuel(children_among, 3);
        assert(other.last() == decls[i]);
        assert(decls.last() == decls[i + 1]);
        assert(other.drop_last().drop_last() =~= decls.drop_last().drop_last());
        assert(other.drop_last().last() == decls[i + 1]);
        assert(decls.drop_last().last() == decls[i]);
    } else {
        let rest = decls.drop_last();
        assert(other.last() == decls.last());
        assert(other.drop_last() =~= rest.update(i, rest[i + 1]).update(i + 1, rest[i]));
        lemma_children_swap(rest, i, parent);
    }
}

/// A file and the same file with two neighbours in each other's place
/// offer the same lookups, if the two have different names and derive
/// from nothing.
pub proof fn lemma_swap_keeps_scope(a: File, b: File, i: int)
    requires
        swapped_at(a, b, i),
        a.declarations@[i].name() != a.declarations@[i + 1].name(),
        a.declarations@[i].parent_name() is None,
        a.declarations@[i + 1].parent_name() is None,
    ensures
        same_scope(a, b),
{
    assert forall|name: Seq<char>| #[trigger] a.typedef_of(name) == b.typedef_of(name) by {
        lemma_find_decl_swap(a.declarations@, i, name);
    }
    assert forall|parent: Decl| parent.name() is Some implies #[trigger] a.children_of(&parent)
        == b.children_of(&parent) by {
        lemma_children_swap(a.declarations@, i, parent);
    }
}

/// Order stability. When two neighbouring declarations with different
/// names that derive from nothing change places, the text of no block
/// changes: every declaration has the block and the registration it had,
/// and the block at each position of the new file is the block that
/// stood at the position it came from.
pub proof fn lemma_order_stability(a: File, b: File, i: int)
    requires
        swapped_at(a, b, i),
        a.declarations@[i].name() != a.declarations@[i + 1].name(),
        a.declarations@[i].parent_name() is None,
        a.declarations@[i + 1].parent_name() is None,
    ensures
        forall|decl: Decl| #[trigger] decl_block(b, decl) == decl_block(a, decl),
        forall|name: Seq<char>, decl: Decl| #[trigger]
            registration(b, name, decl) == registration(a, name, decl),
        forall|k: int|
            0 <= k < b.declarations@.len() ==> #[trigger] decl_block(b, b.declarations@[k])
                == decl_block(a, a.declarations@[swap_index(i, k)]),
{
    lemma_swap_keeps_scope(a, b, i);
    assert forall|decl: Decl| #[trigger] model_of(b, decl) == model_of(a, decl) by {
        lemma_same_decl(a, b, decl, a.declarations@.len());
    }
    assert forall|decl: Decl| #[trigger] decl_block(b, decl) == decl_block(a, decl) by {
        reveal(decl_block);
        assert(model_of(b, decl) == model_of(a, decl));
    }
    assert forall|name: Seq<char>, decl: Decl| #[trigger]
        registration(b, name, decl) == registration(a, name, decl) by {
        reveal(registration);
        assert(model_of(b, decl) == model_of(a, decl));
    }
}

/// The blocks of the declarations of `file` from position `from` up to
/// `to`, in file order.
pub open spec fn blocks_between(file: File, from: nat, to: nat) -> Result<Seq<char>, ErrorKind>
    decreases to,
{
    if to <= from || to > file.declarations@.len() {
        Ok(Seq::empty())
    } else {
        match blocks_between(file, from, (to - 1) as nat) {
            Err(e) => Err(e),
            Ok(text) => match decl_block(file, file.declarations@[to - 1]) {
                Err(e) => Err(e),
                Ok(block) => Ok(text + block),
            },
        }
    }
}

/// The blocks of the first `n` declarations are the blocks from the start
/// up to `n`.
proof fn lemma_blocks_from_start(file: File, n: nat)
    requires
        n <= file.declarations@.len(),
    ensures
        decl_blocks(file, n) == blocks_between(file, 0, n),
    decreases n,
{
    if n > 0 {
        lemma_blocks_from_start(file, (n - 1) as nat);
    }
}

/// Blocks that exist as a whole exist in two parts, and are the text of
/// the first part followed by the text of the second.
proof fn lemma_blocks_split(file: File, from: nat, mid: nat, to: nat)
    requires
        from <= mid <= to <= file.declarations@.len(),
        blocks_between(file, from, to) is Ok,
    ensures
        blocks_between(file, from, mid) is Ok,
        blocks_between(file, mid, to) is Ok,
        blocks_between(file, from, to)->Ok_0 == blocks_between(file, from, mid)->Ok_0
            + blocks_between(file, mid, to)->Ok_0,
    decreases to,
{
    if to == mid {
        let whole = blocks_between(file, from, to)->Ok_0;
        assert(whole + Seq::<char>::empty() =~= whole);
    } else {
        lemma_blocks_split(file, from, mid, (to - 1) as nat);
        let head = blocks_between(file, from, mid)->Ok_0;
        let rest = blocks_between(file, mid, (to - 1) as nat)->Ok_0;
        let block = decl_block(file, file.declarations@[to - 1])->Ok_0;
        assert((head + rest) + block =~= head + (rest + block));
    }
}

/// Two parts of blocks that exist give the whole: the text of the first
/// part followed by the text of the second.
proof fn lemma_blocks_join(file: File, from: nat, mid: nat, to: nat)
    requires
        from <= mid <= to <= file.declarations@.len(),
        blocks_between(file, from, mid) is Ok,
        blocks_between(file, mid, to) is Ok,
    ensures
        blocks_between(file, from, to) == Ok::<Seq<char>, ErrorKind>(
            blocks_between(file, from, mid)->Ok_0 + blocks_between(file, mid, to)->Ok_0,
        ),
    decreases to,
{
    if to == mid {
        let head = blocks_between(file, from, mid)->Ok_0;
        assert(head + Seq::<char>::empty() =~= head);
    } else {
        lemma_blocks_join(file, from, mid, (to - 1) as nat);
        let head = blocks_between(file, from, mid)->Ok_0;
        let rest = blocks_between(file, mid, (to - 1) as nat)->Ok_0;
        let block = decl_block(file, file.declarations@[to - 1])->Ok_0;
        assert((head + rest) + block =~= head + (rest + block));
    }
}

/// Files that hold the same declarations at the positions from `from` up
/// to `to`, and give each declaration the same block, have the same
/// blocks there.
proof fn lemma_blocks_same(a: File, b: File, from: nat, to: nat)
    requires
        a.declarations@.len() == b.declarations@.len(),
        to <= a.declarations@.len(),
        forall|k: int| from <= k < to ==> #[trigger] b.declarations@[k] == a.declarations@[k],
        forall|decl: Decl| #[trigger] decl_block(b, decl) == decl_block(a, decl),
    ensures
        blocks_between(b, from, to) == blocks_between(a, from, to),
    decreases to,
{
    if to > from {
        lemma_blocks_same(a, b, from, (to - 1) as nat);
        assert(b.declarations@[to - 1] == a.declarations@[to - 1]);
    }
}

/// Order stability of the whole text. When two neighbouring declarations
/// with different names that derive from nothing change places, and the
/// file can be generated from, then the file with the two in each other's
/// place can be generated from too, and the blocks of its declarations
/// are those of the first file with the two blocks in each other's place:
/// the text before them and the text after them stay as they are. The
/// registration that a target name other than `_all_` asks for is the
/// same for both files.
pub proof fn lemma_swap_permutes_blocks(a: File, b: File, i: int)
    requires
        swapped_at(a, b, i),
        a.declarations@[i].name() != a.declarations@[i + 1].name(),
        a.declarations@[i].parent_name() is None,
        a.declarations@[i + 1].parent_name() is None,
        decl_blocks(a, a.declarations@.len()) is Ok,
    ensures
        blocks_between(a, 0, i as nat) is Ok,
        blocks_between(a, (i + 2) as nat, a.declarations@.len()) is Ok,
        decl_block(a, a.declarations@[i]) is Ok,
        decl_block(a, a.declarations@[i + 1]) is Ok,
        decl_blocks(a, a.declarations@.len()) == Ok::<Seq<char>, ErrorKind>(
            blocks_between(a, 0, i as nat)->Ok_0 + decl_block(a, a.declarations@[i])->Ok_0
                + decl_block(a, a.declarations@[i + 1])->Ok_0 + blocks_between(
                a,
                (i + 2) as nat,
                a.declarations@.len(),
            )->Ok_0,
        ),
        decl_blocks(b, b.declarations@.len()) == Ok::<Seq<char>, ErrorKind>(
            blocks_between(a, 0, i as nat)->Ok_0 + decl_block(a, a.declarations@[i + 1])->Ok_0
                + decl_block(a, a.declarations@[i])->Ok_0 + blocks_between(
                a,
                (i + 2) as nat,
                a.declarations@.len(),
            )->Ok_0,
        ),
        forall|target: Seq<char>|
            target != "_all_"@ ==> #[trigger] target_registration(b, target) == target_registration(
                a,
                target,
            ),
{
    let n = a.declarations@.len();
    let lo = i as nat;
    let hi = (i + 2) as nat;
    lemma_order_stability(a, b, i);
    lemma_swap_keeps_scope(a, b, i);
    lemma_blocks_from_start(a, n);
    lemma_blocks_from_start(b, n);
    lemma_blocks_split(a, 0, lo, n);
    lemma_blocks_split(a, lo, hi, n);
    lemma_blocks_same(a, b, 0, lo);
    lemma_blocks_same(a, b, hi, n);
    let first = decl_block(a, a.declarations@[i]);
    let second = decl_block(a, a.declarations@[i + 1]);
    // The two blocks in the order of `a`.
    let none = blocks_between(a, lo, lo);
    let one = blocks_between(a, lo, (i + 1) as nat);
    let two = blocks_between(a, lo, hi);
    assert(none == Ok::<Seq<char>, ErrorKind>(Seq::empty()));
    assert(two is Ok);
    assert(one is Ok);
    assert(first is Ok);
    assert(second is Ok);
    lemma_after_nothing(first->Ok_0);
    lemma_after_nothing(second->Ok_0);
    assert(one->Ok_0 == first->Ok_0);
    assert(two->Ok_0 == first->Ok_0 + second->Ok_0);
    // The two blocks in the order of `b`.
    assert(b.declarations@[i] == a.declarations@[i + 1]);
    assert(b.declarations@[i + 1] == a.declarations@[i]);
    assert(decl_block(b, b.declarations@[i]) == second);
    assert(decl_block(b, b.declarations@[i + 1]) == first);
    assert(blocks_between(b, lo, lo) == Ok::<Seq<char>, ErrorKind>(Seq::empty()));
    assert(blocks_between(b, lo, (i + 1) as nat) == Ok::<Seq<char>, ErrorKind>(second->Ok_0));
    assert(blocks_between(b, lo, hi) == Ok::<Seq<char>, ErrorKind>(second->Ok_0 + first->Ok_0));
    lemma_blocks_join(b, lo, hi, n);
    lemma_blocks_join(b, 0, lo, n);
    let before = blocks_between(a, 0, lo)->Ok_0;
    let after = blocks_between(a, hi, n)->Ok_0;
    assert(before + ((first->Ok_0 + second->Ok_0) + after) =~= before + first->Ok_0 + second->Ok_0
        + after);
    assert(before + ((second->Ok_0 + first->Ok_0) + after) =~= before + second->Ok_0 + first->Ok_0
        + after);
    assert forall|target: Seq<char>| target != "_all_"@ implies #[trigger] target_registration(
        b,
        target,
    ) == target_registration(a, target) by {
        assert(a.typedef_of(target) == b.typedef_of(target));
    }
}

} // verus!
