//! The lowering rules: what model a declaration of the description file
//! stands for. The functions here are the mathematical statement; the
//! executable lowering is proved against them.

use vstd::prelude::*;
use crate::ast::{Constraint, Decl, DeclDesc, Field, FieldDesc, File, SourceRange};
use crate::comments::{comment_on_line, unwrapped};
use crate::dissector_info::{opt_nat, opt_text, tags_view};
use crate::error::ErrorKind;
use crate::len_info::{RuntimeLen, size_ftype};
use crate::model::{ArrayAttrs, CommonField, ConstraintModel, DeclModel, FieldModel};
use crate::text::{decimal, parse_number};

verus! {

/// What lowering remembers from one field of a declaration to the next.
pub struct ContextModel {
    /// How many fixed fields came before.
    pub num_fixed: nat,
    /// How many reserved fields came before.
    pub num_reserved: nat,
    /// The gates recorded by flag fields, oldest first: the name of the
    /// gated field, then the flag field and the value that lets it through.
    pub gates: Seq<(Seq<char>, (Seq<char>, nat))>,
}

/// What was recorded last for the field `id`: its flag field and value.
pub open spec fn lookup_gate(gates: Seq<(Seq<char>, (Seq<char>, nat))>, id: Seq<char>) -> Option<
    (Seq<char>, nat),
>
    decreases gates.len(),
{
    if gates.len() == 0 {
        None
    } else if gates.last().0 == id {
        Some(gates.last().1)
    } else {
        lookup_gate(gates.drop_last(), id)
    }
}

impl ContextModel {
    pub open spec fn new() -> ContextModel {
        ContextModel { num_fixed: 0, num_reserved: 0, gates: Seq::empty() }
    }

    pub open spec fn gate_of(self, id: Seq<char>) -> Option<(Seq<char>, nat)> {
        lookup_gate(self.gates, id)
    }
}

/// The outcome of lowering one field: the context for the next field, the
/// field before this one as it is now, and the field that joins the
/// model, if one does.
pub struct FieldStep {
    pub ctx: ContextModel,
    pub last: Option<FieldModel>,
    pub emitted: Option<FieldModel>,
}

/// The text of the comment that trails the source range `loc`.
pub open spec fn field_comment(file: File, loc: SourceRange) -> Option<Seq<char>> {
    match comment_on_line(file.comments@, loc) {
        Some(comment) => Some(unwrapped(comment.text@)),
        None => None,
    }
}

/// The common part of the model of `field`.
pub open spec fn common_of(
    file: File,
    field: Field,
    display_name: Seq<char>,
    abbr: Seq<char>,
    bit_offset: nat,
) -> CommonField {
    CommonField {
        display_name,
        abbr,
        bit_offset,
        endian: file.endianness,
        comments: field_comment(file, field.loc),
    }
}

/// How the target of a size or count field is shown: the payload by the
/// word `Payload`, any other field by its name.
pub open spec fn shown_target(field_id: Seq<char>) -> Seq<char> {
    if field_id == "_payload_"@ {
        "Payload"@
    } else {
        field_id
    }
}

/// Whether `field` is the size field of the field `id`.
pub open spec fn is_size_of(field: Field, id: Seq<char>) -> bool {
    match field.desc {
        FieldDesc::Size { field_id, .. } => field_id@ == id,
        _ => false,
    }
}

/// Whether `field` is the count field of the field `id`.
pub open spec fn is_count_of(field: Field, id: Seq<char>) -> bool {
    match field.desc {
        FieldDesc::Count { field_id, .. } => field_id@ == id,
        _ => false,
    }
}

/// Whether `decl` has a size field for the field `id`.
pub open spec fn has_size_sibling(decl: Decl, id: Seq<char>) -> bool {
    exists|i: int| 0 <= i < decl.field_seq().len() && is_size_of(#[trigger] decl.field_seq()[i], id)
}

/// Whether `decl` has a count field for the field `id`.
pub open spec fn has_count_sibling(decl: Decl, id: Seq<char>) -> bool {
    exists|i: int|
        0 <= i < decl.field_seq().len() && is_count_of(#[trigger] decl.field_seq()[i], id)
}

/// The array attributes of an array field `id` of `decl`.
pub open spec fn array_attrs(
    decl: Decl,
    id: Seq<char>,
    size_modifier: Option<String>,
    size: Option<usize>,
) -> ArrayAttrs {
    ArrayAttrs {
        count: opt_nat(size),
        size_modifier: opt_text(size_modifier),
        pad_to_size: None,
        has_size_sibling: has_size_sibling(decl, id),
        has_count_sibling: has_count_sibling(decl, id),
    }
}

/// The names of `kids`, leaving out those without one.
pub open spec fn child_names(kids: Seq<Decl>) -> Seq<Seq<char>>
    decreases kids.len(),
{
    if kids.len() == 0 {
        Seq::empty()
    } else {
        match kids.last().name() {
            Some(name) => child_names(kids.drop_last()).push(name),
            None => child_names(kids.drop_last()),
        }
    }
}

/// The constant number of bits a payload's size modifier adds: the
/// modifier is a number of octets. `None` where the modifier is no number
/// or the number of bits does not fit a machine word.
pub open spec fn payload_modifier_bits(size_modifier: Option<String>) -> Option<nat> {
    match size_modifier {
        None => Some(0),
        Some(text) => match parse_number(text@) {
            Some(octets) => if octets * 8 <= usize::MAX {
                Some(octets * 8)
            } else {
                None
            },
            None => None,
        },
    }
}

/// An array field with the padding of `octets` octets folded into it: its
/// shown name gains ` (Padded)`. `None` where `last` is no array.
pub open spec fn padded(last: Option<FieldModel>, octets: nat) -> Option<FieldModel> {
    match last {
        Some(FieldModel::TypedefArray { common, decl, attrs }) => Some(
            FieldModel::TypedefArray {
                common: CommonField { display_name: common.display_name + " (Padded)"@, ..common },
                decl,
                attrs: ArrayAttrs { pad_to_size: Some(octets), ..attrs },
            },
        ),
        Some(FieldModel::ScalarArray { common, ftype, item_bits, attrs }) => Some(
            FieldModel::ScalarArray {
                common: CommonField { display_name: common.display_name + " (Padded)"@, ..common },
                ftype,
                item_bits,
                attrs: ArrayAttrs { pad_to_size: Some(octets), ..attrs },
            },
        ),
        _ => None,
    }
}

/// A step that adds `field` to the model.
pub open spec fn emit(ctx: ContextModel, last: Option<FieldModel>, field: FieldModel) -> Result<
    FieldStep,
    ErrorKind,
> {
    Ok(FieldStep { ctx, last, emitted: Some(field) })
}

/// The model of the declaration that the type name `name` stands for,
/// lowered with one level of nesting less.
pub open spec fn lower_typedef(file: File, name: Seq<char>, depth: nat) -> Result<
    DeclModel,
    ErrorKind,
>
    decreases depth, 0nat, 0nat,
{
    match file.typedef_of(name) {
        None => Err(ErrorKind::TypedefUnresolved),
        Some(target) => if depth == 0 {
            Err(ErrorKind::UnsupportedConstruct)
        } else {
            lower_decl(file, target, (depth - 1) as nat)
        },
    }
}

/// The model of the size field of the field `field_id`.
pub open spec fn size_field(
    file: File,
    field: Field,
    field_id: Seq<char>,
    width: nat,
    bit_offset: nat,
) -> FieldModel {
    FieldModel::Scalar {
        common: common_of(
            file,
            field,
            "Size("@ + shown_target(field_id) + ")"@,
            field_id + "_size"@,
            bit_offset,
        ),
        ftype: size_ftype(field.size),
        len: RuntimeLen::fixed(width),
        validate: None,
        optional_gate: None,
    }
}

/// The model of the count field of the field `field_id`; its width is a
/// number of octets.
pub open spec fn count_field(
    file: File,
    field: Field,
    field_id: Seq<char>,
    width: nat,
    bit_offset: nat,
) -> FieldModel {
    FieldModel::Scalar {
        common: common_of(
            file,
            field,
            "Count("@ + shown_target(field_id) + ")"@,
            field_id + "_count"@,
            bit_offset,
        ),
        ftype: size_ftype(field.size),
        len: RuntimeLen::fixed(width * 8),
        validate: None,
        optional_gate: None,
    }
}

/// The model of the body of `decl`: a payload that is handed to the
/// declarations that derive from `decl`.
pub open spec fn body_field(file: File, decl: Decl, field: Field, bit_offset: nat) -> FieldModel {
    FieldModel::Payload {
        common: common_of(file, field, "Body"@, "_body_"@, bit_offset),
        ftype: size_ftype(field.size),
        len: RuntimeLen::empty().with_field("_body__size"@, 0),
        children: child_names(file.children_of(&decl)),
    }
}

/// The model of a payload whose size modifier adds `bits` constant bits.
pub open spec fn payload_field(file: File, field: Field, bits: nat, bit_offset: nat) -> FieldModel {
    FieldModel::Payload {
        common: common_of(file, field, "Payload"@, "_payload_"@, bit_offset),
        ftype: size_ftype(field.size),
        len: RuntimeLen::empty().with_field("_payload__size"@, bits),
        children: Seq::empty(),
    }
}

/// The model of a field with the fixed value `value`, the `index`-th
/// fixed field of its declaration.
pub open spec fn fixed_scalar_field(
    file: File,
    field: Field,
    index: nat,
    width: nat,
    value: nat,
    bit_offset: nat,
) -> FieldModel {
    FieldModel::Scalar {
        common: common_of(file, field, "Fixed value"@, "_fixed_"@ + decimal(index), bit_offset),
        ftype: size_ftype(field.size),
        len: RuntimeLen::fixed(width),
        validate: Some("value == "@ + decimal(value)),
        optional_gate: None,
    }
}

/// The model of a field fixed to the tag `tag_id` of the enum `enum_id`,
/// the `index`-th fixed field of its declaration; `len` is the length of
/// the enum.
pub open spec fn fixed_enum_field(
    file: File,
    field: Field,
    index: nat,
    enum_id: Seq<char>,
    tag_id: Seq<char>,
    len: RuntimeLen,
    bit_offset: nat,
) -> FieldModel {
    FieldModel::Scalar {
        common: common_of(
            file,
            field,
            "Fixed value: "@ + tag_id,
            "_fixed_"@ + decimal(index),
            bit_offset,
        ),
        ftype: size_ftype(field.size),
        len,
        validate: Some(enum_id + "_enum:match(\""@ + tag_id + "\", value)"@),
        optional_gate: None,
    }
}

/// The model of a reserved field, the `index`-th of its declaration.
pub open spec fn reserved_field(
    file: File,
    field: Field,
    index: nat,
    width: nat,
    bit_offset: nat,
) -> FieldModel {
    FieldModel::Scalar {
        common: common_of(file, field, "Reserved"@, "_reserved_"@ + decimal(index), bit_offset),
        ftype: Some(width),
        len: RuntimeLen::fixed(width),
        validate: None,
        optional_gate: None,
    }
}

/// The model of an array whose items are of the declared type `item`.
pub open spec fn typedef_array_field(
    file: File,
    field: Field,
    id: Seq<char>,
    item: DeclModel,
    attrs: ArrayAttrs,
    bit_offset: nat,
) -> FieldModel {
    FieldModel::TypedefArray {
        common: common_of(file, field, id, id, bit_offset),
        decl: Box::new(item),
        attrs,
    }
}

/// The model of an array whose items are `item_bits` bits wide. Such an
/// array starts at an octet.
pub open spec fn scalar_array_field(
    file: File,
    field: Field,
    id: Seq<char>,
    item_bits: nat,
    attrs: ArrayAttrs,
) -> FieldModel {
    FieldModel::ScalarArray {
        common: common_of(file, field, id, id, 0),
        ftype: Some(item_bits),
        item_bits,
        attrs,
    }
}

/// The model of a scalar field, open under `gate` if a flag field before
/// it said so.
pub open spec fn scalar_field(
    file: File,
    field: Field,
    id: Seq<char>,
    width: nat,
    gate: Option<(Seq<char>, nat)>,
    bit_offset: nat,
) -> FieldModel {
    FieldModel::Scalar {
        common: common_of(file, field, id, id, bit_offset),
        ftype: Some(width),
        len: RuntimeLen::fixed(width),
        validate: None,
        optional_gate: gate,
    }
}

/// The model of a flag field: one bit.
pub open spec fn flag_field(file: File, field: Field, id: Seq<char>, bit_offset: nat) -> FieldModel {
    FieldModel::Scalar {
        common: common_of(file, field, id, id, bit_offset),
        ftype: size_ftype(field.size),
        len: RuntimeLen::fixed(1),
        validate: None,
        optional_gate: None,
    }
}

/// The model of a field of the declared type `target`, open under `gate`
/// if a flag field before it said so.
pub open spec fn typedef_field(
    file: File,
    field: Field,
    id: Seq<char>,
    target: DeclModel,
    gate: Option<(Seq<char>, nat)>,
    bit_offset: nat,
) -> FieldModel {
    FieldModel::Typedef {
        common: common_of(file, field, id, id, bit_offset),
        decl: Box::new(target),
        optional_gate: gate,
    }
}

/// The outcome of lowering `field` of `decl`, whose first bit lies at
/// `bit_offset` within its octet.
///
/// A checksum start adds nothing. Padding folds into the array before it.
/// A size, count, scalar, flag, reserved or fixed field becomes a scalar;
/// a body or payload becomes a payload; an array becomes an array of
/// scalars or of a declared type, by whether it has a width or a type; a
/// field of a declared type becomes a typedef. A flag field records its
/// gate, and fixed and reserved fields are counted. An element size, a
/// group, a count whose width in bits is too large, a payload modifier
/// that is no number, an array with both or neither of width and type or
/// with inconsistent attributes have no model.
pub open spec fn lower_field(
    file: File,
    decl: Decl,
    ctx: ContextModel,
    bit_offset: nat,
    last: Option<FieldModel>,
    field: Field,
    depth: nat,
) -> Result<FieldStep, ErrorKind>
    decreases depth, 1nat, 0nat,
{
    match field.desc {
        FieldDesc::Checksum { .. } => Ok(FieldStep { ctx, last, emitted: None }),
        FieldDesc::Padding { size } => match padded(last, size as nat) {
            Some(array) => Ok(FieldStep { ctx, last: Some(array), emitted: None }),
            None => Err(ErrorKind::BadPadding),
        },
        FieldDesc::Size { field_id, width } => emit(
            ctx,
            last,
            size_field(file, field, field_id@, width as nat, bit_offset),
        ),
        FieldDesc::Count { field_id, width } => if width * 8 > usize::MAX {
            Err(ErrorKind::UnsupportedConstruct)
        } else {
            emit(ctx, last, count_field(file, field, field_id@, width as nat, bit_offset))
        },
        FieldDesc::ElementSize { .. } => Err(ErrorKind::UnsupportedConstruct),
        FieldDesc::Body => emit(ctx, last, body_field(file, decl, field, bit_offset)),
        FieldDesc::Payload { size_modifier } => match payload_modifier_bits(size_modifier) {
            None => Err(ErrorKind::UnsupportedConstruct),
            Some(bits) => emit(ctx, last, payload_field(file, field, bits, bit_offset)),
        },
        FieldDesc::FixedScalar { width, value } => emit(
            ContextModel { num_fixed: ctx.num_fixed + 1, ..ctx },
            last,
            fixed_scalar_field(
                file,
                field,
                ctx.num_fixed,
                width as nat,
                value as nat,
                bit_offset,
            ),
        ),
        FieldDesc::FixedEnum { enum_id, tag_id } => match lower_typedef(file, enum_id@, depth) {
            Err(e) => Err(e),
            Ok(referenced) => emit(
                ContextModel { num_fixed: ctx.num_fixed + 1, ..ctx },
                last,
                fixed_enum_field(
                    file,
                    field,
                    ctx.num_fixed,
                    enum_id@,
                    tag_id@,
                    referenced.decl_len(),
                    bit_offset,
                ),
            ),
        },
        FieldDesc::Reserved { width } => emit(
            ContextModel { num_reserved: ctx.num_reserved + 1, ..ctx },
            last,
            reserved_field(file, field, ctx.num_reserved, width as nat, bit_offset),
        ),
        FieldDesc::Array { id, width, type_id, size_modifier, size } => match (width, type_id) {
            (None, Some(item_type)) => match lower_typedef(file, item_type@, depth) {
                Err(e) => Err(e),
                Ok(item) => if !array_attrs(decl, id@, size_modifier, size).wf() {
                    Err(ErrorKind::UnsupportedConstruct)
                } else {
                    emit(
                        ctx,
                        last,
                        typedef_array_field(
                            file,
                            field,
                            id@,
                            item,
                            array_attrs(decl, id@, size_modifier, size),
                            bit_offset,
                        ),
                    )
                },
            },
            (Some(item_bits), None) => if !array_attrs(decl, id@, size_modifier, size).wf() {
                Err(ErrorKind::UnsupportedConstruct)
            } else {
                emit(
                    ctx,
                    last,
                    scalar_array_field(
                        file,
                        field,
                        id@,
                        item_bits as nat,
                        array_attrs(decl, id@, size_modifier, size),
                    ),
                )
            },
            _ => Err(ErrorKind::UnsupportedConstruct),
        },
        FieldDesc::Scalar { id, width } => emit(
            ctx,
            last,
            scalar_field(file, field, id@, width as nat, ctx.gate_of(id@), bit_offset),
        ),
        FieldDesc::Flag { id, optional_field_id, set_value } => emit(
            ContextModel {
                gates: ctx.gates.push((optional_field_id@, (id@, set_value as nat))),
                ..ctx
            },
            last,
            flag_field(file, field, id@, bit_offset),
        ),
        FieldDesc::Typedef { id, type_id } => match lower_typedef(file, type_id@, depth) {
            Err(e) => Err(e),
            Ok(target) => emit(
                ctx,
                last,
                typedef_field(file, field, id@, target, ctx.gate_of(id@), bit_offset),
            ),
        },
        FieldDesc::Group { .. } => Err(ErrorKind::UnsupportedConstruct),
    }
}

/// Where lowering stands after some fields of a declaration: the context,
/// the bit offset of the next field, the fields of the model so far, and
/// the sum of their lengths.
pub struct FieldsState {
    pub ctx: ContextModel,
    pub bit_offset: nat,
    pub fields: Seq<FieldModel>,
    pub total: RuntimeLen,
}

impl FieldsState {
    pub open spec fn start() -> FieldsState {
        FieldsState {
            ctx: ContextModel::new(),
            bit_offset: 0,
            fields: Seq::empty(),
            total: RuntimeLen::empty(),
        }
    }

    pub open spec fn last(self) -> Option<FieldModel> {
        if self.fields.len() > 0 {
            Some(self.fields.last())
        } else {
            None
        }
    }

    /// The state after a step. A field that joins the model moves the bit
    /// offset on by its length, modulo 8; the step fails where the sum of
    /// the lengths no longer fits a machine word.
    pub open spec fn after(self, step: FieldStep) -> Result<FieldsState, ErrorKind> {
        let kept = match step.last {
            Some(last) => self.fields.drop_last().push(last),
            None => self.fields,
        };
        match step.emitted {
            None => Ok(FieldsState { ctx: step.ctx, fields: kept, ..self }),
            Some(field) => if self.total.plus(field.len()).fits() {
                Ok(
                    FieldsState {
                        ctx: step.ctx,
                        bit_offset: (self.bit_offset + field.len().bit_offset()) % 8,
                        fields: kept.push(field),
                        total: self.total.plus(field.len()),
                    },
                )
            } else {
                Err(ErrorKind::UnsupportedConstruct)
            },
        }
    }
}

/// The state after lowering the first `n` of `fields`, the fields of
/// `decl`, from left to right. The first field that fails decides the
/// error.
pub open spec fn lower_fields(file: File, decl: Decl, fields: Seq<Field>, n: nat, depth: nat) -> Result<
    FieldsState,
    ErrorKind,
>
    decreases depth, 2nat, n,
{
    if n == 0 || n > fields.len() {
        Ok(FieldsState::start())
    } else {
        match lower_fields(file, decl, fields, (n - 1) as nat, depth) {
            Err(e) => Err(e),
            Ok(state) => match lower_field(
                file,
                decl,
                state.ctx,
                state.bit_offset,
                state.last(),
                fields[n - 1],
                depth,
            ) {
                Err(e) => Err(e),
                Ok(step) => state.after(step),
            },
        }
    }
}

/// The models of `kids`, each lowered with one level of nesting less. The
/// first child that fails decides the error.
pub open spec fn lower_children(file: File, kids: Seq<Decl>, depth: nat) -> Result<
    Seq<DeclModel>,
    ErrorKind,
>
    decreases depth, 2nat, kids.len(),
{
    if kids.len() == 0 {
        Ok(Seq::empty())
    } else {
        match lower_children(file, kids.drop_last(), depth) {
            Err(e) => Err(e),
            Ok(models) => if depth == 0 {
                Err(ErrorKind::UnsupportedConstruct)
            } else {
                match lower_decl(file, kids.last(), (depth - 1) as nat) {
                    Err(e) => Err(e),
                    Ok(model) => Ok(models.push(model)),
                }
            },
        }
    }
}

/// The first of `fields` that is named `id`.
pub open spec fn find_field(fields: Seq<Field>, id: Seq<char>) -> Option<Field>
    decreases fields.len(),
{
    if fields.len() == 0 {
        None
    } else if fields[0].name() == Some(id) {
        Some(fields[0])
    } else {
        find_field(fields.drop_first(), id)
    }
}

/// The type of the field `id`, looked for in `decl` and then in the
/// declarations `decl` derives from, nearest first, through at most
/// `depth` of them. The field must be of a declared type.
pub open spec fn ancestor_field_type(file: File, decl: Decl, id: Seq<char>, depth: nat) -> Result<
    Seq<char>,
    ErrorKind,
>
    decreases depth,
{
    match find_field(decl.field_seq(), id) {
        Some(field) => match field.desc {
            FieldDesc::Typedef { type_id, .. } => Ok(type_id@),
            _ => Err(ErrorKind::UnsupportedConstruct),
        },
        None => match file.parent_of(&decl) {
            Some(parent) => if depth == 0 {
                Err(ErrorKind::UnsupportedConstruct)
            } else {
                ancestor_field_type(file, parent, id, (depth - 1) as nat)
            },
            None => Err(ErrorKind::UnsupportedConstruct),
        },
    }
}

/// The model of a constraint of `decl`. A constraint on a value stands as
/// it is; one on a tag names the enum that the constrained field has in
/// the nearest declaration above `decl` that holds it. A constraint with
/// both or neither has no model.
pub open spec fn lower_constraint(file: File, decl: Decl, constraint: Constraint) -> Result<
    ConstraintModel,
    ErrorKind,
> {
    match (constraint.value, constraint.tag_id) {
        (Some(value), None) => Ok(
            ConstraintModel::ValueMatch { field: constraint.id@, value: value as nat },
        ),
        (None, Some(tag)) => match file.parent_of(&decl) {
            None => Err(ErrorKind::TypedefUnresolved),
            Some(parent) => match ancestor_field_type(
                file,
                parent,
                constraint.id@,
                file.declarations@.len(),
            ) {
                Err(e) => Err(e),
                Ok(enum_type) => Ok(
                    ConstraintModel::EnumMatch {
                        field: constraint.id@,
                        enum_type,
                        enum_value: tag@,
                    },
                ),
            },
        },
        _ => Err(ErrorKind::UnsupportedConstruct),
    }
}

/// The models of the first `n` of `constraints`, the constraints of
/// `decl`. The first constraint that fails decides the error.
pub open spec fn lower_constraints(file: File, decl: Decl, constraints: Seq<Constraint>, n: nat) -> Result<
    Seq<ConstraintModel>,
    ErrorKind,
>
    decreases n,
{
    if n == 0 || n > constraints.len() {
        Ok(Seq::empty())
    } else {
        match lower_constraints(file, decl, constraints, (n - 1) as nat) {
            Err(e) => Err(e),
            Ok(models) => match lower_constraint(file, decl, constraints[n - 1]) {
                Err(e) => Err(e),
                Ok(model) => Ok(models.push(model)),
            },
        }
    }
}

/// The model of `decl`. An enum whose width is a whole number of octets
/// and a checksum stand as they are. A custom field with a width is
/// modelled like a checksum of that width; one without a width has no
/// length to read by and no model. A packet, struct or group is a
/// sequence of its lowered fields, of the models of the declarations that
/// derive from it, and of its lowered constraints; its fields are lowered
/// first, then its children, then its constraints. A test declaration has
/// no model. `depth` bounds how deep declarations may nest.
pub open spec fn lower_decl(file: File, decl: Decl, depth: nat) -> Result<DeclModel, ErrorKind>
    decreases depth, 3nat, 0nat,
{
    match decl.desc {
        DeclDesc::Enum { id, tags, width } => if width % 8 != 0 {
            Err(ErrorKind::UnsupportedConstruct)
        } else {
            Ok(DeclModel::Enum { name: id@, tags: tags_view(tags@), len: width as nat })
        },
        DeclDesc::Checksum { id, width, .. } => Ok(
            DeclModel::Checksum { name: id@, len: width as nat },
        ),
        DeclDesc::CustomField { id, width, .. } => match width {
            Some(bits) => Ok(DeclModel::Checksum { name: id@, len: bits as nat }),
            None => Err(ErrorKind::UnsupportedConstruct),
        },
        DeclDesc::Test { .. } => Err(ErrorKind::UnsupportedConstruct),
        _ => match lower_fields(file, decl, decl.field_seq(), decl.field_seq().len(), depth) {
            Err(e) => Err(e),
            Ok(state) => match lower_children(file, file.children_of(&decl), depth) {
                Err(e) => Err(e),
                Ok(children) => match lower_constraints(
                    file,
                    decl,
                    decl.constraint_seq(),
                    decl.constraint_seq().len(),
                ) {
                    Err(e) => Err(e),
                    Ok(constraints) => Ok(
                        DeclModel::Sequence {
                            name: decl.name()->0,
                            fields: state.fields,
                            children,
                            constraints,
                        },
                    ),
                },
            },
        },
    }
}

/// The model of `decl` as a declaration of `file`: nesting is bounded by
/// the number of declarations of the file, which no file without a cycle
/// among its declarations reaches.
pub open spec fn model_of(file: File, decl: Decl) -> Result<DeclModel, ErrorKind> {
    lower_decl(file, decl, file.declarations@.len())
}

} // verus!
