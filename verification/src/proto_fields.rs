//! The registration of protocol fields: one descriptor for each field of a
//! sequence, and the matcher table of each enum.

use vstd::prelude::*;
use crate::ast::{EndiannessValue, Tag};
use crate::comments::{ToLuaExpr, opt_quoted};
use crate::dissector_info::{
    CommonFieldDissectorInfo,
    DeclDissectorInfo,
    FieldDissectorInfo,
    decls_view,
    fields_view,
    lemma_sequence_view,
    tag_model,
    tag_values_view,
    tags_view,
};
use crate::len_info::{BitLen, FType, bitlen_word, ftype_token};
use crate::model::{CommonField, DeclModel, FieldModel, TagModel};
use crate::text::{
    bool_text,
    bool_word,
    decimal,
    decimal_text,
    indent_block,
    indented,
    lemma_after_nothing,
};

verus! {

/// The descriptor of a field that has a width of its own: read bit by bit
/// if `unaligned`, else octet by octet.
pub open spec fn plain_declaration(common: CommonField, ftype: Option<nat>, unaligned: bool) -> Seq<
    char,
> {
    if unaligned {
        "fields[path .. \"."@ + common.abbr + "\"] = UnalignedProtoField:new({\n"@
            + "    name = \""@ + common.display_name + "\",\n"@
            + "    abbr = path .. \"."@ + common.abbr + "\",\n"@
            + "    ftype = "@ + ftype_token(ftype) + ",\n"@
            + "    bitoffset = "@ + decimal(common.bit_offset) + ",\n"@
            + "    bitlen = "@ + bitlen_word(ftype) + ",\n"@
            + "    is_little_endian = "@ + bool_word(common.endian == EndiannessValue::LittleEndian) + ",\n"@
            + "    description = "@ + opt_quoted(common.comments) + ",\n"@
            + "})\n"@
    } else {
        "fields[path .. \"."@ + common.abbr + "\"] = AlignedProtoField:new({\n"@
            + "    name = \""@ + common.display_name + "\",\n"@
            + "    abbr = path .. \"."@ + common.abbr + "\",\n"@
            + "    ftype = "@ + ftype_token(ftype) + ",\n"@
            + "    bitlen = "@ + bitlen_word(ftype) + ",\n"@
            + "    is_little_endian = "@ + bool_word(common.endian == EndiannessValue::LittleEndian) + ",\n"@
            + "    description = "@ + opt_quoted(common.comments) + ",\n"@
            + "})\n"@
    }
}

/// The descriptor of a field whose type is the enum `enum_name` of `len`
/// bits. The enum's matchers name the values. An enum of a whole number of
/// octets is read octet by octet, any other bit by bit.
pub open spec fn enum_declaration(common: CommonField, enum_name: Seq<char>, len: nat) -> Seq<char> {
    if len % 8 == 0 {
        "fields[path .. \"."@ + common.abbr + "\"] = AlignedProtoField:new({\n"@
            + "    name = \""@ + common.display_name + "\",\n"@
            + "    abbr = \""@ + common.abbr + "\",\n"@
            + "    ftype = "@ + ftype_token(Some(len)) + ",\n"@
            + "    valuestring = "@ + enum_name + "_enum.matchers,\n"@
            + "    base = base.RANGE_STRING,\n"@
            + "    is_little_endian = "@ + bool_word(common.endian == EndiannessValue::LittleEndian) + ",\n"@
            + "    description = "@ + opt_quoted(common.comments) + ",\n"@
            + "})\n"@
    } else {
        "fields[path .. \"."@ + common.abbr + "\"] = UnalignedProtoField:new({\n"@
            + "    name = \""@ + common.display_name + "\",\n"@
            + "    abbr = \""@ + common.abbr + "\",\n"@
            + "    ftype = "@ + ftype_token(Some(len)) + ",\n"@
            + "    valuestring = "@ + enum_name + "_enum.matchers,\n"@
            + "    bitoffset = "@ + decimal(common.bit_offset) + ",\n"@
            + "    bitlen = "@ + decimal(len) + ",\n"@
            + "    is_little_endian = "@ + bool_word(common.endian == EndiannessValue::LittleEndian) + ",\n"@
            + "})\n"@
    }
}

/// The descriptor of a field whose type is a checksum of `len` bits.
pub open spec fn checksum_declaration(common: CommonField, len: nat) -> Seq<char> {
    "fields[path .. \"."@ + common.abbr + "\"] = AlignedProtoField:new({\n"@
            + "    name = \""@ + common.display_name + "\",\n"@
            + "    abbr = \""@ + common.abbr + "\",\n"@
            + "    ftype = "@ + ftype_token(Some(len)) + ",\n"@
            + "    base = base.HEX,\n"@
            + "    is_little_endian = "@ + bool_word(common.endian == EndiannessValue::LittleEndian) + ",\n"@
            + "})\n"@
}

/// The descriptors of the first `n` fields of `fields`, one after the
/// other.
pub open spec fn declarations_text(fields: Seq<FieldModel>, n: nat) -> Seq<char>
    decreases fields, n,
{
    if n == 0 || n > fields.len() {
        Seq::empty()
    } else {
        declarations_text(fields, (n - 1) as nat) + fields[n - 1].declaration_text()
    }
}

/// The descriptors of a field of the declared type `decl`: those of all
/// fields of a sequence, or the one of an enum or checksum.
pub open spec fn typedef_declaration(common: CommonField, decl: DeclModel) -> Seq<char>
    decreases decl,
{
    match decl {
        DeclModel::Sequence { fields, .. } => declarations_text(fields, fields.len()),
        DeclModel::Enum { name, len, .. } => enum_declaration(common, name, len),
        DeclModel::Checksum { len, .. } => checksum_declaration(common, len),
    }
}

impl FieldModel {
    /// The text that registers the descriptors of this field.
    pub open spec fn declaration_text(self) -> Seq<char>
        decreases self,
    {
        match self {
            FieldModel::Scalar { common, ftype, .. } => plain_declaration(
                common,
                ftype,
                self.is_unaligned(),
            ),
            FieldModel::ScalarArray { common, ftype, .. } => plain_declaration(
                common,
                ftype,
                self.is_unaligned(),
            ),
            FieldModel::Payload { common, ftype, .. } => plain_declaration(
                common,
                ftype,
                self.is_unaligned(),
            ),
            FieldModel::Typedef { common, decl, .. } => typedef_declaration(common, *decl),
            FieldModel::TypedefArray { common, decl, .. } => typedef_declaration(common, *decl),
        }
    }
}

/// The indented descriptors of the first `n` fields of `fields`.
pub open spec fn indented_declarations(fields: Seq<FieldModel>, n: nat) -> Seq<char>
    decreases n,
{
    if n == 0 || n > fields.len() {
        Seq::empty()
    } else {
        indented_declarations(fields, (n - 1) as nat) + indented(fields[n - 1].declaration_text())
    }
}

/// The call that registers the fields of the child `child` under the path
/// of its parent.
pub open spec fn child_call(child: Seq<char>) -> Seq<char> {
    child + "_protocol_fields(fields, path .. \"."@ + child + "\")\n"@
}

/// The indented registration calls of the first `n` of `children`.
pub open spec fn child_calls(children: Seq<DeclModel>, n: nat) -> Seq<char>
    decreases n,
{
    if n == 0 || n > children.len() {
        Seq::empty()
    } else {
        child_calls(children, (n - 1) as nat) + indented(child_call(children[n - 1].name()))
    }
}

/// The definitions of the first `n` single values inside the range tag
/// `range_id` of the enum `name`.
pub open spec fn sub_definitions(
    name: Seq<char>,
    range_id: Seq<char>,
    tags: Seq<(Seq<char>, nat)>,
    n: nat,
) -> Seq<char>
    decreases n,
{
    if n == 0 || n > tags.len() {
        Seq::empty()
    } else {
        sub_definitions(name, range_id, tags, (n - 1) as nat) + sub_definition(
            name,
            range_id,
            tags[n - 1],
        )
    }
}

/// The definition of one single value inside a range tag: its name is the
/// name of the range, a colon and its own name.
pub open spec fn sub_definition(name: Seq<char>, range_id: Seq<char>, tag: (Seq<char>, nat)) -> Seq<
    char,
> {
    name + "_enum:define(\""@ + range_id + ": "@ + tag.0 + "\", "@ + decimal(tag.1) + ")\n"@
}

/// The definition of one tag of the enum `name`: a value tag defines its
/// value; a range tag defines each value inside it and then its closed
/// interval; the catch-all tag is defined with `nil`.
pub open spec fn tag_definition(name: Seq<char>, tag: TagModel) -> Seq<char> {
    match tag {
        TagModel::Value { name: id, value } => {
            name + "_enum:define(\""@ + id + "\", "@ + decimal(value) + ")\n"@
        },
        TagModel::Range { name: range_id, lo, hi, tags } => {
            sub_definitions(name, range_id, tags, tags.len())
                + (name + "_enum:define(\""@ + range_id + "\", {"@ + decimal(lo) + ", "@ + decimal(hi) + "})\n"@)
        },
        TagModel::Other { name: id } => {
            name + "_enum:define(\""@ + id + "\", nil)\n"@
        },
    }
}

/// The definitions of the value and range tags among the first `n` tags
/// of the enum `name`, in declared order. The catch-all tag is left out.
pub open spec fn tag_definitions(name: Seq<char>, tags: Seq<TagModel>, n: nat) -> Seq<char>
    decreases n,
{
    if n == 0 || n > tags.len() {
        Seq::empty()
    } else if tags[n - 1] is Other {
        tag_definitions(name, tags, (n - 1) as nat)
    } else {
        tag_definitions(name, tags, (n - 1) as nat) + tag_definition(name, tags[n - 1])
    }
}

/// The definitions of the catch-all tags among the first `n` tags of the
/// enum `name`, in declared order.
pub open spec fn catch_all_definitions(name: Seq<char>, tags: Seq<TagModel>, n: nat) -> Seq<char>
    decreases n,
{
    if n == 0 || n > tags.len() {
        Seq::empty()
    } else if tags[n - 1] is Other {
        catch_all_definitions(name, tags, (n - 1) as nat) + tag_definition(name, tags[n - 1])
    } else {
        catch_all_definitions(name, tags, (n - 1) as nat)
    }
}

impl DeclModel {
    /// The text that registers the fields of this declaration. For a
    /// sequence, a function that registers each of its fields and then
    /// calls the registration of each child; for an enum, its matcher
    /// table, in which the value and range tags are defined in declared
    /// order and the catch-all tag after all of them; for a checksum,
    /// nothing.
    pub open spec fn proto_fields_text(self) -> Seq<char> {
        match self {
            DeclModel::Sequence { name, fields, children, .. } => {
                "function "@ + name + "_protocol_fields(fields, path)\n"@
                    + indented_declarations(fields, fields.len())
                    + child_calls(children, children.len())
                    + "end\n"@
            },
            DeclModel::Enum { name, tags, .. } => {
                name + "_enum = ProtoEnum:new()\n"@
                    + tag_definitions(name, tags, tags.len())
                    + catch_all_definitions(name, tags, tags.len())
            },
            DeclModel::Checksum { .. } => Seq::empty(),
        }
    }
}

impl EndiannessValue {
    pub fn is_little(&self) -> (r: bool)
        ensures
            r == (*self == EndiannessValue::LittleEndian),
    {
        match self {
            EndiannessValue::LittleEndian => true,
            EndiannessValue::BigEndian => false,
        }
    }
}

impl CommonFieldDissectorInfo {
    /// The comment of the field as a script expression.
    pub fn description(&self) -> (s: String)
        ensures
            s@ == opt_quoted(self@.comments),
    {
        let comment: Option<&str> = match &self.comments {
            Some(c) => Some(c.as_str()),
            None => None,
        };
        comment.to_lua_expr()
    }

    fn plain_declaration(&self, ftype: &FType, unaligned: bool) -> (s: String)
        ensures
            s@ == plain_declaration(self@, ftype@, unaligned),
    {
        let common = self;
        if unaligned {
            let mut s = String::from_str("fields[path .. \".");
            s.append(common.abbr.as_str());
            s.append("\"] = UnalignedProtoField:new({\n");
            s.append("    name = \"");
            s.append(common.display_name.as_str());
            s.append("\",\n");
            s.append("    abbr = path .. \".");
            s.append(common.abbr.as_str());
            s.append("\",\n");
            s.append("    ftype = ");
            s.append(ftype.to_lua_expr());
            s.append(",\n");
            s.append("    bitoffset = ");
            s.append(common.bit_offset.to_text().as_str());
            s.append(",\n");
            s.append("    bitlen = ");
            s.append(ftype.bitlen_text().as_str());
            s.append(",\n");
            s.append("    is_little_endian = ");
            s.append(bool_text(common.endian.is_little()));
            s.append(",\n");
            s.append("    description = ");
            s.append(common.description().as_str());
            s.append(",\n");
            s.append("})\n");
            s
        } else {
            let mut s = String::from_str("fields[path .. \".");
            s.append(common.abbr.as_str());
            s.append("\"] = AlignedProtoField:new({\n");
            s.append("    name = \"");
            s.append(common.display_name.as_str());
            s.append("\",\n");
            s.append("    abbr = path .. \".");
            s.append(common.abbr.as_str());
            s.append("\",\n");
            s.append("    ftype = ");
            s.append(ftype.to_lua_expr());
            s.append(",\n");
            s.append("    bitlen = ");
            s.append(ftype.bitlen_text().as_str());
            s.append(",\n");
            s.append("    is_little_endian = ");
            s.append(bool_text(common.endian.is_little()));
            s.append(",\n");
            s.append("    description = ");
            s.append(common.description().as_str());
            s.append(",\n");
            s.append("})\n");
            s
        }
    }

    fn enum_declaration(&self, enum_name: &String, len: &BitLen) -> (s: String)
        ensures
            s@ == enum_declaration(self@, enum_name@, len@),
    {
        let common = self;
        if len.0 % 8 == 0 {
            let mut s = String::from_str("fields[path .. \".");
            s.append(common.abbr.as_str());
            s.append("\"] = AlignedProtoField:new({\n");
            s.append("    name = \"");
            s.append(common.display_name.as_str());
            s.append("\",\n");
            s.append("    abbr = \"");
            s.append(common.abbr.as_str());
            s.append("\",\n");
            s.append("    ftype = ");
            s.append(FType(Some(*len)).to_lua_expr());
            s.append(",\n");
            s.append("    valuestring = ");
            s.append(enum_name.as_str());
            s.append("_enum.matchers,\n");
            s.append("    base = base.RANGE_STRING,\n");
            s.append("    is_little_endian = ");
            s.append(bool_text(common.endian.is_little()));
            s.append(",\n");
            s.append("    description = ");
            s.append(common.description().as_str());
            s.append(",\n");
            s.append("})\n");
            s
        } else {
            let mut s = String::from_str("fields[path .. \".");
            s.append(common.abbr.as_str());
            s.append("\"] = UnalignedProtoField:new({\n");
            s.append("    name = \"");
            s.append(common.display_name.as_str());
            s.append("\",\n");
            s.append("    abbr = \"");
            s.append(common.abbr.as_str());
            s.append("\",\n");
            s.append("    ftype = ");
            s.append(FType(Some(*len)).to_lua_expr());
            s.append(",\n");
            s.append("    valuestring = ");
            s.append(enum_name.as_str());
            s.append("_enum.matchers,\n");
            s.append("    bitoffset = ");
            s.append(common.bit_offset.to_text().as_str());
            s.append(",\n");
            s.append("    bitlen = ");
            s.append(len.to_text().as_str());
            s.append(",\n");
            s.append("    is_little_endian = ");
            s.append(bool_text(common.endian.is_little()));
            s.append(",\n");
            s.append("})\n");
            s
        }
    }

    fn checksum_declaration(&self, len: &BitLen) -> (s: String)
        ensures
            s@ == checksum_declaration(self@, len@),
    {
        let common = self;
        let mut s = String::from_str("fields[path .. \".");
        s.append(common.abbr.as_str());
        s.append("\"] = AlignedProtoField:new({\n");
        s.append("    name = \"");
        s.append(common.display_name.as_str());
        s.append("\",\n");
        s.append("    abbr = \"");
        s.append(common.abbr.as_str());
        s.append("\",\n");
        s.append("    ftype = ");
        s.append(FType(Some(*len)).to_lua_expr());
        s.append(",\n");
        s.append("    base = base.HEX,\n");
        s.append("    is_little_endian = ");
        s.append(bool_text(common.endian.is_little()));
        s.append(",\n");
        s.append("})\n");
        s
    }
}

/// Writes the descriptors of a field of the declared type `decl`.
fn typedef_declaration_text(common: &CommonFieldDissectorInfo, decl: &DeclDissectorInfo) -> (s:
    String)
    ensures
        s@ == typedef_declaration(common@, decl@),
    decreases decl,
{
    match decl {
        DeclDissectorInfo::Sequence { fields, .. } => {
            proof {
                lemma_sequence_view(*decl);
            }
            let ghost models = fields_view(fields@);
            let mut s = String::new();
            let mut i: usize = 0;
            while i < fields.len()
                invariant
                    i <= fields.len(),
                    decl is Sequence,
                    decl->Sequence_fields == *fields,
                    models == fields_view(fields@),
                    s@ == declarations_text(models, i as nat),
                decreases fields.len() - i,
            {
                assert(models[i as int] == fields[i as int]@);
                fields[i].field_declaration(&mut s);
                i = i + 1;
            }
            s
        },
        DeclDissectorInfo::Enum { name, values: _, len } => common.enum_declaration(name, len),
        DeclDissectorInfo::Checksum { name: _, len } => common.checksum_declaration(len),
    }
}

impl FieldDissectorInfo {
    /// Writes the registration of the descriptors of this field.
    pub fn field_declaration(&self, writer: &mut String)
        ensures
            final(writer)@ == old(writer)@ + self@.declaration_text(),
        decreases self,
    {
        let s = match self {
            FieldDissectorInfo::Scalar { common, ftype, .. } => common.plain_declaration(
                ftype,
                self.is_unaligned(),
            ),
            FieldDissectorInfo::ScalarArray { common, ftype, .. } => common.plain_declaration(
                ftype,
                self.is_unaligned(),
            ),
            FieldDissectorInfo::Payload { common, ftype, .. } => common.plain_declaration(
                ftype,
                self.is_unaligned(),
            ),
            FieldDissectorInfo::Typedef { common, decl, .. } => typedef_declaration_text(
                common,
                decl,
            ),
            FieldDissectorInfo::TypedefArray { common, decl, .. } => typedef_declaration_text(
                common,
                decl,
            ),
        };
        writer.append(s.as_str());
    }
}

/// Writes the definition of one tag of the enum `name`.
fn tag_definition_text(name: &String, tag: &Tag) -> (s: String)
    ensures
        s@ == tag_definition(name@, tag_model(*tag)),
{
    match tag {
        Tag::Value(v) => {
            let mut s = String::from_str(name.as_str());
            s.append("_enum:define(\"");
            s.append(v.id.as_str());
            s.append("\", ");
            s.append(decimal_text(v.value).as_str());
            s.append(")\n");
            s
        },
        Tag::Range(r) => {
            let ghost subs = tag_values_view(r.tags@);
            let mut s = String::new();
            let mut i: usize = 0;
            while i < r.tags.len()
                invariant
                    i <= r.tags.len(),
                    subs == tag_values_view(r.tags@),
                    s@ == sub_definitions(name@, r.id@, subs, i as nat),
                decreases r.tags.len() - i,
            {
                let sub = &r.tags[i];
                let mut line = String::from_str(name.as_str());
                line.append("_enum:define(\"");
                line.append(r.id.as_str());
                line.append(": ");
                line.append(sub.id.as_str());
                line.append("\", ");
                line.append(decimal_text(sub.value).as_str());
                line.append(")\n");
                s.append(line.as_str());
                i = i + 1;
            }
            let mut line = String::from_str(name.as_str());
            line.append("_enum:define(\"");
            line.append(r.id.as_str());
            line.append("\", {");
            line.append(decimal_text(r.lo).as_str());
            line.append(", ");
            line.append(decimal_text(r.hi).as_str());
            line.append("})\n");
            s.append(line.as_str());
            s
        },
        Tag::Other(o) => {
            let mut s = String::from_str(name.as_str());
            s.append("_enum:define(\"");
            s.append(o.id.as_str());
            s.append("\", nil)\n");
            s
        },
    }
}

impl DeclDissectorInfo {
    /// Writes the registration of the fields of this declaration.
    pub fn write_proto_fields(&self, writer: &mut String)
        ensures
            final(writer)@ == old(writer)@ + self@.proto_fields_text(),
    {
        match self {
            DeclDissectorInfo::Sequence { name, fields, children, constraints: _ } => {
                proof {
                    lemma_sequence_view(*self);
                }
                let ghost field_models = fields_view(fields@);
                let ghost child_models = decls_view(children@);
                let mut body = String::new();
                let mut i: usize = 0;
                while i < fields.len()
                    invariant
                        i <= fields.len(),
                        field_models == fields_view(fields@),
                        body@ == indented_declarations(field_models, i as nat),
                    decreases fields.len() - i,
                {
                    assert(field_models[i as int] == fields[i as int]@);
                    let mut block = String::new();
                    fields[i].field_declaration(&mut block);
                    proof {
                        lemma_after_nothing(fields[i as int]@.declaration_text());
                    }
                    body.append(indent_block(block.as_str()).as_str());
                    i = i + 1;
                }
                let mut calls = String::new();
                let mut j: usize = 0;
                while j < children.len()
                    invariant
                        j <= children.len(),
                        child_models == decls_view(children@),
                        calls@ == child_calls(child_models, j as nat),
                    decreases children.len() - j,
                {
                    assert(child_models[j as int] == children[j as int]@);
                    let child_name = children[j].name();
                    let mut call = String::from_str(child_name);
                    call.append("_protocol_fields(fields, path .. \".");
                    call.append(child_name);
                    call.append("\")\n");
                    calls.append(indent_block(call.as_str()).as_str());
                    j = j + 1;
                }
                let mut s = String::from_str("function ");
                s.append(name.as_str());
                s.append("_protocol_fields(fields, path)\n");
                s.append(body.as_str());
                s.append(calls.as_str());
                s.append("end\n");
                writer.append(s.as_str());
            },
            DeclDissectorInfo::Enum { name, values, len: _ } => {
                let ghost tags = tags_view(values@);
                let mut defs = String::new();
                let mut i: usize = 0;
                while i < values.len()
                    invariant
                        i <= values.len(),
                        tags == tags_view(values@),
                        defs@ == tag_definitions(name@, tags, i as nat),
                    decreases values.len() - i,
                {
                    assert(tags[i as int] == tag_model(values[i as int]));
                    match &values[i] {
                        Tag::Other(_) => {},
                        tag => {
                            defs.append(tag_definition_text(name, tag).as_str());
                        },
                    }
                    i = i + 1;
                }
                let mut last = String::new();
                let mut j: usize = 0;
                while j < values.len()
                    invariant
                        j <= values.len(),
                        tags == tags_view(values@),
                        last@ == catch_all_definitions(name@, tags, j as nat),
                    decreases values.len() - j,
                {
                    assert(tags[j as int] == tag_model(values[j as int]));
                    match &values[j] {
                        Tag::Other(_) => {
                            last.append(tag_definition_text(name, &values[j]).as_str());
                        },
                        _ => {},
                    }
                    j = j + 1;
                }
                let mut s = String::from_str(name.as_str());
                s.append("_enum = ProtoEnum:new()\n");
                s.append(defs.as_str());
                s.append(last.as_str());
                writer.append(s.as_str());
            },
            DeclDissectorInfo::Checksum { name: _, len: _ } => {
                assert(old(writer)@ + Seq::<char>::empty() =~= old(writer)@);
            },
        }
    }
}

} // verus!
