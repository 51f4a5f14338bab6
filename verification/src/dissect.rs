//! The dissection functions: for each sequence a function that reads its
//! fields one after the other, and a predicate over the constraints that
//! select it as the payload of its parent.

use vstd::prelude::*;
use crate::ast::EndiannessValue;
use crate::dissector_info::{
    ArrayFieldDissectorInfo,
    CommonFieldDissectorInfo,
    ConstraintDissectorInfo,
    DeclDissectorInfo,
    FieldDissectorInfo,
    constraints_view,
    fields_view,
    lemma_sequence_view,
    opt_gate,
    opt_nat,
    opt_text,
};
use crate::len_info::{RuntimeLen, RuntimeLenInfo, names_view};
use crate::model::{ArrayAttrs, CommonField, ConstraintModel, DeclModel, FieldModel};
use crate::text::{
    decimal,
    decimal_text,
    escaped,
    escaped_text,
    indent_block,
    indented,
    lemma_after_nothing,
};
use crate::utils::{
    branches_view,
    buffer_accessor,
    buffer_value_lua_function,
    if_chain,
    lua_if_then_else,
};

verus! {

impl ConstraintModel {
    /// The script expression that tests the constraint against the field
    /// values of the parent.
    pub open spec fn lua_expr(self) -> Seq<char> {
        match self {
            ConstraintModel::EnumMatch { field, enum_type, enum_value } => {
                enum_type + "_enum:match(\""@ + enum_value + "\", field_values[path .. \"."@ + field + "\"])"@
            },
            ConstraintModel::ValueMatch { field, value } => {
                "field_values[path .. \"."@ + field + "\"] == "@ + decimal(value)
            },
        }
    }
}

impl ConstraintDissectorInfo {
    pub fn to_lua_expr(&self) -> (s: String)
        ensures
            s@ == self@.lua_expr(),
    {
        match self {
            ConstraintDissectorInfo::EnumMatch { field, enum_type, enum_value } => {
                let mut s = String::from_str(enum_type.as_str());
                s.append("_enum:match(\"");
                s.append(enum_value.as_str());
                s.append("\", field_values[path .. \".");
                s.append(field.as_str());
                s.append("\"])");
                s
            },
            ConstraintDissectorInfo::ValueMatch { field, value } => {
                let mut s = String::from_str("field_values[path .. \".");
                s.append(field.as_str());
                s.append("\"] == ");
                s.append(decimal_text(*value).as_str());
                s
            },
        }
    }
}

/// The first `n` of `constraints` as one expression, joined by `and`.
pub open spec fn joined_constraints(constraints: Seq<ConstraintModel>, n: nat) -> Seq<char>
    decreases n,
{
    if n == 0 || n > constraints.len() {
        Seq::empty()
    } else if n == 1 {
        constraints[0].lua_expr()
    } else {
        joined_constraints(constraints, (n - 1) as nat) + " and "@ + constraints[n - 1].lua_expr()
    }
}

/// The conjunction of `constraints` as a script expression; `true` where
/// there is none.
pub open spec fn constraints_expr(constraints: Seq<ConstraintModel>) -> Seq<char> {
    if constraints.len() == 0 {
        "true"@
    } else {
        joined_constraints(constraints, constraints.len())
    }
}

/// The branch that hands a payload to the child `child`: the condition
/// under which the child is chosen, and the dissection by the child.
pub open spec fn child_branch(child: Seq<char>) -> (Seq<char>, Seq<char>) {
    (
        child + "_match_constraints(field_values, path)"@,
        "local subtree = tree:add(\""@ + child + "\")\n"@
            + "local dissected_len = "@ + child + "_dissect(buffer(i, field_len), pinfo, subtree, fields, path .. \"."@ + child + "\")\n"@
            + "i = i + dissected_len\n"@,
    )
}

/// The branches for all of `children`, in order.
pub open spec fn child_branches(children: Seq<Seq<char>>) -> Seq<(Seq<char>, Seq<char>)> {
    Seq::new(children.len(), |i: int| child_branch(children[i]))
}

/// The check of a field value against `validate`: a warning in the tree
/// when the expression is false.
pub open spec fn validation_text(abbr: Seq<char>, validate: Seq<char>) -> Seq<char> {
    "local value = field_values[path .. \"."@ + abbr + "\"]\n"@
        + "if not ("@ + validate + ") then\n"@
        + "    subtree:add_expert_info(PI_MALFORMED, PI_WARN, \"Error: Expected `"@ + escaped(validate) + "` where value=\" .. tostring(value))\n"@
        + "end\n"@
}

/// The dissection of a value through its descriptor, followed by the
/// check against `validate` where there is one.
pub open spec fn read_text(abbr: Seq<char>, validate: Option<Seq<char>>) -> Seq<char> {
    match validate {
        Some(v) => ("subtree, field_values[path .. \"."@ + abbr + "\"], bitlen = fields[path .. \"."@ + abbr + "\"]:dissect(tree, buffer(i), field_len)\n"@
            + "i = i + bitlen / 8\n"@) + validation_text(abbr, v),
        None => "subtree, field_values[path .. \"."@ + abbr + "\"], bitlen = fields[path .. \"."@ + abbr + "\"]:dissect(tree, buffer(i), field_len)\n"@
            + "i = i + bitlen / 8\n"@,
    }
}

/// The name of the tree method that adds a value of byte order `endian`.
pub open spec fn add_method(endian: EndiannessValue) -> Seq<char> {
    match endian {
        EndiannessValue::LittleEndian => "add_le"@,
        EndiannessValue::BigEndian => "add"@,
    }
}

/// The opening of the loop over the items of an array, chosen in this
/// order: up to the value of the count field; up to the fixed count; while
/// the octets read stay under the value of the size field plus its
/// modifier; while the buffer lasts.
pub open spec fn loop_head(common: CommonField, attrs: ArrayAttrs) -> Seq<char> {
    if attrs.has_count_sibling {
        "for j=1,field_values[path .. \"."@ + common.abbr + "_count\"] do\n"@
        + "    -- Warn if there isn't enough elements to fit the expected count\n"@
        + "    if i >= buffer:len() and j <= field_values[path .. \"."@ + common.abbr + "_count\"] then\n"@
        + "        tree:add_expert_info(PI_MALFORMED, PI_WARN, \"Error: Expected \" .. field_values[path .. \"."@ + common.abbr + "_count\"] .. \" `"@ + common.display_name + "` items but only found \" .. (j - 1))\n"@
        + "        break\n"@
        + "    end\n"@
    } else if attrs.count is Some {
        "for j=1,"@ + decimal(attrs.count->0) + " do\n"@
        + "    -- Warn if there isn't enough elements to fit the expected count\n"@
        + "    if i >= buffer:len() and j <= "@ + decimal(attrs.count->0) + " then\n"@
        + "        tree:add_expert_info(PI_MALFORMED, PI_WARN, \"Error: Expected "@ + decimal(attrs.count->0) + " `"@ + common.display_name + "` items but only found \" .. (j - 1))\n"@
        + "        break\n"@
        + "    end\n"@
    } else if attrs.has_size_sibling {
        "if initial_i + field_values[path .. \"."@ + common.abbr + "_size\"]"@ + opt_or_empty(attrs.size_modifier) + " > buffer:len() then\n"@
        + "    tree:add_expert_info(PI_MALFORMED, PI_WARN, \"Error: Size("@ + common.display_name + ") is greater than the number of remaining bytes\")\n"@
        + "end\n"@
        + "while i < buffer:len() and i - initial_i < field_values[path .. \"."@ + common.abbr + "_size\"]"@ + opt_or_empty(attrs.size_modifier) + " do\n"@
    } else {
        "while i < buffer:len() do\n"@
    }
}

/// An optional text, or nothing.
pub open spec fn opt_or_empty(t: Option<Seq<char>>) -> Seq<char> {
    match t {
        Some(s) => s,
        None => Seq::empty(),
    }
}

/// `body` as it stands, or inside a test that the flag field of `gate`
/// has the value of `gate`.
pub open spec fn gated(gate: Option<(Seq<char>, nat)>, body: Seq<char>) -> Seq<char> {
    match gate {
        Some((flag, value)) => ("if field_values[path .. \"."@ + flag + "\"] == "@ + decimal(value) + " then\n"@)
            + indented(body) + "end\n"@,
        None => body,
    }
}

/// The warning for an array that fills less than `pad_to_size` octets;
/// nothing where no such size is set.
pub open spec fn padding_check(pad_to_size: Option<nat>, display_name: Seq<char>) -> Seq<char> {
    match pad_to_size {
        Some(octets) => "if i - initial_i < "@ + decimal(octets) + " then\n"@
            + "    tree:add_expert_info(PI_MALFORMED, PI_WARN, \"Error: Expected a minimum of "@ + decimal(octets) + " octets in field `"@ + display_name + "`\")\n"@
            + "end\n"@,
        None => Seq::empty(),
    }
}

impl FieldModel {
    /// The dissection of this field as a plain value: the length limit,
    /// then either the hand-over to the first of `children` whose
    /// constraints match, or the read through the descriptor `abbr`.
    pub open spec fn scalar_dissect_text(
        self,
        abbr: Seq<char>,
        children: Seq<Seq<char>>,
        validate: Option<Seq<char>>,
    ) -> Seq<char> {
        ("-- "@ + self.comment() + "\n"@
            + "local field_len = enforce_len_limit("@ + self.len().lua_expr() + ", buffer(i):len(), tree)\n"@)
            + if_chain(child_branches(children), Some(read_text(abbr, validate)))
    }

    /// The dissection of this field as a value of the declared type
    /// `decl`: a sequence is handed to its own dissection function; an
    /// enum is read through the descriptor and checked against the enum's
    /// values; a checksum is read as it stands.
    pub open spec fn typedef_dissect_text(
        self,
        decl: DeclModel,
        name: Seq<char>,
        abbr: Seq<char>,
        endian: EndiannessValue,
    ) -> Seq<char> {
        match decl {
            DeclModel::Sequence { name: decl_name, .. } => {
                "-- "@ + self.comment() + "\n"@
                    + "local field_len = enforce_len_limit("@ + decl.decl_len().lua_expr() + ", buffer(i):len(), tree)\n"@
                    + "local subtree = tree:add(buffer(i, field_len), \""@ + name + "\")\n"@
                    + "local dissected_len = "@ + decl_name + "_dissect(buffer(i, field_len), pinfo, subtree, fields, path)\n"@
                    + "subtree:set_len(dissected_len)\n"@
                    + "i = i + dissected_len\n"@
            },
            DeclModel::Enum { name: decl_name, .. } => {
                "-- "@ + self.comment() + "\n"@
                    + "local field_len = enforce_len_limit(math.ceil("@ + self.len().lua_expr() + "), buffer(i):len(), tree)\n"@
                    + "subtree, field_values[path .. \"."@ + name + "\"], bitlen = fields[path .. \"."@ + abbr + "\"]:dissect(tree, buffer(i), field_len)\n"@
                    + "if "@ + decl_name + "_enum.by_value[field_values[path .. \"."@ + name + "\"]] == nil then\n"@
                    + "    tree:add_expert_info(PI_MALFORMED, PI_WARN, \"Unknown enum value: \" .. field_values[path .. \"."@ + name + "\"])\n"@
                    + "end\n"@
                    + "i = i + bitlen / 8\n"@
            },
            DeclModel::Checksum { len, .. } => {
                "-- "@ + self.comment() + "\n"@
                    + "local field_len = enforce_len_limit("@ + self.len().lua_expr() + ", buffer(i):len(), tree)\n"@
                    + "field_values[path .. \"."@ + name + "\"] = buffer(i, field_len):"@ + buffer_accessor(endian, RuntimeLen::fixed(len)) + "\n"@
                    + "if field_len ~= 0 then\n"@
                    + "    tree:"@ + add_method(endian) + "(fields[path .. \"."@ + abbr + "\"].field, buffer(i, field_len))\n"@
                    + "    i = i + field_len\n"@
                    + "end\n"@
            },
        }
    }

    /// The loop that dissects the items of this array, given the
    /// dissection of one item.
    pub open spec fn array_dissect_text(
        self,
        common: CommonField,
        attrs: ArrayAttrs,
        item: Seq<char>,
    ) -> Seq<char> {
        ("-- "@ + self.comment() + "\n"@
            + "local initial_i = i\n"@)
            + loop_head(common, attrs) + indented(item) + "end\n"@
    }

    /// The dissection of this field.
    pub open spec fn dissect_text(self) -> Seq<char> {
        match self {
            FieldModel::Scalar { common, validate, optional_gate, .. } => gated(
                optional_gate,
                self.scalar_dissect_text(common.abbr, Seq::empty(), validate),
            ),
            FieldModel::Payload { common, children, .. } => self.scalar_dissect_text(
                common.abbr,
                children,
                None,
            ),
            FieldModel::Typedef { common, decl, optional_gate } => gated(
                optional_gate,
                self.typedef_dissect_text(*decl, common.display_name, common.abbr, common.endian),
            ),
            FieldModel::TypedefArray { common, decl, attrs } => self.array_dissect_text(
                common,
                attrs,
                self.typedef_dissect_text(*decl, common.display_name, common.abbr, common.endian),
            ) + padding_check(attrs.pad_to_size, common.display_name),
            FieldModel::ScalarArray { common, attrs, .. } => self.array_dissect_text(
                common,
                attrs,
                self.scalar_dissect_text(common.abbr, Seq::empty(), None),
            ) + padding_check(attrs.pad_to_size, common.display_name),
        }
    }
}

/// The indented dissections of the first `n` fields of `fields`.
pub open spec fn indented_dissects(fields: Seq<FieldModel>, n: nat) -> Seq<char>
    decreases n,
{
    if n == 0 || n > fields.len() {
        Seq::empty()
    } else {
        indented_dissects(fields, (n - 1) as nat) + indented(fields[n - 1].dissect_text())
    }
}

impl DeclModel {
    /// The dissection function of a sequence, which reads the fields in
    /// order and returns the number of octets read, followed by the
    /// predicate over the sequence's constraints. Nothing for an enum or
    /// a checksum.
    pub open spec fn dissect_text(self) -> Seq<char> {
        match self {
            DeclModel::Sequence { name, fields, constraints, .. } => {
                ("-- "@ + self.summary() + "\n"@
                    + "function "@ + name + "_dissect(buffer, pinfo, tree, fields, path)\n"@
                    + "    local i = 0\n"@
                    + "    local field_values = {}\n"@)
                    + indented_dissects(fields, fields.len())
                    + "    return i\nend\n"@
                    + ("function "@ + name + "_match_constraints(field_values, path)\n"@
                    + "    return "@ + constraints_expr(constraints) + "\n"@
                    + "end\n"@)
            },
            _ => Seq::empty(),
        }
    }

    /// The dissector of the protocol named after this sequence: it runs
    /// the sequence's dissection function on the whole buffer, warns of
    /// what is left over, and registers the protocol's fields.
    pub open spec fn main_dissector_text(self) -> Seq<char> {
        self.name() + "_protocol_fields_table = {}\n"@
        + "function "@ + self.name() + "_protocol.dissector(buffer, pinfo, tree)\n"@
        + "    pinfo.cols.protocol = \""@ + self.name() + "\"\n"@
        + "    local subtree = tree:add("@ + self.name() + "_protocol, buffer(), \""@ + self.name() + "\")\n"@
        + "    local i = "@ + self.name() + "_dissect(buffer, pinfo, subtree, "@ + self.name() + "_protocol_fields_table, \""@ + self.name() + "\")\n"@
        + "    if buffer(i):len() > 0 then\n"@
        + "        local remaining_bytes = buffer:len() - i\n"@
        + "        if math.floor(remaining_bytes) == remaining_bytes then\n"@
        + "            subtree:add_expert_info(PI_MALFORMED, PI_WARN, \"Error: \" .. remaining_bytes .. \" undissected bytes remaining\")\n"@
        + "        else\n"@
        + "            subtree:add_expert_info(PI_MALFORMED, PI_WARN, \"Error: \" .. (remaining_bytes * 8) .. \" undissected bits remaining\")\n"@
        + "        end\n"@
        + "    end\n"@
        + "end\n"@
        + self.name() + "_protocol_fields("@ + self.name() + "_protocol_fields_table, \""@ + self.name() + "\")\n"@
        + "for name,field in pairs("@ + self.name() + "_protocol_fields_table) do\n"@
        + "    "@ + self.name() + "_protocol.fields[name] = field.field\n"@
        + "end\n"@
    }
}

/// The definition of the protocol `name`.
pub open spec fn protocol_head(name: Seq<char>) -> Seq<char> {
    "-- Protocol definition for \""@ + name + "\"\n"@
        + name + "_protocol = Proto(\""@ + name + "\",  \""@ + name + "\")\n"@
}

/// Writes the definition of the protocol `name`.
pub fn write_protocol_head(writer: &mut String, name: &str)
    ensures
        final(writer)@ == old(writer)@ + protocol_head(name@),
{
    let mut s = String::from_str("-- Protocol definition for \"");
    s.append(name);
    s.append("\"\n");
    s.append(name);
    s.append("_protocol = Proto(\"");
    s.append(name);
    s.append("\",  \"");
    s.append(name);
    s.append("\")\n");
    writer.append(s.as_str());
}

fn child_branch_text(child: &String) -> (r: (String, String))
    ensures
        (r.0@, r.1@) == child_branch(child@),
{
    let child = child.as_str();
    let mut cond = String::from_str(child);
    cond.append("_match_constraints(field_values, path)");
    let mut body = String::from_str("local subtree = tree:add(\"");
    body.append(child);
    body.append("\")\n");
    body.append("local dissected_len = ");
    body.append(child);
    body.append("_dissect(buffer(i, field_len), pinfo, subtree, fields, path .. \".");
    body.append(child);
    body.append("\")\n");
    body.append("i = i + dissected_len\n");
    (cond, body)
}

fn read_value_text(abbr: &str, validate_expr: &Option<String>) -> (s: String)
    ensures
        s@ == read_text(abbr@, opt_text(*validate_expr)),
{
    let mut s = String::from_str("subtree, field_values[path .. \".");
    s.append(abbr);
    s.append("\"], bitlen = fields[path .. \".");
    s.append(abbr);
    s.append("\"]:dissect(tree, buffer(i), field_len)\n");
    s.append("i = i + bitlen / 8\n");
    match validate_expr {
        Some(validate) => {
            let mut check = String::from_str("local value = field_values[path .. \".");
            check.append(abbr);
            check.append("\"]\n");
            check.append("if not (");
            check.append(validate.as_str());
            check.append(") then\n");
            check.append("    subtree:add_expert_info(PI_MALFORMED, PI_WARN, \"Error: Expected `");
            check.append(escaped_text(validate.as_str()).as_str());
            check.append("` where value=\" .. tostring(value))\n");
            check.append("end\n");
            s.append(check.as_str());
        },
        None => {},
    }
    s
}

fn loop_head_text(common: &CommonFieldDissectorInfo, array_info: &ArrayFieldDissectorInfo) -> (s:
    String)
    ensures
        s@ == loop_head(common@, array_info@),
{
    let abbr = common.abbr.as_str();
    let display_name = common.display_name.as_str();
    if array_info.has_count_field {
        let mut s = String::from_str("for j=1,field_values[path .. \".");
        s.append(abbr);
        s.append("_count\"] do\n");
        s.append("    -- Warn if there isn't enough elements to fit the expected count\n");
        s.append("    if i >= buffer:len() and j <= field_values[path .. \".");
        s.append(abbr);
        s.append("_count\"] then\n");
        s.append("        tree:add_expert_info(PI_MALFORMED, PI_WARN, \"Error: Expected \" .. field_values[path .. \".");
        s.append(abbr);
        s.append("_count\"] .. \" `");
        s.append(display_name);
        s.append("` items but only found \" .. (j - 1))\n");
        s.append("        break\n");
        s.append("    end\n");
        s
    } else if let Some(count) = array_info.count {
        let count = decimal_text(count);
        let mut s = String::from_str("for j=1,");
        s.append(count.as_str());
        s.append(" do\n");
        s.append("    -- Warn if there isn't enough elements to fit the expected count\n");
        s.append("    if i >= buffer:len() and j <= ");
        s.append(count.as_str());
        s.append(" then\n");
        s.append("        tree:add_expert_info(PI_MALFORMED, PI_WARN, \"Error: Expected ");
        s.append(count.as_str());
        s.append(" `");
        s.append(display_name);
        s.append("` items but only found \" .. (j - 1))\n");
        s.append("        break\n");
        s.append("    end\n");
        s
    } else if array_info.has_size_field {
        let size_modifier = match &array_info.size_modifier {
            Some(m) => m.as_str(),
            None => {
                proof {
                    reveal_strlit("");
                }
                assert(""@ =~= Seq::<char>::empty());
                ""
            },
        };
        let mut s = String::from_str("if initial_i + field_values[path .. \".");
        s.append(abbr);
        s.append("_size\"]");
        s.append(size_modifier);
        s.append(" > buffer:len() then\n");
        s.append("    tree:add_expert_info(PI_MALFORMED, PI_WARN, \"Error: Size(");
        s.append(display_name);
        s.append(") is greater than the number of remaining bytes\")\n");
        s.append("end\n");
        s.append("while i < buffer:len() and i - initial_i < field_values[path .. \".");
        s.append(abbr);
        s.append("_size\"]");
        s.append(size_modifier);
        s.append(" do\n");
        s
    } else {
        let mut s = String::from_str("while i < buffer:len() do\n");
        s
    }
}

fn gated_text(optional_field: &Option<(String, usize)>, body: String) -> (s: String)
    ensures
        s@ == gated(opt_gate(*optional_field), body@),
{
    match optional_field {
        Some((flag, value)) => {
            let mut s = String::from_str("if field_values[path .. \".");
            s.append(flag.as_str());
            s.append("\"] == ");
            s.append(decimal_text(*value).as_str());
            s.append(" then\n");
            s.append(indent_block(body.as_str()).as_str());
            s.append("end\n");
            s
        },
        None => body,
    }
}

fn padding_check_text(pad_to_size: Option<usize>, display_name: &str) -> (s: String)
    ensures
        s@ == padding_check(opt_nat(pad_to_size), display_name@),
{
    match pad_to_size {
        Some(octets) => {
            let octets = decimal_text(octets);
            let mut s = String::from_str("if i - initial_i < ");
            s.append(octets.as_str());
            s.append(" then\n");
            s.append("    tree:add_expert_info(PI_MALFORMED, PI_WARN, \"Error: Expected a minimum of ");
            s.append(octets.as_str());
            s.append(" octets in field `");
            s.append(display_name);
            s.append("`\")\n");
            s.append("end\n");
            s
        },
        None => String::new(),
    }
}

impl FieldDissectorInfo {
    /// Writes the dissection of this field.
    pub fn write_dissect_fn(&self, writer: &mut String)
        requires
            self@.wf(),
        ensures
            final(writer)@ == old(writer)@ + self@.dissect_text(),
    {
        match self {
            FieldDissectorInfo::Scalar { common, validate_expr, optional_field, .. } => {
                let mut body = String::new();
                let none: Vec<String> = Vec::new();
                assert(names_view(none@) =~= Seq::<Seq<char>>::empty());
                self.write_scalar_dissect(
                    &mut body,
                    common.abbr.as_str(),
                    none.as_slice(),
                    validate_expr.clone(),
                );
                proof {
                    lemma_after_nothing(
                        self@.scalar_dissect_text(common@.abbr, Seq::empty(), opt_text(*validate_expr)),
                    );
                }
                writer.append(gated_text(optional_field, body).as_str());
            },
            FieldDissectorInfo::Payload { common, children, .. } => {
                self.write_scalar_dissect(writer, common.abbr.as_str(), children.as_slice(), None);
            },
            FieldDissectorInfo::Typedef { common, decl, optional_field } => {
                let mut body = String::new();
                self.write_typedef_dissect(
                    &mut body,
                    decl,
                    common.display_name.as_str(),
                    common.abbr.as_str(),
                    common.endian,
                );
                proof {
                    lemma_after_nothing(
                        self@.typedef_dissect_text(
                            decl@,
                            common@.display_name,
                            common@.abbr,
                            common.endian,
                        ),
                    );
                }
                writer.append(gated_text(optional_field, body).as_str());
            },
            FieldDissectorInfo::TypedefArray { common, decl, array_info } => {
                let mut item = String::new();
                self.write_typedef_dissect(
                    &mut item,
                    decl,
                    common.display_name.as_str(),
                    common.abbr.as_str(),
                    common.endian,
                );
                let mut s = String::new();
                self.write_array_dissect(&mut s, common, array_info, item.as_str());
                proof {
                    lemma_after_nothing(
                        self@.typedef_dissect_text(
                            decl@,
                            common@.display_name,
                            common@.abbr,
                            common.endian,
                        ),
                    );
                    lemma_after_nothing(self@.array_dissect_text(common@, array_info@, item@));
                }
                s.append(
                    padding_check_text(array_info.pad_to_size, common.display_name.as_str()).as_str(),
                );
                writer.append(s.as_str());
            },
            FieldDissectorInfo::ScalarArray { common, array_info, .. } => {
                let mut item = String::new();
                let none: Vec<String> = Vec::new();
                assert(names_view(none@) =~= Seq::<Seq<char>>::empty());
                self.write_scalar_dissect(&mut item, common.abbr.as_str(), none.as_slice(), None);
                let mut s = String::new();
                self.write_array_dissect(&mut s, common, array_info, item.as_str());
                proof {
                    lemma_after_nothing(
                        self@.scalar_dissect_text(common@.abbr, Seq::empty(), None),
                    );
                    lemma_after_nothing(self@.array_dissect_text(common@, array_info@, item@));
                }
                s.append(
                    padding_check_text(array_info.pad_to_size, common.display_name.as_str()).as_str(),
                );
                writer.append(s.as_str());
            },
        }
    }

    /// Writes the dissection of this field as a plain value. The payload
    /// goes to the first of `children` whose constraints match; without
    /// such a child the value is read through the descriptor `abbr` and
    /// checked against `validate_expr`.
    pub fn write_scalar_dissect(
        &self,
        writer: &mut String,
        abbr: &str,
        children: &[String],
        validate_expr: Option<String>,
    )
        requires
            self@.wf(),
        ensures
            final(writer)@ == old(writer)@ + self@.scalar_dissect_text(
                abbr@,
                names_view(children@),
                opt_text(validate_expr),
            ),
    {
        let len_expr = self.len().to_lua_expr();
        let comments = self.to_comments();
        let mut branches: Vec<(String, String)> = Vec::new();
        let mut i: usize = 0;
        while i < children.len()
            invariant
                i <= children.len(),
                branches@.len() == i,
                branches_view(branches@) == child_branches(names_view(children@.take(i as int))),
            decreases children.len() - i,
        {
            let branch = child_branch_text(&children[i]);
            let ghost before = branches@;
            branches.push(branch);
            assert(branches_view(branches@) =~= child_branches(
                names_view(children@.take(i + 1)),
            )) by {
                let a = branches_view(branches@);
                let b = child_branches(names_view(children@.take(i + 1)));
                let c = child_branches(names_view(children@.take(i as int)));
                assert(a.len() == b.len());
                assert forall|k: int| 0 <= k < a.len() implies a[k] == b[k] by {
                    if k < i {
                        assert(branches@[k] == before[k]);
                        assert(branches_view(before)[k] == c[k]);
                    }
                }
            }
            i = i + 1;
        }
        assert(children@.take(i as int) =~= children@);
        let default = read_value_text(abbr, &validate_expr);
        let mut s = String::from_str("-- ");
        s.append(comments.as_str());
        s.append("\n");
        s.append("local field_len = enforce_len_limit(");
        s.append(len_expr.as_str());
        s.append(", buffer(i):len(), tree)\n");
        lua_if_then_else(&mut s, &branches, Some(default.as_str()));
        writer.append(s.as_str());
    }

    /// Writes the dissection of this field as a value of the declared
    /// type `decl`.
    pub fn write_typedef_dissect(
        &self,
        writer: &mut String,
        decl: &DeclDissectorInfo,
        name: &str,
        abbr: &str,
        endian: EndiannessValue,
    )
        requires
            self@.wf(),
            decl@.wf(),
        ensures
            final(writer)@ == old(writer)@ + self@.typedef_dissect_text(
                decl@,
                name@,
                abbr@,
                endian,
            ),
    {
        let comments = self.to_comments();
        match decl {
            DeclDissectorInfo::Sequence { name: decl_name, .. } => {
                let len_expr = decl.decl_len().to_lua_expr();
                let mut s = String::from_str("-- ");
                s.append(comments.as_str());
                s.append("\n");
                s.append("local field_len = enforce_len_limit(");
                s.append(len_expr.as_str());
                s.append(", buffer(i):len(), tree)\n");
                s.append("local subtree = tree:add(buffer(i, field_len), \"");
                s.append(name);
                s.append("\")\n");
                s.append("local dissected_len = ");
                s.append(decl_name.as_str());
                s.append("_dissect(buffer(i, field_len), pinfo, subtree, fields, path)\n");
                s.append("subtree:set_len(dissected_len)\n");
                s.append("i = i + dissected_len\n");
                writer.append(s.as_str());
            },
            DeclDissectorInfo::Enum { name: decl_name, .. } => {
                let len_expr = self.len().to_lua_expr();
                let mut s = String::from_str("-- ");
                s.append(comments.as_str());
                s.append("\n");
                s.append("local field_len = enforce_len_limit(math.ceil(");
                s.append(len_expr.as_str());
                s.append("), buffer(i):len(), tree)\n");
                s.append("subtree, field_values[path .. \".");
                s.append(name);
                s.append("\"], bitlen = fields[path .. \".");
                s.append(abbr);
                s.append("\"]:dissect(tree, buffer(i), field_len)\n");
                s.append("if ");
                s.append(decl_name.as_str());
                s.append("_enum.by_value[field_values[path .. \".");
                s.append(name);
                s.append("\"]] == nil then\n");
                s.append("    tree:add_expert_info(PI_MALFORMED, PI_WARN, \"Unknown enum value: \" .. field_values[path .. \".");
                s.append(name);
                s.append("\"])\n");
                s.append("end\n");
                s.append("i = i + bitlen / 8\n");
                writer.append(s.as_str());
            },
            DeclDissectorInfo::Checksum { name: _, len } => {
                let add_fn = match endian {
                    EndiannessValue::LittleEndian => "add_le",
                    EndiannessValue::BigEndian => "add",
                };
                let len_expr = self.len().to_lua_expr();
                let accessor = buffer_value_lua_function(endian, &RuntimeLenInfo::fixed(*len));
                let mut s = String::from_str("-- ");
                s.append(comments.as_str());
                s.append("\n");
                s.append("local field_len = enforce_len_limit(");
                s.append(len_expr.as_str());
                s.append(", buffer(i):len(), tree)\n");
                s.append("field_values[path .. \".");
                s.append(name);
                s.append("\"] = buffer(i, field_len):");
                s.append(accessor.as_str());
                s.append("\n");
                s.append("if field_len ~= 0 then\n");
                s.append("    tree:");
                s.append(add_fn);
                s.append("(fields[path .. \".");
                s.append(abbr);
                s.append("\"].field, buffer(i, field_len))\n");
                s.append("    i = i + field_len\n");
                s.append("end\n");
                writer.append(s.as_str());
            },
        }
    }

    /// Writes the loop that dissects the items of this array; `item` is
    /// the dissection of one item.
    pub fn write_array_dissect(
        &self,
        writer: &mut String,
        common_info: &CommonFieldDissectorInfo,
        array_info: &ArrayFieldDissectorInfo,
        item: &str,
    )
        requires
            array_info@.wf(),
        ensures
            final(writer)@ == old(writer)@ + self@.array_dissect_text(
                common_info@,
                array_info@,
                item@,
            ),
    {
        let comments = self.to_comments();
        let mut s = String::from_str("-- ");
        s.append(comments.as_str());
        s.append("\n");
        s.append("local initial_i = i\n");
        s.append(loop_head_text(common_info, array_info).as_str());
        s.append(indent_block(item).as_str());
        s.append("end\n");
        writer.append(s.as_str());
    }
}

impl DeclDissectorInfo {
    /// Writes the dissector of the protocol named after this sequence.
    pub fn write_main_dissector(&self, writer: &mut String)
        requires
            self is Sequence,
        ensures
            final(writer)@ == old(writer)@ + self@.main_dissector_text(),
    {
        let name = self.name();
        let mut s = String::from_str(name);
        s.append("_protocol_fields_table = {}\n");
        s.append("function ");
        s.append(name);
        s.append("_protocol.dissector(buffer, pinfo, tree)\n");
        s.append("    pinfo.cols.protocol = \"");
        s.append(name);
        s.append("\"\n");
        s.append("    local subtree = tree:add(");
        s.append(name);
        s.append("_protocol, buffer(), \"");
        s.append(name);
        s.append("\")\n");
        s.append("    local i = ");
        s.append(name);
        s.append("_dissect(buffer, pinfo, subtree, ");
        s.append(name);
        s.append("_protocol_fields_table, \"");
        s.append(name);
        s.append("\")\n");
        s.append("    if buffer(i):len() > 0 then\n");
        s.append("        local remaining_bytes = buffer:len() - i\n");
        s.append("        if math.floor(remaining_bytes) == remaining_bytes then\n");
        s.append("            subtree:add_expert_info(PI_MALFORMED, PI_WARN, \"Error: \" .. remaining_bytes .. \" undissected bytes remaining\")\n");
        s.append("        else\n");
        s.append("            subtree:add_expert_info(PI_MALFORMED, PI_WARN, \"Error: \" .. (remaining_bytes * 8) .. \" undissected bits remaining\")\n");
        s.append("        end\n");
        s.append("    end\n");
        s.append("end\n");
        s.append(name);
        s.append("_protocol_fields(");
        s.append(name);
        s.append("_protocol_fields_table, \"");
        s.append(name);
        s.append("\")\n");
        s.append("for name,field in pairs(");
        s.append(name);
        s.append("_protocol_fields_table) do\n");
        s.append("    ");
        s.append(name);
        s.append("_protocol.fields[name] = field.field\n");
        s.append("end\n");
        writer.append(s.as_str());
    }

    /// Writes the dissection function and the constraint predicate of a
    /// sequence; nothing for an enum or a checksum.
    pub fn write_dissect_fn(&self, writer: &mut String)
        requires
            self@.wf(),
        ensures
            final(writer)@ == old(writer)@ + self@.dissect_text(),
    {
        match self {
            DeclDissectorInfo::Sequence { name, fields, children: _, constraints } => {
                proof {
                    lemma_sequence_view(*self);
                }
                let ghost models = fields_view(fields@);
                let ghost conds = constraints_view(constraints@);
                let comments = self.to_comments();
                let mut body = String::new();
                let mut i: usize = 0;
                while i < fields.len()
                    invariant
                        i <= fields.len(),
                        self@.wf(),
                        self@ is Sequence,
                        self@->Sequence_fields == models,
                        models == fields_view(fields@),
                        body@ == indented_dissects(models, i as nat),
                    decreases fields.len() - i,
                {
                    assert(models[i as int] == fields[i as int]@);
                    assert(models[i as int].wf());
                    let mut block = String::new();
                    fields[i].write_dissect_fn(&mut block);
                    proof {
                        lemma_after_nothing(fields[i as int]@.dissect_text());
                    }
                    body.append(indent_block(block.as_str()).as_str());
                    i = i + 1;
                }
                let mut constraints_lua = String::new();
                if constraints.len() == 0 {
                    constraints_lua.append("true");
                    assert(constraints_lua@ =~= "true"@);
                } else {
                    let mut j: usize = 0;
                    while j < constraints.len()
                        invariant
                            j <= constraints.len(),
                            conds == constraints_view(constraints@),
                            constraints_lua@ == joined_constraints(conds, j as nat),
                        decreases constraints.len() - j,
                    {
                        assert(conds[j as int] == constraints[j as int]@);
                        if j == 0 {
                            constraints_lua.append(constraints[j].to_lua_expr().as_str());
                            assert(constraints_lua@ =~= conds[0].lua_expr());
                        } else {
                            let mut next = String::from_str(" and ");
                            next.append(constraints[j].to_lua_expr().as_str());
                            constraints_lua.append(next.as_str());
                            assert(constraints_lua@ =~= joined_constraints(conds, j as nat)
                                + " and "@ + conds[j as int].lua_expr());
                        }
                        j = j + 1;
                    }
                }
                let mut s = String::from_str("-- ");
                s.append(comments.as_str());
                s.append("\n");
                s.append("function ");
                s.append(name.as_str());
                s.append("_dissect(buffer, pinfo, tree, fields, path)\n");
                s.append("    local i = 0\n");
                s.append("    local field_values = {}\n");
                s.append(body.as_str());
                s.append("    return i\nend\n");
                let mut predicate = String::from_str("function ");
                predicate.append(name.as_str());
                predicate.append("_match_constraints(field_values, path)\n");
                predicate.append("    return ");
                predicate.append(constraints_lua.as_str());
                predicate.append("\n");
                predicate.append("end\n");
                s.append(predicate.as_str());
                writer.append(s.as_str());
            },
            DeclDissectorInfo::Enum { .. } => {
                assert(old(writer)@ + Seq::<char>::empty() =~= old(writer)@);
            },
            DeclDissectorInfo::Checksum { .. } => {
                assert(old(writer)@ + Seq::<char>::empty() =~= old(writer)@);
            },
        }
    }
}

} // verus!
