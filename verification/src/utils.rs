//! Small emitters shared by the dissector emitters: the buffer accessor of
//! a value and the conditional chain.

use vstd::prelude::*;
use crate::ast::EndiannessValue;
use crate::len_info::{RuntimeLen, RuntimeLenInfo};
use crate::text::{indent_block, indented};

verus! {

/// The call that reads a value of length `len` from a buffer: an integer
/// accessor for a constant length, by byte order and by whether the value
/// is wider than 32 bits, and the raw bytes for any other length.
pub open spec fn buffer_accessor(endian: EndiannessValue, len: RuntimeLen) -> Seq<char> {
    match len {
        RuntimeLen::Bounded { refs, const_bits } => if refs.len() == 0 {
            match endian {
                EndiannessValue::LittleEndian => if const_bits > 32 {
                    "le_uint64()"@
                } else {
                    "le_uint()"@
                },
                EndiannessValue::BigEndian => if const_bits > 32 {
                    "uint64()"@
                } else {
                    "uint()"@
                },
            }
        } else {
            "raw()"@
        },
        RuntimeLen::Unbounded => "raw()"@,
    }
}

pub fn buffer_value_lua_function(endian: EndiannessValue, len: &RuntimeLenInfo) -> (s: String)
    ensures
        s@ == buffer_accessor(endian, len@),
{
    match len {
        RuntimeLenInfo::Bounded { referenced_fields, constant_factor } => {
            if referenced_fields.len() == 0 {
                match endian {
                    EndiannessValue::LittleEndian => if constant_factor.0 > 32 {
                        String::from_str("le_uint64()")
                    } else {
                        String::from_str("le_uint()")
                    },
                    EndiannessValue::BigEndian => if constant_factor.0 > 32 {
                        String::from_str("uint64()")
                    } else {
                        String::from_str("uint()")
                    },
                }
            } else {
                String::from_str("raw()")
            }
        },
        RuntimeLenInfo::Unbounded => String::from_str("raw()"),
    }
}

/// The views of a list of branches: each a condition and the text of its
/// body.
pub open spec fn branches_view(branches: Seq<(String, String)>) -> Seq<(Seq<char>, Seq<char>)> {
    Seq::new(branches.len(), |i: int| (branches[i].0@, branches[i].1@))
}

/// The keyword that opens the branch at position `i` of a chain.
pub open spec fn branch_keyword(i: int) -> Seq<char> {
    if i == 0 {
        "if"@
    } else {
        "elseif"@
    }
}

/// The branch at position `i` of a chain: its opening line and its
/// indented body.
pub open spec fn if_arm(i: int, branch: (Seq<char>, Seq<char>)) -> Seq<char> {
    branch_keyword(i) + " "@ + branch.0 + " then\n"@ + indented(branch.1)
}

/// The conditional branches of a chain: the first opens with `if`, the
/// others with `elseif`, and each body is indented.
pub open spec fn if_arms(branches: Seq<(Seq<char>, Seq<char>)>) -> Seq<char>
    decreases branches.len(),
{
    if branches.len() == 0 {
        Seq::empty()
    } else {
        if_arms(branches.drop_last()) + if_arm(branches.len() - 1, branches.last())
    }
}

/// A chain of conditional branches with an optional default. Without
/// branches the chain is the default as it stands, or nothing.
pub open spec fn if_chain(
    branches: Seq<(Seq<char>, Seq<char>)>,
    else_branch: Option<Seq<char>>,
) -> Seq<char> {
    if branches.len() == 0 {
        match else_branch {
            Some(body) => body,
            None => Seq::empty(),
        }
    } else {
        match else_branch {
            Some(body) => if_arms(branches) + "else\n"@ + indented(body) + "end\n"@,
            None => if_arms(branches) + "end\n"@,
        }
    }
}

/// Writes a chain of conditional branches, each a condition and the text
/// of its body, with an optional default.
pub fn lua_if_then_else(
    writer: &mut String,
    branches: &Vec<(String, String)>,
    else_branch: Option<&str>,
)
    ensures
        final(writer)@ == old(writer)@ + if_chain(
            branches_view(branches@),
            match else_branch {
                Some(body) => Some(body@),
                None => None,
            },
        ),
{
    let ghost all = branches_view(branches@);
    let mut arms = String::new();
    let mut i: usize = 0;
    while i < branches.len()
        invariant
            i <= branches.len(),
            all == branches_view(branches@),
            arms@ == if_arms(all.take(i as int)),
        decreases branches.len() - i,
    {
        let mut arm = if i == 0 {
            String::from_str("if")
        } else {
            String::from_str("elseif")
        };
        arm.append(" ");
        arm.append(branches[i].0.as_str());
        arm.append(" then\n");
        arm.append(indent_block(branches[i].1.as_str()).as_str());
        proof {
            let next = all.take(i + 1);
            assert(next.drop_last() =~= all.take(i as int));
            assert(next.last() == all[i as int]);
        }
        arms.append(arm.as_str());
        i = i + 1;
    }
    assert(all.take(i as int) =~= all);
    if branches.len() == 0 {
        match else_branch {
            Some(body) => {
                writer.append(body);
            },
            None => {
                assert(old(writer)@ + Seq::<char>::empty() =~= old(writer)@);
            },
        }
    } else {
        match else_branch {
            Some(body) => {
                arms.append("else\n");
                arms.append(indent_block(body).as_str());
                arms.append("end\n");
            },
            None => {
                arms.append("end\n");
            },
        }
        writer.append(arms.as_str());
    }
}

} // verus!
