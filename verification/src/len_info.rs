//! Lengths that are resolved when the generated script runs, and the
//! analyzer field type that goes with a bit width.

use vstd::prelude::*;
use crate::ast::Size;
use crate::text::{decimal, decimal_text};

verus! {

/// A number of bits.
#[derive(Debug, Clone, Copy)]
pub struct BitLen(pub usize);

impl View for BitLen {
    type V = nat;

    open spec fn view(&self) -> nat {
        self.0 as nat
    }
}

impl Default for BitLen {
    fn default() -> (r: Self)
        ensures
            r@ == 0,
    {
        BitLen(0)
    }
}

impl BitLen {
    /// The number of bits as a decimal numeral.
    pub fn to_text(&self) -> (s: String)
        ensures
            s@ == decimal(self@),
    {
        decimal_text(self.0)
    }
}

/// The mathematical value of a run-time length: either unbounded, or a
/// constant number of bits plus the run-time values of the fields named in
/// `refs`.
pub enum RuntimeLen {
    Bounded { refs: Seq<Seq<char>>, const_bits: nat },
    Unbounded,
}

/// The argument that looks up the run-time value of the field `name`.
pub open spec fn field_value_arg(name: Seq<char>) -> Seq<char> {
    ", field_values[path .. \"."@ + name + "\"]"@
}

/// The lookup arguments of all of `refs`, in order.
pub open spec fn field_value_args(refs: Seq<Seq<char>>) -> Seq<char>
    decreases refs.len(),
{
    if refs.len() == 0 {
        Seq::empty()
    } else {
        field_value_args(refs.drop_last()) + field_value_arg(refs.last())
    }
}

impl RuntimeLen {
    /// The length of nothing.
    pub open spec fn empty() -> RuntimeLen {
        RuntimeLen::fixed(0)
    }

    /// A constant length of `bits` bits.
    pub open spec fn fixed(bits: nat) -> RuntimeLen {
        RuntimeLen::Bounded { refs: Seq::empty(), const_bits: bits }
    }

    /// This length plus the run-time value of the field `name` and
    /// `modifier` constant bits. An unbounded length stays unbounded.
    pub open spec fn with_field(self, name: Seq<char>, modifier: nat) -> RuntimeLen {
        match self {
            RuntimeLen::Bounded { refs, const_bits } => RuntimeLen::Bounded {
                refs: refs.push(name),
                const_bits: const_bits + modifier,
            },
            RuntimeLen::Unbounded => RuntimeLen::Unbounded,
        }
    }

    /// The sum of two lengths: two bounded lengths give a bounded one with
    /// the references of both, in order, and the sum of the constants;
    /// anything else is unbounded.
    pub open spec fn plus(self, other: RuntimeLen) -> RuntimeLen {
        match (self, other) {
            (
                RuntimeLen::Bounded { refs: r1, const_bits: c1 },
                RuntimeLen::Bounded { refs: r2, const_bits: c2 },
            ) => RuntimeLen::Bounded { refs: r1 + r2, const_bits: c1 + c2 },
            _ => RuntimeLen::Unbounded,
        }
    }

    /// The constant part modulo 8; 0 for an unbounded length.
    pub open spec fn bit_offset(self) -> nat {
        match self {
            RuntimeLen::Bounded { const_bits, .. } => const_bits % 8,
            RuntimeLen::Unbounded => 0,
        }
    }

    /// The constant part; 0 for an unbounded length.
    pub open spec fn const_part(self) -> nat {
        match self {
            RuntimeLen::Bounded { const_bits, .. } => const_bits,
            RuntimeLen::Unbounded => 0,
        }
    }

    /// Whether the constant part can be held in a machine word.
    pub open spec fn fits(self) -> bool {
        self.const_part() <= usize::MAX
    }

    /// The script expression that computes this length in octets when the
    /// script runs: a call that sums the constant, divided by 8, and the
    /// values of the referenced fields; `nil` for an unbounded length.
    pub open spec fn lua_expr(self) -> Seq<char> {
        match self {
            RuntimeLen::Bounded { refs, const_bits } => "sum_or_nil("@ + decimal(const_bits)
                + " / 8"@ + field_value_args(refs) + ")"@,
            RuntimeLen::Unbounded => "nil"@,
        }
    }
}

/// The views of a list of names.
pub open spec fn names_view(names: Seq<String>) -> Seq<Seq<char>> {
    Seq::new(names.len(), |i: int| names[i]@)
}

/// The views of a list with one more name are the views of the list with
/// one more view.
pub proof fn lemma_names_view_push(names: Seq<String>, name: String)
    ensures
        names_view(names.push(name)) == names_view(names).push(name@),
{
    assert(names_view(names.push(name)) =~= names_view(names).push(name@));
}

/// The views of the first `i + 1` names are the views of the first `i`
/// with the view of the next.
pub proof fn lemma_names_view_take(names: Seq<String>, i: int)
    requires
        0 <= i < names.len(),
    ensures
        names_view(names.take(i + 1)) == names_view(names.take(i)).push(names[i]@),
{
    assert(names.take(i + 1) =~= names.take(i).push(names[i]));
    lemma_names_view_push(names.take(i), names[i]);
}

/// Representation of length info that is resolvable at run time.
#[derive(Debug, Clone)]
pub enum RuntimeLenInfo {
    /// The length is the sum of the run-time values of the referenced
    /// fields, in octets, and of the constant factor, in bits.
    Bounded { referenced_fields: Vec<String>, constant_factor: BitLen },
    /// The length is not bounded, as for an array without a fixed size.
    Unbounded,
}

impl View for RuntimeLenInfo {
    type V = RuntimeLen;

    open spec fn view(&self) -> RuntimeLen {
        match self {
            RuntimeLenInfo::Bounded { referenced_fields, constant_factor } => RuntimeLen::Bounded {
                refs: names_view(referenced_fields@),
                const_bits: constant_factor@,
            },
            RuntimeLenInfo::Unbounded => RuntimeLen::Unbounded,
        }
    }
}

impl RuntimeLenInfo {
    pub fn empty() -> (r: Self)
        ensures
            r@ == RuntimeLen::empty(),
    {
        Self::fixed(BitLen(0))
    }

    pub fn fixed(size: BitLen) -> (r: Self)
        ensures
            r@ == RuntimeLen::fixed(size@),
    {
        let r = RuntimeLenInfo::Bounded { referenced_fields: Vec::new(), constant_factor: size };
        assert(r@.arrow_Bounded_refs() =~= Seq::empty());
        r
    }

    /// The constant part of the length modulo 8.
    pub fn bit_offset(&self) -> (r: BitLen)
        ensures
            r@ == self@.bit_offset(),
    {
        match self {
            RuntimeLenInfo::Bounded { referenced_fields: _, constant_factor } => BitLen(
                constant_factor.0 % 8,
            ),
            RuntimeLenInfo::Unbounded => BitLen(0),
        }
    }

    /// A copy of this length.
    pub fn duplicate(&self) -> (r: Self)
        ensures
            r@ == self@,
    {
        match self {
            RuntimeLenInfo::Bounded { referenced_fields, constant_factor } => {
                let mut names: Vec<String> = Vec::new();
                let mut i: usize = 0;
                while i < referenced_fields.len()
                    invariant
                        i <= referenced_fields.len(),
                        names_view(names@) == names_view(referenced_fields@.take(i as int)),
                    decreases referenced_fields.len() - i,
                {
                    proof {
                        lemma_names_view_push(names@, referenced_fields[i as int]);
                        lemma_names_view_take(referenced_fields@, i as int);
                    }
                    names.push(referenced_fields[i].clone());
                    i = i + 1;
                }
                assert(referenced_fields@.take(i as int) =~= referenced_fields@);
                RuntimeLenInfo::Bounded { referenced_fields: names, constant_factor: *constant_factor }
            },
            RuntimeLenInfo::Unbounded => RuntimeLenInfo::Unbounded,
        }
    }

    /// Adds the run-time value of `field` and `modifier` constant bits.
    pub fn add_len_field(&mut self, field: String, modifier: BitLen)
        requires
            old(self)@.with_field(field@, modifier@).fits(),
        ensures
            final(self)@ == old(self)@.with_field(field@, modifier@),
    {
        match self {
            RuntimeLenInfo::Bounded { referenced_fields, constant_factor } => {
                proof {
                    lemma_names_view_push(referenced_fields@, field);
                }
                constant_factor.0 = constant_factor.0 + modifier.0;
                referenced_fields.push(field);
            },
            RuntimeLenInfo::Unbounded => {},
        }
    }

    /// Adds `other` to this length.
    pub fn add(&mut self, other: &RuntimeLenInfo)
        requires
            old(self)@.plus(other@).fits(),
        ensures
            final(self)@ == old(self)@.plus(other@),
    {
        match other {
            RuntimeLenInfo::Bounded { referenced_fields: theirs, constant_factor: their_bits } => {
                match self {
                    RuntimeLenInfo::Bounded { referenced_fields, constant_factor } => {
                        let ghost before = referenced_fields@;
                        constant_factor.0 = constant_factor.0 + their_bits.0;
                        let mut i: usize = 0;
                        while i < theirs.len()
                            invariant
                                i <= theirs.len(),
                                names_view(referenced_fields@) == names_view(before) + names_view(
                                    theirs@.take(i as int),
                                ),
                            decreases theirs.len() - i,
                        {
                            proof {
                                lemma_names_view_push(referenced_fields@, theirs[i as int]);
                                lemma_names_view_take(theirs@, i as int);
                            }
                            referenced_fields.push(theirs[i].clone());
                            assert(names_view(referenced_fields@) =~= names_view(before)
                                + names_view(theirs@.take(i + 1)));
                            i = i + 1;
                        }
                        assert(theirs@.take(i as int) =~= theirs@);
                    },
                    RuntimeLenInfo::Unbounded => {},
                }
            },
            RuntimeLenInfo::Unbounded => {
                *self = RuntimeLenInfo::Unbounded;
            },
        }
    }

    /// Adds `other` to this length if the sum can be held, and says
    /// whether it did; otherwise this length stays as it is.
    pub fn try_add(&mut self, other: &RuntimeLenInfo) -> (done: bool)
        ensures
            done == old(self)@.plus(other@).fits(),
            done ==> final(self)@ == old(self)@.plus(other@),
            !done ==> *final(self) == *old(self),
    {
        let fits = match (&*self, other) {
            (
                RuntimeLenInfo::Bounded { constant_factor: mine, .. },
                RuntimeLenInfo::Bounded { constant_factor: theirs, .. },
            ) => mine.0 <= usize::MAX - theirs.0,
            _ => true,
        };
        if fits {
            self.add(other);
        }
        fits
    }

    /// The script expression that computes this length when the script
    /// runs.
    pub fn to_lua_expr(&self) -> (s: String)
        ensures
            s@ == self@.lua_expr(),
    {
        match self {
            RuntimeLenInfo::Bounded { referenced_fields, constant_factor } => {
                let mut args = String::new();
                let mut i: usize = 0;
                while i < referenced_fields.len()
                    invariant
                        i <= referenced_fields.len(),
                        args@ == field_value_args(names_view(referenced_fields@.take(i as int))),
                    decreases referenced_fields.len() - i,
                {
                    let mut arg = String::from_str(", field_values[path .. \".");
                    arg.append(referenced_fields[i].as_str());
                    arg.append("\"]");
                    args.append(arg.as_str());
                    proof {
                        lemma_names_view_take(referenced_fields@, i as int);
                        let next = names_view(referenced_fields@.take(i + 1));
                        assert(next.drop_last() =~= names_view(referenced_fields@.take(i as int)));
                    }
                    i = i + 1;
                }
                assert(referenced_fields@.take(i as int) =~= referenced_fields@);
                let mut out = String::from_str("sum_or_nil(");
                out.append(constant_factor.to_text().as_str());
                out.append(" / 8");
                out.append(args.as_str());
                out.append(")");
                out
            },
            RuntimeLenInfo::Unbounded => String::from_str("nil"),
        }
    }
}

impl RuntimeLenInfo {
    /// The length that goes with an analyzed size: a static size is a
    /// constant length, any other size is unbounded.
    pub fn from_size(value: Size) -> (r: Self)
        ensures
            r@ == size_len(value),
    {
        match value {
            Size::Static(v) => RuntimeLenInfo::fixed(BitLen(v)),
            Size::Dynamic => RuntimeLenInfo::Unbounded,
            Size::Unknown => RuntimeLenInfo::Unbounded,
        }
    }
}

/// The length that goes with an analyzed size.
pub open spec fn size_len(value: Size) -> RuntimeLen {
    match value {
        Size::Static(v) => RuntimeLen::fixed(v as nat),
        Size::Dynamic => RuntimeLen::Unbounded,
        Size::Unknown => RuntimeLen::Unbounded,
    }
}

/// The field type width that goes with an analyzed size.
pub open spec fn size_ftype(value: Size) -> Option<nat> {
    match value {
        Size::Static(v) => Some(v as nat),
        Size::Dynamic => None,
        Size::Unknown => None,
    }
}

/// The width of a field type in bits; `None` stands for opaque bytes.
#[derive(Debug, Clone, Copy)]
pub struct FType(pub Option<BitLen>);

/// The analyzer's field type for a value of `bits` bits: the narrowest
/// unsigned integer type that holds 1 to 64 bits, else bytes.
pub open spec fn ftype_token(bits: Option<nat>) -> Seq<char> {
    match bits {
        Some(n) => if 1 <= n <= 8 {
            "ftypes.UINT8"@
        } else if 9 <= n <= 16 {
            "ftypes.UINT16"@
        } else if 17 <= n <= 24 {
            "ftypes.UINT24"@
        } else if 25 <= n <= 32 {
            "ftypes.UINT32"@
        } else if 33 <= n <= 64 {
            "ftypes.UINT64"@
        } else {
            "ftypes.BYTES"@
        },
        None => "ftypes.BYTES"@,
    }
}

/// The width in bits of the analyzer's field type for a value of `bits`
/// bits; `None` where that type is bytes.
pub open spec fn aligned_width_bits(bits: Option<nat>) -> Option<nat> {
    match bits {
        Some(n) => if 1 <= n <= 8 {
            Some(8nat)
        } else if 9 <= n <= 16 {
            Some(16nat)
        } else if 17 <= n <= 24 {
            Some(24nat)
        } else if 25 <= n <= 32 {
            Some(32nat)
        } else if 33 <= n <= 64 {
            Some(64nat)
        } else {
            None
        },
        None => None,
    }
}

impl View for FType {
    type V = Option<nat>;

    open spec fn view(&self) -> Option<nat> {
        match self.0 {
            Some(len) => Some(len@),
            None => None,
        }
    }
}

impl FType {
    /// The analyzer's field type token.
    pub fn to_lua_expr(&self) -> (s: &'static str)
        ensures
            s@ == ftype_token(self@),
    {
        match self.0 {
            Some(BitLen(n)) => if 1 <= n && n <= 8 {
                "ftypes.UINT8"
            } else if 9 <= n && n <= 16 {
                "ftypes.UINT16"
            } else if 17 <= n && n <= 24 {
                "ftypes.UINT24"
            } else if 25 <= n && n <= 32 {
                "ftypes.UINT32"
            } else if 33 <= n && n <= 64 {
                "ftypes.UINT64"
            } else {
                "ftypes.BYTES"
            },
            None => "ftypes.BYTES",
        }
    }

    /// The width in bits of the analyzer's field type.
    pub fn to_type_len(&self) -> (r: Option<usize>)
        ensures
            r is Some == aligned_width_bits(self@) is Some,
            r is Some ==> r->0 as nat == aligned_width_bits(self@)->0,
    {
        match self.0 {
            Some(BitLen(n)) => if 1 <= n && n <= 8 {
                Some(8)
            } else if 9 <= n && n <= 16 {
                Some(16)
            } else if 17 <= n && n <= 24 {
                Some(24)
            } else if 25 <= n && n <= 32 {
                Some(32)
            } else if 33 <= n && n <= 64 {
                Some(64)
            } else {
                None
            },
            None => None,
        }
    }

    /// The width in bits as a decimal numeral, or `nil` for opaque bytes.
    pub fn bitlen_text(&self) -> (s: String)
        ensures
            s@ == bitlen_word(self@),
    {
        match self.0 {
            Some(len) => len.to_text(),
            None => String::from_str("nil"),
        }
    }
}

/// A width in bits as a decimal numeral, or `nil` where there is none.
pub open spec fn bitlen_word(bits: Option<nat>) -> Seq<char> {
    match bits {
        Some(n) => decimal(n),
        None => "nil"@,
    }
}

impl FType {
    /// The field type width that goes with an analyzed size: a static
    /// size is that many bits, any other size is opaque bytes.
    pub fn from_size(value: Size) -> (r: Self)
        ensures
            r@ == size_ftype(value),
    {
        match value {
            Size::Static(v) => FType(Some(BitLen(v))),
            Size::Dynamic => FType(None),
            Size::Unknown => FType(None),
        }
    }
}

impl From<Size> for FType {
    fn from(value: Size) -> (r: Self) {
        FType::from_size(value)
    }
}

impl vstd::std_specs::convert::FromSpecImpl<Size> for FType {
    open spec fn obeys_from_spec() -> bool {
        true
    }

    open spec fn from_spec(value: Size) -> Self {
        match value {
            Size::Static(v) => FType(Some(BitLen(v))),
            Size::Dynamic => FType(None),
            Size::Unknown => FType(None),
        }
    }
}

} // verus!
