//! The ways in which generation can fail.

use vstd::prelude::*;

verus! {

#[derive(Debug, Clone, Copy, PartialEq, Eq, Structural)]
pub enum ErrorKind {
    /// No target was named, or a named target is not declared.
    BadInput,
    /// The description holds something the generator has no rule for.
    UnsupportedConstruct,
    /// A padding field does not follow an array.
    BadPadding,
    /// A type name stands for no declaration.
    TypedefUnresolved,
}

impl ErrorKind {
    /// What went wrong, in words.
    pub open spec fn description(self) -> Seq<char> {
        match self {
            ErrorKind::BadInput => "no target was named, or a named target is not declared"@,
            ErrorKind::UnsupportedConstruct => {
                "the description holds a construct that no dissector can be generated for"@
            },
            ErrorKind::BadPadding => "a padding field does not follow an array"@,
            ErrorKind::TypedefUnresolved => "a type name stands for no declaration"@,
        }
    }

    /// What went wrong, in words.
    pub fn message(&self) -> (s: &'static str)
        ensures
            s@ == self.description(),
    {
        match self {
            ErrorKind::BadInput => "no target was named, or a named target is not declared",
            ErrorKind::UnsupportedConstruct => {
                "the description holds a construct that no dissector can be generated for"
            },
            ErrorKind::BadPadding => "a padding field does not follow an array",
            ErrorKind::TypedefUnresolved => "a type name stands for no declaration",
        }
    }
}

} // verus!
