//! The analyzed description file as the generator reads it: declarations,
//! their fields, and the lookups between declarations.

use vstd::prelude::*;

verus! {

/// Byte order of a description file.
#[derive(Clone, Copy, Debug, PartialEq, Eq, Structural)]
pub enum EndiannessValue {
    LittleEndian,
    BigEndian,
}

/// A position in a source file.
#[derive(Clone, Copy, Debug, PartialEq, Eq, Structural)]
pub struct SourceLocation {
    pub offset: usize,
    pub line: usize,
    pub column: usize,
}

/// A stretch of a source file.
#[derive(Clone, Copy, Debug, PartialEq, Eq, Structural)]
pub struct SourceRange {
    pub file: usize,
    pub start: SourceLocation,
    pub end: SourceLocation,
}

/// A comment of the source file, delimiters included.
#[derive(Clone, Debug)]
pub struct Comment {
    pub loc: SourceRange,
    pub text: String,
}

/// What the analysis found out about the size of a field, in bits.
#[derive(Clone, Copy, Debug, PartialEq, Eq, Structural)]
pub enum Size {
    Static(usize),
    Dynamic,
    Unknown,
}

/// An enum tag with a single value.
#[derive(Clone, Debug)]
pub struct TagValue {
    pub id: String,
    pub value: usize,
}

/// An enum tag that covers the closed interval from `lo` to `hi`, with
/// tags of its own for single values inside it.
#[derive(Clone, Debug)]
pub struct TagRange {
    pub id: String,
    pub lo: usize,
    pub hi: usize,
    pub tags: Vec<TagValue>,
}

/// The catch-all tag of an enum.
#[derive(Clone, Debug)]
pub struct TagOther {
    pub id: String,
}

#[derive(Clone, Debug)]
pub enum Tag {
    Value(TagValue),
    Range(TagRange),
    Other(TagOther),
}

/// A condition a child declaration puts on a field of its parent: either a
/// value or the name of an enum tag.
#[derive(Clone, Debug)]
pub struct Constraint {
    pub id: String,
    pub value: Option<usize>,
    pub tag_id: Option<String>,
}

#[derive(Clone, Debug)]
#[allow(inconsistent_fields)]
pub enum FieldDesc {
    Checksum { field_id: String },
    Padding { size: usize },
    Size { field_id: String, width: usize },
    Count { field_id: String, width: usize },
    ElementSize { field_id: String, width: usize },
    Body,
    Payload { size_modifier: Option<String> },
    FixedScalar { width: usize, value: usize },
    FixedEnum { enum_id: String, tag_id: String },
    Reserved { width: usize },
    Array {
        id: String,
        width: Option<usize>,
        type_id: Option<String>,
        size_modifier: Option<String>,
        size: Option<usize>,
    },
    Scalar { id: String, width: usize },
    Flag { id: String, optional_field_id: String, set_value: usize },
    Typedef { id: String, type_id: String },
    Group { group_id: String, constraints: Vec<Constraint> },
}

/// A field of a declaration, with its place in the source and the size the
/// analysis gave it.
#[derive(Clone, Debug)]
pub struct Field {
    pub loc: SourceRange,
    pub size: Size,
    pub desc: FieldDesc,
}

#[derive(Clone, Debug)]
#[allow(inconsistent_fields)]
pub enum DeclDesc {
    Checksum { id: String, function: String, width: usize },
    CustomField { id: String, width: Option<usize>, function: String },
    Enum { id: String, tags: Vec<Tag>, width: usize },
    Packet {
        id: String,
        constraints: Vec<Constraint>,
        fields: Vec<Field>,
        parent_id: Option<String>,
    },
    Struct {
        id: String,
        constraints: Vec<Constraint>,
        fields: Vec<Field>,
        parent_id: Option<String>,
    },
    Group { id: String, fields: Vec<Field> },
    Test { type_id: String },
}

#[derive(Clone, Debug)]
pub struct Decl {
    pub loc: SourceRange,
    pub desc: DeclDesc,
}

/// An analyzed description file.
#[derive(Clone, Debug)]
pub struct File {
    pub comments: Vec<Comment>,
    pub endianness: EndiannessValue,
    pub declarations: Vec<Decl>,
}

impl Field {
    /// The name of the field, for the kinds of field that have one.
    pub open spec fn name(&self) -> Option<Seq<char>> {
        match self.desc {
            FieldDesc::Array { id, .. } => Some(id@),
            FieldDesc::Scalar { id, .. } => Some(id@),
            FieldDesc::Flag { id, .. } => Some(id@),
            FieldDesc::Typedef { id, .. } => Some(id@),
            _ => None,
        }
    }

    /// The name of the field, for the kinds of field that have one.
    pub fn id(&self) -> (r: Option<&String>)
        ensures
            r is Some == self.name() is Some,
            r is Some ==> r->0@ == self.name()->0,
    {
        match &self.desc {
            FieldDesc::Array { id, .. } => Some(id),
            FieldDesc::Scalar { id, .. } => Some(id),
            FieldDesc::Flag { id, .. } => Some(id),
            FieldDesc::Typedef { id, .. } => Some(id),
            _ => None,
        }
    }
}

impl DeclDesc {
    /// The name of the declaration; a test declaration has none.
    pub open spec fn name(&self) -> Option<Seq<char>> {
        match self {
            DeclDesc::Checksum { id, .. } => Some(id@),
            DeclDesc::CustomField { id, .. } => Some(id@),
            DeclDesc::Enum { id, .. } => Some(id@),
            DeclDesc::Packet { id, .. } => Some(id@),
            DeclDesc::Struct { id, .. } => Some(id@),
            DeclDesc::Group { id, .. } => Some(id@),
            DeclDesc::Test { .. } => None,
        }
    }
}

impl Decl {
    /// The name of the declaration; a test declaration has none.
    pub open spec fn name(&self) -> Option<Seq<char>> {
        self.desc.name()
    }

    /// The name of the declaration this one derives from, if any.
    pub open spec fn parent_name(&self) -> Option<Seq<char>> {
        match self.desc {
            DeclDesc::Packet { parent_id: Some(p), .. } => Some(p@),
            DeclDesc::Struct { parent_id: Some(p), .. } => Some(p@),
            _ => None,
        }
    }

    /// The fields of a packet, struct or group; no fields otherwise.
    pub open spec fn field_seq(&self) -> Seq<Field> {
        match self.desc {
            DeclDesc::Packet { fields, .. } => fields@,
            DeclDesc::Struct { fields, .. } => fields@,
            DeclDesc::Group { fields, .. } => fields@,
            _ => Seq::empty(),
        }
    }

    /// The constraints of a packet or struct; none otherwise.
    pub open spec fn constraint_seq(&self) -> Seq<Constraint> {
        match self.desc {
            DeclDesc::Packet { constraints, .. } => constraints@,
            DeclDesc::Struct { constraints, .. } => constraints@,
            _ => Seq::empty(),
        }
    }

    /// Whether this declaration names `parent` as the one it derives from.
    /// Two absent names count as equal.
    pub open spec fn is_child_of(&self, parent: &Decl) -> bool {
        self.parent_name() == parent.name()
    }

    /// The name of the declaration; a test declaration has none.
    pub fn id(&self) -> (r: Option<&String>)
        ensures
            r is Some == self.name() is Some,
            r is Some ==> r->0@ == self.name()->0,
    {
        match &self.desc {
            DeclDesc::Checksum { id, .. } => Some(id),
            DeclDesc::CustomField { id, .. } => Some(id),
            DeclDesc::Enum { id, .. } => Some(id),
            DeclDesc::Packet { id, .. } => Some(id),
            DeclDesc::Struct { id, .. } => Some(id),
            DeclDesc::Group { id, .. } => Some(id),
            DeclDesc::Test { .. } => None,
        }
    }

    /// The name of the declaration this one derives from, if any.
    pub fn parent_id(&self) -> (r: Option<&String>)
        ensures
            r is Some == self.parent_name() is Some,
            r is Some ==> r->0@ == self.parent_name()->0,
    {
        match &self.desc {
            DeclDesc::Packet { parent_id: Some(p), .. } => Some(p),
            DeclDesc::Struct { parent_id: Some(p), .. } => Some(p),
            _ => None,
        }
    }

    /// The fields of a packet, struct or group; `None` for the kinds of
    /// declaration that have no field list.
    pub fn fields(&self) -> (r: Option<&Vec<Field>>)
        ensures
            r is Some == (self.desc is Packet || self.desc is Struct || self.desc is Group),
            r is Some ==> r->0@ == self.field_seq(),
            r is None ==> self.field_seq().len() == 0,
    {
        match &self.desc {
            DeclDesc::Packet { fields, .. } => Some(fields),
            DeclDesc::Struct { fields, .. } => Some(fields),
            DeclDesc::Group { fields, .. } => Some(fields),
            _ => None,
        }
    }

    /// The constraints of a packet or struct; `None` for the other kinds.
    pub fn constraints(&self) -> (r: Option<&Vec<Constraint>>)
        ensures
            r is Some == (self.desc is Packet || self.desc is Struct),
            r is Some ==> r->0@ == self.constraint_seq(),
            r is None ==> self.constraint_seq().len() == 0,
    {
        match &self.desc {
            DeclDesc::Packet { constraints, .. } => Some(constraints),
            DeclDesc::Struct { constraints, .. } => Some(constraints),
            _ => None,
        }
    }

    /// Whether this declaration names `parent` as the one it derives from.
    pub fn derives_from(&self, parent: &Decl) -> (r: bool)
        ensures
            r == self.is_child_of(parent),
    {
        match (self.parent_id(), parent.id()) {
            (Some(a), Some(b)) => *a == *b,
            (None, None) => true,
            _ => false,
        }
    }
}

/// The first declaration of `decls` that is named `name`.
pub open spec fn find_decl(decls: Seq<Decl>, name: Seq<char>) -> Option<Decl>
    decreases decls.len(),
{
    if decls.len() == 0 {
        None
    } else if decls[0].name() == Some(name) {
        Some(decls[0])
    } else {
        find_decl(decls.drop_first(), name)
    }
}

/// Those of `decls` that derive from `parent`, in order.
pub open spec fn children_among(decls: Seq<Decl>, parent: Decl) -> Seq<Decl>
    decreases decls.len(),
{
    if decls.len() == 0 {
        Seq::empty()
    } else if decls.last().is_child_of(&parent) {
        children_among(decls.drop_last(), parent).push(decls.last())
    } else {
        children_among(decls.drop_last(), parent)
    }
}

impl File {
    /// The declaration that the type name `name` stands for.
    pub open spec fn typedef_of(&self, name: Seq<char>) -> Option<Decl> {
        find_decl(self.declarations@, name)
    }

    /// The declaration `decl` derives from, if it names one that exists.
    pub open spec fn parent_of(&self, decl: &Decl) -> Option<Decl> {
        match decl.parent_name() {
            Some(p) => self.typedef_of(p),
            None => None,
        }
    }

    /// The declarations that derive from `decl`, in file order.
    pub open spec fn children_of(&self, decl: &Decl) -> Seq<Decl> {
        children_among(self.declarations@, *decl)
    }

    /// Looks up the declaration that the type name `name` stands for.
    pub fn typedef(&self, name: &String) -> (r: Option<&Decl>)
        ensures
            r is Some == self.typedef_of(name@) is Some,
            r is Some ==> *r->0 == self.typedef_of(name@)->0,
    {
        let mut i: usize = 0;
        assert(self.declarations@.skip(0) =~= self.declarations@);
        while i < self.declarations.len()
            invariant
                i <= self.declarations.len(),
                self.typedef_of(name@) == find_decl(self.declarations@.skip(i as int), name@),
            decreases self.declarations.len() - i,
        {
            let decl = &self.declarations[i];
            let ghost rest = self.declarations@.skip(i as int);
            assert(rest[0] == *decl);
            assert(rest.drop_first() =~= self.declarations@.skip(i + 1));
            match decl.id() {
                Some(id) => {
                    if *id == *name {
                        return Some(decl);
                    }
                },
                None => {},
            }
            i = i + 1;
        }
        None
    }

    /// Looks up the declaration `decl` derives from.
    pub fn get_parent(&self, decl: &Decl) -> (r: Option<&Decl>)
        ensures
            r is Some == self.parent_of(decl) is Some,
            r is Some ==> *r->0 == self.parent_of(decl)->0,
    {
        match decl.parent_id() {
            Some(p) => self.typedef(p),
            None => None,
        }
    }
}

} // verus!
