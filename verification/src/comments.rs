//! Comments of the description file: which comment belongs to a field, and
//! the text inside the comment delimiters.

use vstd::prelude::*;
use crate::ast::{Comment, File, SourceRange};
use crate::text::{quoted, quoted_text};

verus! {

/// Whether `comment` ends on the line on which `source` ends, in the same
/// file.
pub open spec fn on_same_line(comment: Comment, source: SourceRange) -> bool {
    comment.loc.file == source.file && comment.loc.end.line == source.end.line
}

/// The first of `comments` that ends on the line on which `source` ends.
pub open spec fn comment_on_line(comments: Seq<Comment>, source: SourceRange) -> Option<Comment>
    decreases comments.len(),
{
    if comments.len() == 0 {
        None
    } else if on_same_line(comments[0], source) {
        Some(comments[0])
    } else {
        comment_on_line(comments.drop_first(), source)
    }
}

/// Finds the comment that trails the source range `source`: the first
/// comment of the file whose last line is the last line of `source`.
pub fn find_comments_on_same_line<'a>(file: &'a File, source: &SourceRange) -> (r: Option<
    &'a Comment,
>)
    ensures
        r is Some == comment_on_line(file.comments@, *source) is Some,
        r is Some ==> *r->0 == comment_on_line(file.comments@, *source)->0,
{
    let mut i: usize = 0;
    assert(file.comments@.skip(0) =~= file.comments@);
    while i < file.comments.len()
        invariant
            i <= file.comments.len(),
            comment_on_line(file.comments@, *source) == comment_on_line(
                file.comments@.skip(i as int),
                *source,
            ),
        decreases file.comments.len() - i,
    {
        let comment = &file.comments[i];
        let ghost rest = file.comments@.skip(i as int);
        assert(rest[0] == *comment);
        assert(rest.drop_first() =~= file.comments@.skip(i + 1));
        if comment.loc.file == source.file && comment.loc.end.line == source.end.line {
            return Some(comment);
        }
        i = i + 1;
    }
    None
}

/// The characters that count as white space: the characters with the
/// Unicode property of that name.
pub open spec fn is_whitespace(c: char) -> bool {
    let n = c as u32;
    ||| 0x09 <= n <= 0x0d
    ||| n == 0x20
    ||| n == 0x85
    ||| n == 0xa0
    ||| n == 0x1680
    ||| 0x2000 <= n <= 0x200a
    ||| n == 0x2028
    ||| n == 0x2029
    ||| n == 0x202f
    ||| n == 0x205f
    ||| n == 0x3000
}

/// `s` without the white space at its start.
pub open spec fn trim_start(s: Seq<char>) -> Seq<char>
    decreases s.len(),
{
    if s.len() > 0 && is_whitespace(s[0]) {
        trim_start(s.drop_first())
    } else {
        s
    }
}

/// `s` without the white space at its end.
pub open spec fn trim_end(s: Seq<char>) -> Seq<char>
    decreases s.len(),
{
    if s.len() > 0 && is_whitespace(s.last()) {
        trim_end(s.drop_last())
    } else {
        s
    }
}

/// `s` without the white space at its start and at its end.
pub open spec fn trimmed(s: Seq<char>) -> Seq<char> {
    trim_end(trim_start(s))
}

/// A comment between `/*` and `*/`.
pub open spec fn is_block_comment(s: Seq<char>) -> bool {
    s.len() >= 4 && s[0] == '/' && s[1] == '*' && s[s.len() - 2] == '*' && s[s.len() - 1] == '/'
}

/// A comment that starts with `//`.
pub open spec fn is_line_comment(s: Seq<char>) -> bool {
    s.len() >= 2 && s[0] == '/' && s[1] == '/'
}

/// The text of a comment without its delimiters and without the white
/// space around it; nothing if `s` is not a comment.
pub open spec fn unwrapped(s: Seq<char>) -> Seq<char> {
    if is_block_comment(s) {
        trimmed(s.subrange(2, s.len() - 2))
    } else if is_line_comment(s) {
        trimmed(s.skip(2))
    } else {
        Seq::empty()
    }
}

fn is_whitespace_char(c: char) -> (r: bool)
    ensures
        r == is_whitespace(c),
{
    let n = c as u32;
    (0x09 <= n && n <= 0x0d) || n == 0x20 || n == 0x85 || n == 0xa0 || n == 0x1680 || (0x2000 <= n
        && n <= 0x200a) || n == 0x2028 || n == 0x2029 || n == 0x202f || n == 0x205f || n == 0x3000
}

/// The part of `s` from character `from` to character `to`, without the
/// white space at its start and at its end.
fn trimmed_part(s: &str, from: usize, to: usize) -> (r: &str)
    requires
        from <= to <= s@.len(),
    ensures
        r@ == trimmed(s@.subrange(from as int, to as int)),
{
    let mut a = from;
    while a < to && is_whitespace_char(s.get_char(a))
        invariant
            from <= a <= to <= s@.len(),
            trim_start(s@.subrange(from as int, to as int)) == trim_start(
                s@.subrange(a as int, to as int),
            ),
        decreases to - a,
    {
        assert(s@.subrange(a as int, to as int).drop_first() =~= s@.subrange(a + 1, to as int));
        a = a + 1;
    }
    let mut b = to;
    while b > a && is_whitespace_char(s.get_char(b - 1))
        invariant
            a <= b <= to <= s@.len(),
            trim_end(s@.subrange(a as int, to as int)) == trim_end(
                s@.subrange(a as int, b as int),
            ),
        decreases b - a,
    {
        assert(s@.subrange(a as int, b as int).drop_last() =~= s@.subrange(a as int, b - 1));
        b = b - 1;
    }
    s.substring_char(a, b)
}

/// Takes the delimiters and the surrounding white space off a comment.
pub fn unwrap_comment(s: &str) -> (r: &str)
    ensures
        r@ == unwrapped(s@),
{
    let n = s.unicode_len();
    if n >= 4 && s.get_char(0) == '/' && s.get_char(1) == '*' && s.get_char(n - 2) == '*'
        && s.get_char(n - 1) == '/' {
        trimmed_part(s, 2, n - 2)
    } else if n >= 2 && s.get_char(0) == '/' && s.get_char(1) == '/' {
        assert(s@.skip(2) =~= s@.subrange(2, n as int));
        trimmed_part(s, 2, n)
    } else {
        proof {
            reveal_strlit("");
        }
        assert(""@ =~= Seq::<char>::empty());
        ""
    }
}

/// Values that can be written as a script expression.
pub trait ToLuaExpr {
    /// The expression the value is written as.
    spec fn lua_expr(&self) -> Seq<char>;

    fn to_lua_expr(&self) -> (s: String)
        ensures
            s@ == self.lua_expr(),
    ;
}

/// An optional text as a script expression: the text between double
/// quotes, or `nil`.
pub open spec fn opt_quoted(t: Option<Seq<char>>) -> Seq<char> {
    match t {
        Some(s) => quoted(s),
        None => "nil"@,
    }
}

impl ToLuaExpr for Option<&str> {
    open spec fn lua_expr(&self) -> Seq<char> {
        match self {
            Some(s) => quoted(s@),
            None => "nil"@,
        }
    }

    fn to_lua_expr(&self) -> (s: String) {
        match self {
            Some(t) => quoted_text(t),
            None => String::from_str("nil"),
        }
    }
}

} // verus!
