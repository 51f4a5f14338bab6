//! Text building blocks shared by the emitters: decimal numbers, booleans,
//! quoting, escaping, trimming and block indentation.

use vstd::prelude::*;

verus! {

/// The character that stands for the decimal digit `d`.
pub open spec fn digit(d: nat) -> char {
    if d == 0 {
        '0'
    } else if d == 1 {
        '1'
    } else if d == 2 {
        '2'
    } else if d == 3 {
        '3'
    } else if d == 4 {
        '4'
    } else if d == 5 {
        '5'
    } else if d == 6 {
        '6'
    } else if d == 7 {
        '7'
    } else if d == 8 {
        '8'
    } else {
        '9'
    }
}

/// The decimal numeral of `n`, most significant digit first, without
/// leading zeros.
pub open spec fn decimal(n: nat) -> Seq<char>
    decreases n,
{
    if n < 10 {
        seq![digit(n)]
    } else {
        decimal(n / 10).push(digit(n % 10))
    }
}

/// The word a boolean is written as.
pub open spec fn bool_word(b: bool) -> Seq<char> {
    if b {
        "true"@
    } else {
        "false"@
    }
}

/// `s` between double quotes.
pub open spec fn quoted(s: Seq<char>) -> Seq<char> {
    "\""@ + s + "\""@
}

/// What one character becomes inside a double-quoted script string: a
/// backslash and a double quote each gain a backslash in front.
pub open spec fn escaped_char(c: char) -> Seq<char> {
    if c == '\\' {
        "\\\\"@
    } else if c == '"' {
        "\\\""@
    } else {
        seq![c]
    }
}

/// `s` with every character replaced by its escaped form.
pub open spec fn escaped(s: Seq<char>) -> Seq<char>
    decreases s.len(),
{
    if s.len() == 0 {
        s
    } else {
        escaped(s.drop_last()) + escaped_char(s.last())
    }
}

/// The value of a decimal digit character.
pub open spec fn digit_value(c: char) -> Option<nat> {
    if 48 <= c as u32 <= 57 {
        Some((c as u32 - 48) as nat)
    } else {
        None
    }
}

/// The value of a run of one or more decimal digits.
pub open spec fn digits_value(s: Seq<char>) -> Option<nat>
    decreases s.len(),
{
    if s.len() == 0 {
        None
    } else if s.len() == 1 {
        digit_value(s[0])
    } else {
        match (digits_value(s.drop_last()), digit_value(s.last())) {
            (Some(high), Some(low)) => Some(high * 10 + low),
            _ => None,
        }
    }
}

/// The value of a number written as an optional plus sign and one or more
/// decimal digits.
pub open spec fn parse_number(s: Seq<char>) -> Option<nat> {
    if s.len() > 0 && s[0] == '+' {
        digits_value(s.drop_first())
    } else {
        digits_value(s)
    }
}

/// The text one level of indentation puts in front of a line.
pub open spec fn indent_unit() -> Seq<char> {
    seq![' ', ' ', ' ', ' ']
}

/// `s` with one indentation unit in front of every line that is not empty.
/// `at_line_start` says whether `s` begins at the start of a line.
pub open spec fn indented_from(s: Seq<char>, at_line_start: bool) -> Seq<char>
    decreases s.len(),
{
    if s.len() == 0 {
        s
    } else if s[0] == '\n' {
        seq!['\n'] + indented_from(s.drop_first(), true)
    } else if at_line_start {
        indent_unit() + seq![s[0]] + indented_from(s.drop_first(), false)
    } else {
        seq![s[0]] + indented_from(s.drop_first(), false)
    }
}

/// A block of text, indented by one level.
pub open spec fn indented(s: Seq<char>) -> Seq<char> {
    indented_from(s, true)
}

fn digit_text(d: usize) -> (s: &'static str)
    requires
        d < 10,
    ensures
        s@ == seq![digit(d as nat)],
{
    proof {
        reveal_strlit("0");
        reveal_strlit("1");
        reveal_strlit("2");
        reveal_strlit("3");
        reveal_strlit("4");
        reveal_strlit("5");
        reveal_strlit("6");
        reveal_strlit("7");
        reveal_strlit("8");
        reveal_strlit("9");
    }
    let s = if d == 0 {
        "0"
    } else if d == 1 {
        "1"
    } else if d == 2 {
        "2"
    } else if d == 3 {
        "3"
    } else if d == 4 {
        "4"
    } else if d == 5 {
        "5"
    } else if d == 6 {
        "6"
    } else if d == 7 {
        "7"
    } else if d == 8 {
        "8"
    } else {
        "9"
    };
    assert(s@ =~= seq![digit(d as nat)]);
    s
}

/// Writes `n` as a decimal numeral.
pub fn decimal_text(n: usize) -> (s: String)
    ensures
        s@ == decimal(n as nat),
    decreases n,
{
    if n < 10 {
        String::from_str(digit_text(n))
    } else {
        let mut s = decimal_text(n / 10);
        s.append(digit_text(n % 10));
        assert(s@ =~= decimal(n as nat));
        s
    }
}

/// Writes a boolean as `true` or `false`.
pub fn bool_text(b: bool) -> (s: &'static str)
    ensures
        s@ == bool_word(b),
{
    if b {
        "true"
    } else {
        "false"
    }
}

/// Puts `s` between double quotes.
pub fn quoted_text(s: &str) -> (out: String)
    ensures
        out@ == quoted(s@),
{
    let mut out = String::from_str("\"");
    out.append(s);
    out.append("\"");
    out
}

/// Escapes backslashes and double quotes in `s`, so that the result can
/// stand inside a double-quoted script string.
pub fn escaped_text(s: &str) -> (out: String)
    ensures
        out@ == escaped(s@),
{
    let n = s.unicode_len();
    let mut out = String::new();
    let mut i: usize = 0;
    while i < n
        invariant
            n == s@.len(),
            i <= n,
            out@ == escaped(s@.take(i as int)),
        decreases n - i,
    {
        let c = s.get_char(i);
        proof {
            let t = s@.take(i + 1);
            assert(t.drop_last() =~= s@.take(i as int));
            assert(t.last() == c);
        }
        if c == '\\' {
            out.append("\\\\");
        } else if c == '"' {
            out.append("\\\"");
        } else {
            out.append(s.substring_char(i, i + 1));
            assert(s@.subrange(i as int, i + 1) =~= seq![c]);
        }
        i = i + 1;
    }
    assert(s@.take(n as int) =~= s@);
    out
}

/// Indents a block of text by one level.
///
/// Trusted: the body hands `block` to `indent_write::fmt::IndentWriter`,
/// made with `new` and an indent of four spaces, through one `write_str`.
/// The contract restates that writer's rule: it starts at the start of a
/// line, copies every character, and puts the indent in front of the first
/// character of each line that holds anything but its newline.
#[verifier::external_body]
pub(crate) fn indent_block(block: &str) -> (out: String)
    ensures
        out@ == indented(block@),
{
    let mut out = String::new();
    let mut writer = indent_write::fmt::IndentWriter::new("    ", &mut out);
    let _ = std::fmt::Write::write_str(&mut writer, block);
    out
}

/// A run of digits has a value only if each of its characters is a
/// digit.
pub proof fn lemma_digits_value_all_digits(s: Seq<char>, i: int)
    requires
        0 <= i < s.len(),
        digits_value(s) is Some,
    ensures
        digit_value(s[i]) is Some,
    decreases s.len(),
{
    if s.len() > 1 && i < s.len() - 1 {
        lemma_digits_value_all_digits(s.drop_last(), i);
    }
}

/// Reads a number written as an optional plus sign and one or more
/// decimal digits. `None` where `s` is not of that form or the number
/// does not fit a machine word.
pub fn parse_usize(s: &str) -> (r: Option<usize>)
    ensures
        r == match parse_number(s@) {
            Some(v) => if v <= usize::MAX {
                Some(v as usize)
            } else {
                None
            },
            None => None,
        },
{
    let n = s.unicode_len();
    let start: usize = if n > 0 && s.get_char(0) == '+' {
        1
    } else {
        0
    };
    let ghost digits = s@.subrange(start as int, n as int);
    assert(start == 1 ==> digits =~= s@.drop_first());
    assert(start == 0 ==> digits =~= s@);
    assert(parse_number(s@) == digits_value(digits));
    if start >= n {
        return None;
    }
    let mut value: usize = 0;
    let mut overflow = false;
    let ghost mut exact: nat = 0;
    let mut i: usize = start;
    while i < n
        invariant
            start <= i <= n,
            n == s@.len(),
            digits == s@.subrange(start as int, n as int),
            parse_number(s@) == digits_value(digits),
            i > start ==> digits_value(s@.subrange(start as int, i as int)) == Some(exact),
            i == start ==> !overflow && value == 0,
            overflow ==> exact > usize::MAX,
            !overflow ==> exact == value,
        decreases n - i,
    {
        let c = s.get_char(i);
        let code = c as u32;
        let ghost prefix = s@.subrange(start as int, i as int);
        let ghost next = s@.subrange(start as int, i + 1);
        assert(next.drop_last() =~= prefix);
        assert(next.last() == c);
        if code < 48 || code > 57 {
            proof {
                assert(digits[i - start] == c);
                if digits_value(digits) is Some {
                    lemma_digits_value_all_digits(digits, i - start);
                }
            }
            return None;
        }
        let d = (code - 48) as usize;
        assert(digit_value(c) == Some(d as nat));
        if overflow || value > (usize::MAX - d) / 10 {
            overflow = true;
        } else {
            value = value * 10 + d;
        }
        proof {
            if i == start {
                exact = d as nat;
            } else {
                exact = exact * 10 + d as nat;
            }
        }
        i = i + 1;
    }
    assert(s@.subrange(start as int, i as int) =~= digits);
    if overflow {
        None
    } else {
        Some(value)
    }
}

/// Text after nothing is that text.
pub proof fn lemma_after_nothing(t: Seq<char>)
    ensures
        Seq::<char>::empty() + t == t,
{
    assert(Seq::<char>::empty() + t =~= t);
}

/// Joins two texts.
pub fn join2(a: &str, b: &str) -> (s: String)
    ensures
        s@ == a@ + b@,
{
    let mut s = String::from_str(a);
    s.append(b);
    s
}

/// Joins three texts.
pub fn join3(a: &str, b: &str, c: &str) -> (s: String)
    ensures
        s@ == a@ + b@ + c@,
{
    let mut s = String::from_str(a);
    s.append(b);
    s.append(c);
    s
}

} // verus!
