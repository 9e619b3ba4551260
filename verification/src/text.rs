//! Building text: the few operations on strings that the messages and the
//! XML output are made of.

use vstd::prelude::*;
use vstd::string::*;

verus! {

/// `String::push`: appends one character to the end of the string.
#[verifier::external_body]
pub(crate) fn push_char(text: &mut String, c: char)
    ensures
        final(text)@ == old(text)@.push(c),
{
    text.push(c)
}

/// Appends `more` to `text`.
pub(crate) fn push_text(text: &mut String, more: &str)
    ensures
        final(text)@ == old(text)@ + more@,
{
    text.append(more);
}

/// The decimal digit of a number below ten.
pub open spec fn digit_char(d: nat) -> char
    recommends
        d < 10,
{
    if d == 0 {
        '0'
    } else if d == 1 {
        '1'
    } else if d == 2 {
        '2'
    } else if d == 3 {
        '3'
    } else if d == 4 {
        '4'
    } else if d == 5 {
        '5'
    } else if d == 6 {
        '6'
    } else if d == 7 {
        '7'
    } else if d == 8 {
        '8'
    } else {
        '9'
    }
}

/// The decimal numeral of `n`, without leading zeros.
pub open spec fn decimal(n: nat) -> Seq<char>
    decreases n,
{
    if n < 10 {
        seq![digit_char(n)]
    } else {
        decimal(n / 10).push(digit_char(n % 10))
    }
}

fn digit(d: u64) -> (c: char)
    requires
        d < 10,
    ensures
        c == digit_char(d as nat),
{
    if d == 0 {
        '0'
    } else if d == 1 {
        '1'
    } else if d == 2 {
        '2'
    } else if d == 3 {
        '3'
    } else if d == 4 {
        '4'
    } else if d == 5 {
        '5'
    } else if d == 6 {
        '6'
    } else if d == 7 {
        '7'
    } else if d == 8 {
        '8'
    } else {
        '9'
    }
}

/// Appends the decimal numeral of `n` to `text`.
pub(crate) fn push_decimal(text: &mut String, n: u64)
    ensures
        final(text)@ == old(text)@ + decimal(n as nat),
    decreases n,
{
    if n < 10 {
        push_char(text, digit(n));
        assert(text@ =~= old(text)@ + decimal(n as nat));
    } else {
        push_decimal(text, n / 10);
        push_char(text, digit(n % 10));
        assert(text@ =~= old(text)@ + decimal(n as nat));
    }
}

/// The text that stands for `c` in XML: the character itself, or a
/// character reference for a quote, an ampersand or an angle bracket.
pub open spec fn escaped_char(c: char) -> Seq<char> {
    if c == '\'' {
        "&#39;"@
    } else if c == '"' {
        "&#34;"@
    } else if c == '&' {
        "&#38;"@
    } else if c == '<' {
        "&#60;"@
    } else if c == '>' {
        "&#62;"@
    } else {
        seq![c]
    }
}

/// `text` with every character that XML reserves replaced by its character
/// reference.
pub open spec fn escaped(text: Seq<char>) -> Seq<char>
    decreases text.len(),
{
    if text.len() == 0 {
        Seq::empty()
    } else {
        escaped(text.drop_last()) + escaped_char(text.last())
    }
}

/// Prepares a lexeme for XML output.
pub fn str_to_xml(lexeme: &str) -> (lex: String)
    ensures
        lex@ == escaped(lexeme@),
{
    let mut lex = String::new();
    let length = lexeme.unicode_len();
    let mut i: usize = 0;
    while i < length
        invariant
            length == lexeme@.len(),
            i <= length,
            lex@ == escaped(lexeme@.subrange(0, i as int)),
        decreases length - i,
    {
        let c = lexeme.get_char(i);
        proof {
            let next = lexeme@.subrange(0, i + 1);
            assert(next.drop_last() =~= lexeme@.subrange(0, i as int));
            assert(next.last() == c);
        }
        match c {
            '\'' => push_text(&mut lex, "&#39;"),
            '"' => push_text(&mut lex, "&#34;"),
            '&' => push_text(&mut lex, "&#38;"),
            '<' => push_text(&mut lex, "&#60;"),
            '>' => push_text(&mut lex, "&#62;"),
            chr => {
                push_char(&mut lex, chr);
                assert(lex@ =~= escaped(lexeme@.subrange(0, i as int)) + seq![chr]);
            },
        }
        i += 1;
    }
    assert(lexeme@.subrange(0, i as int) =~= lexeme@);
    lex
}

} // verus!
