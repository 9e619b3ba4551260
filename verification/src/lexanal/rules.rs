//! The lexical rules, stated over the source text as a sequence of
//! characters.
//!
//! [`scan`] says which symbol, if any, is read from a given place of a text,
//! and where reading goes on afterwards. Everything the scanner does is held
//! against it.

use crate::lexanal::position::Span;
use crate::lexanal::symbol::{SymbolView, Token};
use crate::text::decimal;
use vstd::prelude::*;

verus! {

/// Why a text is lexically malformed.
#[derive(Debug, Clone, Copy, PartialEq, Eq, Structural)]
pub enum LexicalFault {
    /// A character that starts no symbol.
    InvalidCharacter(char),
    /// A control or non-ASCII character inside a comment.
    InvalidCommentCharacter(char),
    /// The dot of a real literal is not followed by a digit.
    DotWithoutDigit,
    /// The exponent mark of a real literal, with its optional sign, is not
    /// followed by a digit.
    ExponentWithoutDigit,
    /// A letter directly behind a numeric literal.
    LetterInNumber(char),
    /// The text ends inside a string literal.
    StringNotClosed,
    /// A backslash inside a string literal is not followed by `\`, `"` or `'`.
    InvalidEscape,
}

impl LexicalFault {
    /// The fault in words.
    pub open spec fn message(self) -> Seq<char> {
        match self {
            LexicalFault::InvalidCharacter(c) => "Invalid character "@.push(c) + " (ascii: "@
                + decimal(c as nat) + ")"@,
            LexicalFault::InvalidCommentCharacter(c) => "Invalid character '"@.push(c)
                + "' (ascii: "@ + decimal(c as nat) + ") in comment"@,
            LexicalFault::DotWithoutDigit =>
                "Error while parsing REALCONST. Dot (.) must be followed by at least one digit!"@,
            LexicalFault::ExponentWithoutDigit =>
                "Error while parsing REALCONST. Exponent must hold at least one digit!"@,
            LexicalFault::LetterInNumber(c) =>
                "Error while parsing a numeric constant: illegal character "@.push(c) + "!"@,
            LexicalFault::StringNotClosed => "Error: End of file occurred, but string not closed!"@,
            LexicalFault::InvalidEscape => "Error: String escape!"@,
        }
    }
}

/// The mathematical model of a lexical error: the reason and the span of
/// source text it is reported at.
pub struct LexicalErrorView {
    pub reason: LexicalFault,
    pub position: Span,
}

impl LexicalErrorView {
    /// The error in words: what is wrong, and where.
    pub open spec fn text(self) -> Seq<char> {
        self.reason.message() + " "@ + self.position.text()
    }
}

/// The bytes of a source read as characters, one character per byte.
pub open spec fn chars_of(bytes: Seq<u8>) -> Seq<char> {
    bytes.map_values(|b: u8| b as char)
}

pub open spec fn is_blank(c: char) -> bool {
    c == ' ' || c == '\t' || c == '\r' || c == '\n'
}

pub open spec fn is_digit(c: char) -> bool {
    '0' <= c && c <= '9'
}

pub open spec fn is_alpha(c: char) -> bool {
    ('a' <= c && c <= 'z') || ('A' <= c && c <= 'Z')
}

pub open spec fn is_word_start(c: char) -> bool {
    is_alpha(c) || c == '_'
}

pub open spec fn is_word_part(c: char) -> bool {
    is_alpha(c) || is_digit(c) || c == '_'
}

/// Characters allowed inside a comment: printable ASCII and carriage return.
pub open spec fn is_comment_char(c: char) -> bool {
    c == '\r' || (' ' <= c && c <= '~')
}

/// Characters a string literal keeps as they are: letters, digits and
/// whitespace.
pub open spec fn is_string_char(c: char) -> bool {
    is_alpha(c) || is_digit(c) || c == ' ' || ('\t' <= c && c <= '\r')
}

/// Characters that may follow a backslash inside a string literal.
pub open spec fn is_escapable(c: char) -> bool {
    c == '\\' || c == '"' || c == '\''
}

/// The symbols that consist of one character and start no longer symbol.
pub open spec fn punctuation(c: char) -> Option<Token> {
    if c == '+' {
        Some(Token::ADD)
    } else if c == '-' {
        Some(Token::SUB)
    } else if c == '*' {
        Some(Token::MUL)
    } else if c == '/' {
        Some(Token::DIV)
    } else if c == '%' {
        Some(Token::MOD)
    } else if c == '!' {
        Some(Token::NOT)
    } else if c == '&' {
        Some(Token::AND)
    } else if c == '|' {
        Some(Token::OR)
    } else if c == '(' {
        Some(Token::LPARENT)
    } else if c == ')' {
        Some(Token::RPARENT)
    } else if c == '[' {
        Some(Token::LBRACKET)
    } else if c == ']' {
        Some(Token::RBRACKET)
    } else if c == '{' {
        Some(Token::LBRACE)
    } else if c == '}' {
        Some(Token::RBRACE)
    } else if c == '.' {
        Some(Token::DOT)
    } else if c == ',' {
        Some(Token::COMMA)
    } else if c == ':' {
        Some(Token::COLON)
    } else if c == ';' {
        Some(Token::SEMIC)
    } else {
        None
    }
}

/// The operator or punctuation symbol that starts at offset `i`, with its
/// length: `==`, `<>`, `<=` and `>=` are preferred over their first
/// character alone.
pub open spec fn operator_at(text: Seq<char>, i: int) -> Option<(Token, nat)>
    recommends
        0 <= i < text.len(),
{
    let c = text[i];
    let next = if i + 1 < text.len() {
        Some(text[i + 1])
    } else {
        None
    };
    if c == '=' {
        if next == Some('=') {
            Some((Token::EQU, 2nat))
        } else {
            Some((Token::ASSIGN, 1nat))
        }
    } else if c == '<' {
        if next == Some('>') {
            Some((Token::NEQ, 2nat))
        } else if next == Some('=') {
            Some((Token::LEQ, 2nat))
        } else {
            Some((Token::LTH, 1nat))
        }
    } else if c == '>' {
        if next == Some('=') {
            Some((Token::GEQ, 2nat))
        } else {
            Some((Token::GTH, 1nat))
        }
    } else {
        match punctuation(c) {
            Some(token) => Some((token, 1nat)),
            None => None,
        }
    }
}

/// The kind of a word that is not an identifier: the reserved words, the
/// names of the atomic types, and the two boolean constants.
pub open spec fn reserved_word(word: Seq<char>) -> Option<Token> {
    if word == "int"@ {
        Some(Token::INT)
    } else if word == "real"@ {
        Some(Token::REAL)
    } else if word == "bool"@ {
        Some(Token::BOOL)
    } else if word == "string"@ {
        Some(Token::STRING)
    } else if word == "arr"@ {
        Some(Token::ARR)
    } else if word == "else"@ {
        Some(Token::ELSE)
    } else if word == "for"@ {
        Some(Token::FOR)
    } else if word == "fun"@ {
        Some(Token::FUN)
    } else if word == "if"@ {
        Some(Token::IF)
    } else if word == "rec"@ {
        Some(Token::REC)
    } else if word == "then"@ {
        Some(Token::THEN)
    } else if word == "typ"@ {
        Some(Token::TYP)
    } else if word == "var"@ {
        Some(Token::VAR)
    } else if word == "where"@ {
        Some(Token::WHERE)
    } else if word == "while"@ {
        Some(Token::WHILE)
    } else if word == "true"@ {
        Some(Token::BOOLCONST)
    } else if word == "false"@ {
        Some(Token::BOOLCONST)
    } else {
        None
    }
}

/// The kind of a word: that of a reserved word, or an identifier.
pub open spec fn word_token(word: Seq<char>) -> Token {
    match reserved_word(word) {
        Some(token) => token,
        None => Token::IDENTIFIER,
    }
}

/// The offset at which the run of word characters that contains offset `i`
/// ends.
pub open spec fn word_end(text: Seq<char>, i: int) -> int
    decreases text.len() - i,
{
    if 0 <= i < text.len() && is_word_part(text[i]) {
        word_end(text, i + 1)
    } else {
        i
    }
}

/// The offset at which the run of digits that contains offset `i` ends.
pub open spec fn digits_end(text: Seq<char>, i: int) -> int
    decreases text.len() - i,
{
    if 0 <= i < text.len() && is_digit(text[i]) {
        digits_end(text, i + 1)
    } else {
        i
    }
}

/// A run of word characters ends at or behind its start, within the text,
/// and behind its start if a word character stands there.
pub proof fn lemma_word_end_bounds(text: Seq<char>, i: int)
    requires
        0 <= i <= text.len(),
    ensures
        i <= word_end(text, i) <= text.len(),
        i < text.len() && is_word_part(text[i]) ==> i < word_end(text, i),
    decreases text.len() - i,
{
    if i < text.len() && is_word_part(text[i]) {
        lemma_word_end_bounds(text, i + 1);
    }
}

/// A run of digits ends at or behind its start, within the text, and behind
/// its start if a digit stands there.
pub proof fn lemma_digits_end_bounds(text: Seq<char>, i: int)
    requires
        0 <= i <= text.len(),
    ensures
        i <= digits_end(text, i) <= text.len(),
        i < text.len() && is_digit(text[i]) ==> i < digits_end(text, i),
    decreases text.len() - i,
{
    if i < text.len() && is_digit(text[i]) {
        lemma_digits_end_bounds(text, i + 1);
    }
}

/// What a numeric literal turns out to be. `end` is the offset just behind
/// the characters that belong to the literal; for a fault, behind those that
/// were accepted before the fault showed.
pub enum Number {
    Int { end: int },
    Real { end: int },
    Fault { reason: LexicalFault, end: int },
}

impl Number {
    /// The offset behind the literal, or behind the accepted part of a
    /// malformed one.
    pub open spec fn end(self) -> int {
        match self {
            Number::Int { end } => end,
            Number::Real { end } => end,
            Number::Fault { reason, end } => end,
        }
    }
}

/// A numeric literal that is complete at offset `end`: no letter may follow.
pub open spec fn number_closed(text: Seq<char>, end: int, fractional: bool) -> Number {
    if 0 <= end < text.len() && is_alpha(text[end]) {
        Number::Fault { reason: LexicalFault::LetterInNumber(text[end]), end }
    } else if fractional {
        Number::Real { end }
    } else {
        Number::Int { end }
    }
}

/// The numeric literal that starts with the digit at offset `start`:
/// digits; then, for a real literal, a dot and at least one digit; then,
/// optionally, `e` or `E`, an optional sign and at least one digit.
pub open spec fn number_at(text: Seq<char>, start: int) -> Number {
    let whole = digits_end(text, start);
    if 0 <= whole < text.len() && text[whole] == '.' {
        let fraction = whole + 1;
        if !(fraction < text.len() && is_digit(text[fraction])) {
            Number::Fault { reason: LexicalFault::DotWithoutDigit, end: fraction }
        } else {
            let mark = digits_end(text, fraction);
            if 0 <= mark < text.len() && (text[mark] == 'e' || text[mark] == 'E') {
                let signed = mark + 1 < text.len() && (text[mark + 1] == '+' || text[mark + 1]
                    == '-');
                let exponent = if signed {
                    mark + 2
                } else {
                    mark + 1
                };
                if !(exponent < text.len() && is_digit(text[exponent])) {
                    Number::Fault {
                        reason: LexicalFault::ExponentWithoutDigit,
                        end: exponent,
                    }
                } else {
                    number_closed(text, digits_end(text, exponent), true)
                }
            } else {
                number_closed(text, mark, true)
            }
        }
    } else {
        number_closed(text, whole, false)
    }
}

/// A place in a source text: the offset of a character, and the line and
/// column that are reported for it.
pub struct Place {
    pub offset: int,
    pub line: nat,
    pub column: nat,
}

impl Place {
    /// The place of the first character of a text.
    pub open spec fn start() -> Place {
        Place { offset: 0, line: 1, column: 1 }
    }

    /// The place of the character behind `c`, where `c` stands at `self`: a
    /// newline starts the next line at column 1, a tab takes four columns, a
    /// carriage return takes none, any other character takes one.
    pub open spec fn after(self, c: char) -> Place {
        if c == '\n' {
            Place { offset: self.offset + 1, line: self.line + 1, column: 1 }
        } else if c == '\t' {
            Place { offset: self.offset + 1, line: self.line, column: self.column + 4 }
        } else if c == '\r' {
            Place { offset: self.offset + 1, line: self.line, column: self.column }
        } else {
            Place { offset: self.offset + 1, line: self.line, column: self.column + 1 }
        }
    }

    /// The place `n` characters further on the same line.
    pub open spec fn right(self, n: nat) -> Place {
        Place { offset: self.offset + n, line: self.line, column: self.column + n }
    }

    /// Lines and columns count from 1 and stay within what the characters
    /// before this place can account for.
    pub open spec fn bounded(self) -> bool {
        &&& 0 <= self.offset
        &&& 1 <= self.line <= self.offset + 1
        &&& 1 <= self.column <= 4 * self.offset + 1
    }

    /// `self` is at or before `other` in the order of lines and columns.
    pub open spec fn at_or_before(self, other: Place) -> bool {
        self.line < other.line || (self.line == other.line && self.column <= other.column)
    }

    /// The span from the character at `self` to the character at `last`.
    pub open spec fn through(self, file: Seq<char>, last: Place) -> Span {
        Span {
            file,
            begin_line: self.line,
            begin_column: self.column,
            end_line: last.line,
            end_column: last.column,
        }
    }

    /// The span of the `n` characters that start at `self`, all on one line.
    pub open spec fn run(self, file: Seq<char>, n: nat) -> Span
        recommends
            n >= 1,
    {
        self.through(file, self.right((n - 1) as nat))
    }
}

/// What reading one symbol from a place of a text comes to.
pub enum Scan {
    /// A symbol, and the place behind it.
    Symbol { symbol: SymbolView, after: Place },
    /// The end of the text, and the place behind its last character.
    End { after: Place },
    /// The text is malformed.
    Fault { fault: LexicalErrorView },
}

/// The rest of a string literal whose opening quote stands at `open`.
/// `last` is the place of the character read last, `p` the place to read
/// next, and `content` what the literal holds so far.
///
/// Letters, digits and whitespace are kept; a backslash keeps the `\`, `"` or
/// `'` behind it; every other character but the closing quote is dropped.
/// The symbol spans the literal from quote to quote. A fault is reported for
/// the part of the literal that was read.
pub open spec fn string_rest(
    file: Seq<char>,
    text: Seq<char>,
    open: Place,
    last: Place,
    p: Place,
    content: Seq<char>,
) -> Scan
    decreases text.len() - p.offset,
{
    if p.offset >= text.len() {
        Scan::Fault {
            fault: LexicalErrorView {
                reason: LexicalFault::StringNotClosed,
                position: open.through(file, last),
            },
        }
    } else {
        let c = text[p.offset];
        if c == '"' {
            Scan::Symbol {
                symbol: SymbolView {
                    token: Token::STRINGCONST,
                    lexeme: content,
                    position: open.through(file, p),
                },
                after: p.after(c),
            }
        } else if c == '\\' {
            if p.offset + 1 < text.len() && is_escapable(text[p.offset + 1]) {
                let escaped = text[p.offset + 1];
                string_rest(
                    file,
                    text,
                    open,
                    p.after(c),
                    p.after(c).after(escaped),
                    content.push(escaped),
                )
            } else {
                Scan::Fault {
                    fault: LexicalErrorView {
                        reason: LexicalFault::InvalidEscape,
                        position: open.through(file, p),
                    },
                }
            }
        } else if is_string_char(c) {
            string_rest(file, text, open, p, p.after(c), content.push(c))
        } else {
            string_rest(file, text, open, p, p.after(c), content)
        }
    }
}

/// The symbol that starts at `p`, where a character stands that is neither
/// blank nor the start of a comment.
pub open spec fn symbol_at(file: Seq<char>, text: Seq<char>, p: Place) -> Scan
    recommends
        0 <= p.offset < text.len(),
{
    let c = text[p.offset];
    match operator_at(text, p.offset) {
        Some((token, n)) => Scan::Symbol {
            symbol: SymbolView {
                token,
                lexeme: text.subrange(p.offset, p.offset + n),
                position: p.run(file, n),
            },
            after: p.right(n),
        },
        None => if c == '"' {
            string_rest(file, text, p, p, p.after(c), Seq::empty())
        } else if is_word_start(c) {
            let end = word_end(text, p.offset);
            let lexeme = text.subrange(p.offset, end);
            let n = (end - p.offset) as nat;
            Scan::Symbol {
                symbol: SymbolView {
                    token: word_token(lexeme),
                    lexeme,
                    position: p.run(file, n),
                },
                after: p.right(n),
            }
        } else if is_digit(c) {
            match number_at(text, p.offset) {
                Number::Int { end } => Scan::Symbol {
                    symbol: SymbolView {
                        token: Token::INTCONST,
                        lexeme: text.subrange(p.offset, end),
                        position: p.run(file, (end - p.offset) as nat),
                    },
                    after: p.right((end - p.offset) as nat),
                },
                Number::Real { end } => Scan::Symbol {
                    symbol: SymbolView {
                        token: Token::REALCONST,
                        lexeme: text.subrange(p.offset, end),
                        position: p.run(file, (end - p.offset) as nat),
                    },
                    after: p.right((end - p.offset) as nat),
                },
                Number::Fault { reason, end } => Scan::Fault {
                    fault: LexicalErrorView {
                        reason,
                        position: p.run(file, (end - p.offset) as nat),
                    },
                },
            }
        } else {
            Scan::Fault {
                fault: LexicalErrorView {
                    reason: LexicalFault::InvalidCharacter(c),
                    position: p.run(file, 1),
                },
            }
        },
    }
}

/// Reading one symbol from place `p` of `text`: blanks and comments are
/// passed over, then a symbol is read, unless the text ends first.
pub open spec fn scan(file: Seq<char>, text: Seq<char>, p: Place) -> Scan
    decreases text.len() - p.offset,
{
    if p.offset >= text.len() {
        Scan::End { after: p }
    } else {
        let c = text[p.offset];
        if is_blank(c) {
            scan(file, text, p.after(c))
        } else if c == '#' {
            scan_comment(file, text, p.after(c))
        } else {
            symbol_at(file, text, p)
        }
    }
}

/// Reading one symbol from place `p` inside a comment: the comment runs to
/// the end of the line or of the text, and holds printable ASCII characters
/// and carriage returns only.
pub open spec fn scan_comment(file: Seq<char>, text: Seq<char>, p: Place) -> Scan
    decreases text.len() - p.offset,
{
    if p.offset >= text.len() {
        Scan::End { after: p }
    } else {
        let c = text[p.offset];
        if c == '\n' {
            scan(file, text, p.after(c))
        } else if is_comment_char(c) {
            scan_comment(file, text, p.after(c))
        } else {
            Scan::Fault {
                fault: LexicalErrorView {
                    reason: LexicalFault::InvalidCommentCharacter(c),
                    position: p.run(file, 1),
                },
            }
        }
    }
}

/// A numeric literal is not empty and ends within the text.
pub proof fn lemma_number_bounds(text: Seq<char>, start: int)
    requires
        0 <= start < text.len(),
        is_digit(text[start]),
    ensures
        start < number_at(text, start).end() <= text.len(),
{
    lemma_digits_end_bounds(text, start);
    let whole = digits_end(text, start);
    if whole < text.len() && text[whole] == '.' {
        let fraction = whole + 1;
        if fraction < text.len() && is_digit(text[fraction]) {
            lemma_digits_end_bounds(text, fraction);
            let mark = digits_end(text, fraction);
            if mark < text.len() && (text[mark] == 'e' || text[mark] == 'E') {
                let signed = mark + 1 < text.len() && (text[mark + 1] == '+' || text[mark + 1]
                    == '-');
                let exponent = if signed {
                    mark + 2
                } else {
                    mark + 1
                };
                if exponent < text.len() && is_digit(text[exponent]) {
                    lemma_digits_end_bounds(text, exponent);
                }
            }
        }
    }
}

/// A string literal ends behind the place that its rest is read from, within
/// the text.
pub proof fn lemma_string_advances(
    file: Seq<char>,
    text: Seq<char>,
    open: Place,
    last: Place,
    p: Place,
    content: Seq<char>,
)
    requires
        0 <= p.offset,
    ensures
        string_rest(file, text, open, last, p, content) matches Scan::Symbol { symbol, after }
            ==> p.offset < after.offset <= text.len(),
        !(string_rest(file, text, open, last, p, content) is End),
    decreases text.len() - p.offset,
{
    if p.offset < text.len() {
        let c = text[p.offset];
        if c == '"' {
        } else if c == '\\' {
            if p.offset + 1 < text.len() && is_escapable(text[p.offset + 1]) {
                let escaped = text[p.offset + 1];
                lemma_string_advances(
                    file,
                    text,
                    open,
                    p.after(c),
                    p.after(c).after(escaped),
                    content.push(escaped),
                );
            }
        } else if is_string_char(c) {
            lemma_string_advances(file, text, open, p, p.after(c), content.push(c));
        } else {
            lemma_string_advances(file, text, open, p, p.after(c), content);
        }
    }
}

/// A symbol is not empty and ends within the text.
pub proof fn lemma_symbol_advances(file: Seq<char>, text: Seq<char>, p: Place)
    requires
        0 <= p.offset < text.len(),
    ensures
        symbol_at(file, text, p) matches Scan::Symbol { symbol, after } ==> p.offset
            < after.offset <= text.len(),
        !(symbol_at(file, text, p) is End),
{
    let c = text[p.offset];
    if operator_at(text, p.offset) is None {
        if c == '"' {
            lemma_string_advances(file, text, p, p, p.after(c), Seq::empty());
        } else if is_word_start(c) {
            lemma_word_end_bounds(text, p.offset);
        } else if is_digit(c) {
            lemma_number_bounds(text, p.offset);
        }
    }
}

/// Reading a symbol moves on in the text, and stays within it; the end is
/// found at the end of the text only.
pub proof fn lemma_scan_advances(file: Seq<char>, text: Seq<char>, p: Place)
    requires
        0 <= p.offset,
    ensures
        scan(file, text, p) matches Scan::Symbol { symbol, after } ==> p.offset < after.offset
            <= text.len(),
        scan(file, text, p) matches Scan::End { after } ==> p.offset <= after.offset
            && text.len() <= after.offset,
        scan_comment(file, text, p) matches Scan::Symbol { symbol, after } ==> p.offset
            < after.offset <= text.len(),
        scan_comment(file, text, p) matches Scan::End { after } ==> p.offset <= after.offset
            && text.len() <= after.offset,
    decreases text.len() - p.offset,
{
    if p.offset < text.len() {
        let c = text[p.offset];
        lemma_scan_advances(file, text, p.after(c));
        lemma_symbol_advances(file, text, p);
    }
}

} // verus!
