//! Lexical analysis: source spans, symbols, the lexical rules and the
//! analyzer that reads symbols from a source text according to them.

pub mod position;
pub mod rules;
pub mod symbol;

use crate::lexanal::position::Position;
use crate::lexanal::rules::{
    chars_of, scan, scan_comment, string_rest, symbol_at, LexicalErrorView, LexicalFault, Number,
    Place, Scan,
};
use crate::lexanal::symbol::{Symbol, Token};
use crate::text::{push_char, push_decimal, push_text};
use std::rc::Rc;
use vstd::prelude::*;

verus! {

/// A malformed piece of source text: the reason, and where it stands.
#[derive(Debug)]
pub struct LexicalError {
    pub reason: LexicalFault,
    pub position: Position,
}

impl View for LexicalError {
    type V = LexicalErrorView;

    open spec fn view(&self) -> LexicalErrorView {
        LexicalErrorView { reason: self.reason, position: self.position@ }
    }
}

/// The fault in words.
pub fn fault_message(reason: LexicalFault) -> (message: String)
    ensures
        message@ == reason.message(),
{
    let mut message = String::new();
    match reason {
        LexicalFault::InvalidCharacter(c) => {
            push_text(&mut message, "Invalid character ");
            push_char(&mut message, c);
            push_text(&mut message, " (ascii: ");
            push_decimal(&mut message, c as u32 as u64);
            push_text(&mut message, ")");
        },
        LexicalFault::InvalidCommentCharacter(c) => {
            push_text(&mut message, "Invalid character '");
            push_char(&mut message, c);
            push_text(&mut message, "' (ascii: ");
            push_decimal(&mut message, c as u32 as u64);
            push_text(&mut message, ") in comment");
        },
        LexicalFault::DotWithoutDigit => {
            push_text(
                &mut message,
                "Error while parsing REALCONST. Dot (.) must be followed by at least one digit!",
            );
        },
        LexicalFault::ExponentWithoutDigit => {
            push_text(
                &mut message,
                "Error while parsing REALCONST. Exponent must hold at least one digit!",
            );
        },
        LexicalFault::LetterInNumber(c) => {
            push_text(&mut message, "Error while parsing a numeric constant: illegal character ");
            push_char(&mut message, c);
            push_text(&mut message, "!");
        },
        LexicalFault::StringNotClosed => {
            push_text(&mut message, "Error: End of file occurred, but string not closed!");
        },
        LexicalFault::InvalidEscape => {
            push_text(&mut message, "Error: String escape!");
        },
    }
    assert(message@ =~= reason.message());
    message
}

impl LexicalError {
    /// The error in words: what is wrong, and where.
    pub fn to_string(&self) -> (text: String)
        ensures
            text@ == self@.text(),
    {
        let mut text = fault_message(self.reason);
        push_text(&mut text, " ");
        push_text(&mut text, self.position.to_string().as_str());
        text
    }
}

fn blank(c: char) -> (yes: bool)
    ensures
        yes == rules::is_blank(c),
{
    c == ' ' || c == '\t' || c == '\r' || c == '\n'
}

fn digit(c: char) -> (yes: bool)
    ensures
        yes == rules::is_digit(c),
{
    '0' <= c && c <= '9'
}

fn alpha(c: char) -> (yes: bool)
    ensures
        yes == rules::is_alpha(c),
{
    ('a' <= c && c <= 'z') || ('A' <= c && c <= 'Z')
}

fn word_part(c: char) -> (yes: bool)
    ensures
        yes == rules::is_word_part(c),
{
    alpha(c) || digit(c) || c == '_'
}

fn comment_char(c: char) -> (yes: bool)
    ensures
        yes == rules::is_comment_char(c),
{
    c == '\r' || (' ' <= c && c <= '~')
}

fn string_char(c: char) -> (yes: bool)
    ensures
        yes == rules::is_string_char(c),
{
    alpha(c) || digit(c) || c == ' ' || ('\t' <= c && c <= '\r')
}

fn escapable(c: char) -> (yes: bool)
    ensures
        yes == rules::is_escapable(c),
{
    c == '\\' || c == '"' || c == '\''
}

fn punctuation(c: char) -> (token: Option<Token>)
    ensures
        token == rules::punctuation(c),
{
    match c {
        '+' => Some(Token::ADD),
        '-' => Some(Token::SUB),
        '*' => Some(Token::MUL),
        '/' => Some(Token::DIV),
        '%' => Some(Token::MOD),
        '!' => Some(Token::NOT),
        '&' => Some(Token::AND),
        '|' => Some(Token::OR),
        '(' => Some(Token::LPARENT),
        ')' => Some(Token::RPARENT),
        '[' => Some(Token::LBRACKET),
        ']' => Some(Token::RBRACKET),
        '{' => Some(Token::LBRACE),
        '}' => Some(Token::RBRACE),
        '.' => Some(Token::DOT),
        ',' => Some(Token::COMMA),
        ':' => Some(Token::COLON),
        ';' => Some(Token::SEMIC),
        _ => None,
    }
}

fn same_text(text: &String, word: &str) -> (same: bool)
    ensures
        same == (text@ == word@),
{
    let owned = word.to_owned();
    *text == owned
}

/// The kind of a reserved word, or nothing for any other word.
fn get_reserved_keyword(word: &String) -> (token: Option<Token>)
    ensures
        token == rules::reserved_word(word@),
{
    if same_text(word, "int") {
        Some(Token::INT)
    } else if same_text(word, "real") {
        Some(Token::REAL)
    } else if same_text(word, "bool") {
        Some(Token::BOOL)
    } else if same_text(word, "string") {
        Some(Token::STRING)
    } else if same_text(word, "arr") {
        Some(Token::ARR)
    } else if same_text(word, "else") {
        Some(Token::ELSE)
    } else if same_text(word, "for") {
        Some(Token::FOR)
    } else if same_text(word, "fun") {
        Some(Token::FUN)
    } else if same_text(word, "if") {
        Some(Token::IF)
    } else if same_text(word, "rec") {
        Some(Token::REC)
    } else if same_text(word, "then") {
        Some(Token::THEN)
    } else if same_text(word, "typ") {
        Some(Token::TYP)
    } else if same_text(word, "var") {
        Some(Token::VAR)
    } else if same_text(word, "where") {
        Some(Token::WHERE)
    } else if same_text(word, "while") {
        Some(Token::WHILE)
    } else if same_text(word, "true") {
        Some(Token::BOOLCONST)
    } else if same_text(word, "false") {
        Some(Token::BOOLCONST)
    } else {
        None
    }
}

/// The character at an offset of the source.
fn char_at(source: &Vec<u8>, offset: usize) -> (c: char)
    requires
        offset < source.len(),
    ensures
        c == chars_of(source@)[offset as int],
{
    source[offset] as char
}

/// The source text between two offsets.
fn lexeme_between(source: &Vec<u8>, start: usize, end: usize) -> (lexeme: String)
    requires
        start <= end <= source.len(),
    ensures
        lexeme@ == chars_of(source@).subrange(start as int, end as int),
{
    let mut lexeme = String::new();
    let mut i: usize = start;
    while i < end
        invariant
            start <= i <= end <= source.len(),
            lexeme@ == chars_of(source@).subrange(start as int, i as int),
        decreases end - i,
    {
        push_char(&mut lexeme, char_at(source, i));
        i += 1;
        assert(lexeme@ =~= chars_of(source@).subrange(start as int, i as int));
    }
    lexeme
}

fn find_word_end(source: &Vec<u8>, start: usize) -> (end: usize)
    requires
        start <= source.len(),
    ensures
        start <= end <= source.len(),
        end == rules::word_end(chars_of(source@), start as int),
{
    let mut end: usize = start;
    while end < source.len() && word_part(char_at(source, end))
        invariant
            start <= end <= source.len(),
            rules::word_end(chars_of(source@), start as int) == rules::word_end(
                chars_of(source@),
                end as int,
            ),
        decreases source.len() - end,
    {
        end += 1;
    }
    end
}

fn find_digits_end(source: &Vec<u8>, start: usize) -> (end: usize)
    requires
        start <= source.len(),
    ensures
        start <= end <= source.len(),
        end == rules::digits_end(chars_of(source@), start as int),
{
    let mut end: usize = start;
    while end < source.len() && digit(char_at(source, end))
        invariant
            start <= end <= source.len(),
            rules::digits_end(chars_of(source@), start as int) == rules::digits_end(
                chars_of(source@),
                end as int,
            ),
        decreases source.len() - end,
    {
        end += 1;
    }
    end
}

/// The operator or punctuation symbol that starts at an offset, with its
/// length. One character of lookahead tells `==`, `<>`, `<=` and `>=` from
/// `=`, `<` and `>`; no character is consumed for it.
fn find_operator(source: &Vec<u8>, offset: usize) -> (found: Option<(Token, usize)>)
    requires
        offset < source.len(),
    ensures
        match rules::operator_at(chars_of(source@), offset as int) {
            Some((token, n)) => found == Some((token, n as usize)) && 1 <= n <= 2 && offset + n
                <= source.len(),
            None => found is None,
        },
{
    let c = char_at(source, offset);
    let next = if offset + 1 < source.len() {
        Some(char_at(source, offset + 1))
    } else {
        None
    };
    match c {
        '=' => match next {
            Some('=') => Some((Token::EQU, 2)),
            _ => Some((Token::ASSIGN, 1)),
        },
        '<' => match next {
            Some('>') => Some((Token::NEQ, 2)),
            Some('=') => Some((Token::LEQ, 2)),
            _ => Some((Token::LTH, 1)),
        },
        '>' => match next {
            Some('=') => Some((Token::GEQ, 2)),
            _ => Some((Token::GTH, 1)),
        },
        _ => match punctuation(c) {
            Some(token) => Some((token, 1)),
            None => None,
        },
    }
}

/// Closes a numeric literal at `end`: a letter there is a fault.
fn close_number(source: &Vec<u8>, end: usize, fractional: bool) -> (number: Result<
    (Token, usize),
    (LexicalFault, usize),
>)
    requires
        end <= source.len(),
    ensures
        number == number_result(rules::number_closed(chars_of(source@), end as int, fractional)),
{
    if end < source.len() && alpha(char_at(source, end)) {
        Err((LexicalFault::LetterInNumber(char_at(source, end)), end))
    } else if fractional {
        Ok((Token::REALCONST, end))
    } else {
        Ok((Token::INTCONST, end))
    }
}

/// A numeric literal as the analyzer holds it: the kind and the end of a
/// well-formed literal, or the fault and the end of what was accepted.
pub open spec fn number_result(number: Number) -> Result<(Token, usize), (LexicalFault, usize)> {
    match number {
        Number::Int { end } => Ok((Token::INTCONST, end as usize)),
        Number::Real { end } => Ok((Token::REALCONST, end as usize)),
        Number::Fault { reason, end } => Err((reason, end as usize)),
    }
}

/// Reads the numeric literal that starts with the digit at `start`.
fn find_number(source: &Vec<u8>, start: usize) -> (number: Result<
    (Token, usize),
    (LexicalFault, usize),
>)
    requires
        start < source.len(),
        rules::is_digit(chars_of(source@)[start as int]),
    ensures
        number == number_result(rules::number_at(chars_of(source@), start as int)),
        start < rules::number_at(chars_of(source@), start as int).end() <= source.len(),
{
    let whole = find_digits_end(source, start);
    proof {
        rules::lemma_digits_end_bounds(chars_of(source@), start as int);
    }
    if whole < source.len() && char_at(source, whole) == '.' {
        let fraction = whole + 1;
        if !(fraction < source.len() && digit(char_at(source, fraction))) {
            Err((LexicalFault::DotWithoutDigit, fraction))
        } else {
            let mark = find_digits_end(source, fraction);
            if mark < source.len() && (char_at(source, mark) == 'e' || char_at(source, mark)
                == 'E') {
                let signed = mark + 1 < source.len() && (char_at(source, mark + 1) == '+'
                    || char_at(source, mark + 1) == '-');
                let exponent = if signed {
                    mark + 2
                } else {
                    mark + 1
                };
                if !(exponent < source.len() && digit(char_at(source, exponent))) {
                    Err((LexicalFault::ExponentWithoutDigit, exponent))
                } else {
                    let end = find_digits_end(source, exponent);
                    close_number(source, end, true)
                }
            } else {
                close_number(source, mark, true)
            }
        }
    } else {
        close_number(source, whole, false)
    }
}

/// The scanning state: the offset of the next character, and the line and
/// column that it stands at.
#[derive(Clone, Copy)]
struct Cursor {
    offset: usize,
    line: u64,
    column: u64,
}

impl View for Cursor {
    type V = Place;

    closed spec fn view(&self) -> Place {
        Place { offset: self.offset as int, line: self.line as nat, column: self.column as nat }
    }
}

/// What is said of a source that is too long.
pub open spec fn too_long(program_name: Seq<char>) -> Seq<char> {
    "Error while opening file: "@ + program_name + " is too long!"@
}

/// The columns of a source of this length can be counted in 64 bits
/// whatever it holds: a character takes at most four columns.
pub open spec fn countable(length: usize) -> bool {
    4 * length + 1 <= u64::MAX
}

impl Cursor {
    /// The cursor behind the character `c` that it stands at.
    fn after(self, c: char, length: usize) -> (next: Cursor)
        requires
            self@.bounded(),
            self.offset < length,
            countable(length),
        ensures
            next@ == self@.after(c),
            next@.bounded(),
            next.offset == self.offset + 1,
            self@.at_or_before(next@),
    {
        if c == '\n' {
            Cursor { offset: self.offset + 1, line: self.line + 1, column: 1 }
        } else if c == '\t' {
            Cursor { offset: self.offset + 1, line: self.line, column: self.column + 4 }
        } else if c == '\r' {
            Cursor { offset: self.offset + 1, line: self.line, column: self.column }
        } else {
            Cursor { offset: self.offset + 1, line: self.line, column: self.column + 1 }
        }
    }

    /// The cursor `n` characters further on the same line.
    fn right(self, n: usize, length: usize) -> (next: Cursor)
        requires
            self@.bounded(),
            self.offset + n <= length,
            countable(length),
        ensures
            next@ == self@.right(n as nat),
            next@.bounded(),
            next.offset == self.offset + n,
            self@.at_or_before(next@),
    {
        Cursor { offset: self.offset + n, line: self.line, column: self.column + n as u64 }
    }
}

/// The span from the character at `first` to the character at `last`.
fn get_literal_position(file_name: &Rc<String>, first: Cursor, last: Cursor) -> (position:
    Position)
    requires
        first@.at_or_before(last@),
    ensures
        position@ == first@.through((**file_name)@, last@),
{
    Position::new(file_name, first.line, first.column, last.line, last.column)
}

/// The span of the `n` characters from `first` on, all on one line.
fn get_run_position(file_name: &Rc<String>, first: Cursor, n: usize, length: usize) -> (position:
    Position)
    requires
        first@.bounded(),
        1 <= n,
        first.offset + n <= length,
        countable(length),
    ensures
        position@ == first@.run((**file_name)@, n as nat),
{
    let last = first.right(n - 1, length);
    get_literal_position(file_name, first, last)
}

/// Reads symbols from a source text, one at each call.
pub struct LexicalAnalyzer {
    file_name: Rc<String>,
    source: Vec<u8>,
    cursor: Cursor,
}

impl LexicalAnalyzer {
    #[verifier::type_invariant]
    spec fn well_formed(&self) -> bool {
        &&& countable(self.source.len())
        &&& self.cursor.offset <= self.source.len()
        &&& self.cursor@.bounded()
    }

    /// The name of the source file, which every span carries.
    pub closed spec fn file(&self) -> Seq<char> {
        (*self.file_name)@
    }

    /// The source text.
    pub closed spec fn text(&self) -> Seq<char> {
        chars_of(self.source@)
    }

    /// The place of the character that is read next.
    pub closed spec fn place(&self) -> Place {
        self.cursor@
    }

    /// The place of the analyzer is a place of a text.
    pub proof fn lemma_place(&self)
        ensures
            0 <= self.place().offset,
    {
    }

    /// An analyzer at the start of the given source text, which was read from
    /// the file of the given name. A text too long to count its columns in
    /// is refused.
    pub fn new(program_name: String, source: Vec<u8>) -> (result: Result<LexicalAnalyzer, String>)
        ensures
            match result {
                Ok(analyzer) => countable(source.len()) && analyzer.file() == program_name@
                    && analyzer.text() == chars_of(source@) && analyzer.place() == Place::start(),
                Err(message) => !countable(source.len()) && message@ == too_long(program_name@),
            },
    {
        if source.len() as u64 > 0x3fff_ffff_ffff_ffff {
            let mut message = String::new();
            push_text(&mut message, "Error while opening file: ");
            push_text(&mut message, program_name.as_str());
            push_text(&mut message, " is too long!");
            return Err(message);
        }
        Ok(
            LexicalAnalyzer {
                file_name: Rc::new(program_name),
                source,
                cursor: Cursor { offset: 0, line: 1, column: 1 },
            },
        )
    }

    /// The symbol for the word between `first` and the offset `end`: a
    /// reserved word, or else an identifier.
    fn get_symbol_type(&self, lexeme: String, first: Cursor, end: usize) -> (symbol: Symbol)
        requires
            first@.bounded(),
            first.offset < end <= self.source.len(),
            countable(self.source.len()),
        ensures
            symbol@.token == rules::word_token(lexeme@),
            symbol@.lexeme == lexeme@,
            symbol@.position == first@.run(self.file(), (end - first.offset) as nat),
    {
        let position = get_run_position(
            &self.file_name,
            first,
            end - first.offset,
            self.source.len(),
        );
        let token = match get_reserved_keyword(&lexeme) {
            Some(token) => token,
            None => Token::IDENTIFIER,
        };
        Symbol::new(token, lexeme, position).unwrap()
    }

    /// Reads the rest of the string literal whose opening quote stands at
    /// `open`.
    fn get_string(&self, open: Cursor) -> (result: Result<(Symbol, Cursor), LexicalError>)
        requires
            open@.bounded(),
            open.offset < self.source.len(),
            countable(self.source.len()),
        ensures
            match string_rest(
                self.file(),
                self.text(),
                open@,
                open@,
                open@.after('"'),
                Seq::empty(),
            ) {
                Scan::Symbol { symbol, after } => result matches Ok((s, cursor)) && s@ == symbol
                    && cursor@ == after && cursor@.bounded() && cursor.offset
                    <= self.source.len(),
                Scan::End { after } => false,
                Scan::Fault { fault } => result matches Err(error) && error@ == fault,
            },
    {
        let length = self.source.len();
        let mut content = String::new();
        let mut last = open;
        let mut cursor = open.after('"', length);
        loop
            invariant
                length == self.source.len(),
                countable(length),
                open@.bounded(),
                cursor@.bounded(),
                last@.bounded(),
                last.offset < cursor.offset <= length,
                open@.at_or_before(last@),
                last@.at_or_before(cursor@),
                string_rest(
                    self.file(),
                    self.text(),
                    open@,
                    open@,
                    open@.after('"'),
                    Seq::empty(),
                ) == string_rest(self.file(), self.text(), open@, last@, cursor@, content@),
            decreases length - cursor.offset,
        {
            if cursor.offset >= length {
                return Err(
                    LexicalError {
                        reason: LexicalFault::StringNotClosed,
                        position: get_literal_position(&self.file_name, open, last),
                    },
                );
            }
            let c = char_at(&self.source, cursor.offset);
            if c == '"' {
                let position = get_literal_position(&self.file_name, open, cursor);
                let symbol = Symbol::new(Token::STRINGCONST, content, position).unwrap();
                return Ok((symbol, cursor.after(c, length)));
            } else if c == '\\' {
                if cursor.offset + 1 < length && escapable(
                    char_at(&self.source, cursor.offset + 1),
                ) {
                    let escaped = char_at(&self.source, cursor.offset + 1);
                    push_char(&mut content, escaped);
                    last = cursor.after(c, length);
                    cursor = last.after(escaped, length);
                } else {
                    return Err(
                        LexicalError {
                            reason: LexicalFault::InvalidEscape,
                            position: get_literal_position(&self.file_name, open, cursor),
                        },
                    );
                }
            } else {
                if string_char(c) {
                    push_char(&mut content, c);
                }
                last = cursor;
                cursor = cursor.after(c, length);
            }
        }
    }

    /// Reads the symbol that starts at `first`, where a character stands
    /// that is neither blank nor the start of a comment.
    fn get_symbol(&self, first: Cursor) -> (result: Result<(Symbol, Cursor), LexicalError>)
        requires
            first@.bounded(),
            first.offset < self.source.len(),
            countable(self.source.len()),
        ensures
            match symbol_at(self.file(), self.text(), first@) {
                Scan::Symbol { symbol, after } => result matches Ok((s, cursor)) && s@ == symbol
                    && cursor@ == after && cursor@.bounded() && cursor.offset
                    <= self.source.len(),
                Scan::End { after } => false,
                Scan::Fault { fault } => result matches Err(error) && error@ == fault,
            },
    {
        let length = self.source.len();
        let c = char_at(&self.source, first.offset);
        match find_operator(&self.source, first.offset) {
            Some((token, n)) => {
                let lexeme = lexeme_between(&self.source, first.offset, first.offset + n);
                let position = get_run_position(&self.file_name, first, n, length);
                let symbol = Symbol::new(token, lexeme, position).unwrap();
                Ok((symbol, first.right(n, length)))
            },
            None => {
                if c == '"' {
                    self.get_string(first)
                } else if alpha(c) || c == '_' {
                    let end = find_word_end(&self.source, first.offset);
                    proof {
                        rules::lemma_word_end_bounds(self.text(), first.offset as int);
                    }
                    let lexeme = lexeme_between(&self.source, first.offset, end);
                    let symbol = self.get_symbol_type(lexeme, first, end);
                    Ok((symbol, first.right(end - first.offset, length)))
                } else if digit(c) {
                    match find_number(&self.source, first.offset) {
                        Ok((token, end)) => {
                            let lexeme = lexeme_between(&self.source, first.offset, end);
                            let position = get_run_position(
                                &self.file_name,
                                first,
                                end - first.offset,
                                length,
                            );
                            let symbol = Symbol::new(token, lexeme, position).unwrap();
                            Ok((symbol, first.right(end - first.offset, length)))
                        },
                        Err((reason, end)) => Err(
                            LexicalError {
                                reason,
                                position: get_run_position(
                                    &self.file_name,
                                    first,
                                    end - first.offset,
                                    length,
                                ),
                            },
                        ),
                    }
                } else {
                    Err(
                        LexicalError {
                            reason: LexicalFault::InvalidCharacter(c),
                            position: get_run_position(&self.file_name, first, 1, length),
                        },
                    )
                }
            },
        }
    }

    /// Reads the next symbol.
    ///
    /// Returns the symbol that [`scan`] finds at the analyzer's place and
    /// moves behind it; returns `None` at the end of the text; returns the
    /// fault if the text is malformed there, and then stays where it was.
    pub fn get_next_symbol(&mut self) -> (result: Result<Option<Symbol>, LexicalError>)
        ensures
            final(self).file() == old(self).file(),
            final(self).text() == old(self).text(),
            match scan(old(self).file(), old(self).text(), old(self).place()) {
                Scan::Symbol { symbol, after } => result matches Ok(Some(s)) && s@ == symbol
                    && final(self).place() == after,
                Scan::End { after } => result matches Ok(None) && final(self).place() == after,
                Scan::Fault { fault } => result matches Err(error) && error@ == fault
                    && final(self).place() == old(self).place(),
            },
    {
        proof {
            use_type_invariant(&*self);
        }
        let length = self.source.len();
        let mut cursor = self.cursor;
        let mut in_comment = false;
        loop
            invariant
                *self == *old(self),
                length == self.source.len(),
                countable(length),
                cursor@.bounded(),
                cursor.offset <= length,
                scan(self.file(), self.text(), self.place()) == (if in_comment {
                    scan_comment(self.file(), self.text(), cursor@)
                } else {
                    scan(self.file(), self.text(), cursor@)
                }),
            decreases length - cursor.offset,
        {
            if cursor.offset >= length {
                self.cursor = cursor;
                return Ok(None);
            }
            let c = char_at(&self.source, cursor.offset);
            if in_comment {
                if c == '\n' {
                    in_comment = false;
                    cursor = cursor.after(c, length);
                } else if comment_char(c) {
                    cursor = cursor.after(c, length);
                } else {
                    return Err(
                        LexicalError {
                            reason: LexicalFault::InvalidCommentCharacter(c),
                            position: get_run_position(&self.file_name, cursor, 1, length),
                        },
                    );
                }
            } else if blank(c) {
                cursor = cursor.after(c, length);
            } else if c == '#' {
                in_comment = true;
                cursor = cursor.after(c, length);
            } else {
                match self.get_symbol(cursor) {
                    Ok((symbol, after)) => {
                        self.cursor = after;
                        return Ok(Some(symbol));
                    },
                    Err(error) => {
                        return Err(error);
                    },
                }
            }
        }
    }
}

} // verus!
