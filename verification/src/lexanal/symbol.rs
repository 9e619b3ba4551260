//! Lexical symbols: a token kind, the lexeme it was read from, and the span
//! of source text it covers.

use crate::lexanal::position::{Position, Span};
use crate::text::{escaped, push_text, str_to_xml};
use crate::xml::XMLable;
use vstd::prelude::*;

verus! {

/// The kinds of lexical symbols.
#[derive(Debug, Clone, Copy, PartialEq, Eq, Structural)]
pub enum Token {
    IDENTIFIER,
    // constants
    INTCONST,
    REALCONST,
    BOOLCONST,
    STRINGCONST,
    // atomic types
    INT,
    REAL,
    BOOL,
    STRING,
    // arithmetic operators
    ADD,
    SUB,
    MUL,
    DIV,
    MOD,
    // logic operators
    NOT,
    AND,
    OR,
    // comparison operators
    EQU,
    NEQ,
    LTH,
    GTH,
    LEQ,
    GEQ,
    // assignment
    ASSIGN,
    // brackets
    LPARENT,
    RPARENT,
    LBRACKET,
    RBRACKET,
    LBRACE,
    RBRACE,
    // punctuation
    DOT,
    COMMA,
    COLON,
    SEMIC,
    // reserved words
    ARR,
    ELSE,
    FOR,
    FUN,
    IF,
    REC,
    THEN,
    TYP,
    VAR,
    WHERE,
    WHILE,
    /// End of input. No symbol ever carries this kind.
    EOF,
}

impl Token {
    /// The name of the kind.
    pub open spec fn name(self) -> Seq<char> {
        match self {
            Token::IDENTIFIER => "IDENTIFIER"@,
            Token::INTCONST => "INTCONST"@,
            Token::REALCONST => "REALCONST"@,
            Token::BOOLCONST => "BOOLCONST"@,
            Token::STRINGCONST => "STRINGCONST"@,
            Token::INT => "INT"@,
            Token::REAL => "REAL"@,
            Token::BOOL => "BOOL"@,
            Token::STRING => "STRING"@,
            Token::ADD => "ADD"@,
            Token::SUB => "SUB"@,
            Token::MUL => "MUL"@,
            Token::DIV => "DIV"@,
            Token::MOD => "MOD"@,
            Token::NOT => "NOT"@,
            Token::AND => "AND"@,
            Token::OR => "OR"@,
            Token::EQU => "EQU"@,
            Token::NEQ => "NEQ"@,
            Token::LTH => "LTH"@,
            Token::GTH => "GTH"@,
            Token::LEQ => "LEQ"@,
            Token::GEQ => "GEQ"@,
            Token::ASSIGN => "ASSIGN"@,
            Token::LPARENT => "LPARENT"@,
            Token::RPARENT => "RPARENT"@,
            Token::LBRACKET => "LBRACKET"@,
            Token::RBRACKET => "RBRACKET"@,
            Token::LBRACE => "LBRACE"@,
            Token::RBRACE => "RBRACE"@,
            Token::DOT => "DOT"@,
            Token::COMMA => "COMMA"@,
            Token::COLON => "COLON"@,
            Token::SEMIC => "SEMIC"@,
            Token::ARR => "ARR"@,
            Token::ELSE => "ELSE"@,
            Token::FOR => "FOR"@,
            Token::FUN => "FUN"@,
            Token::IF => "IF"@,
            Token::REC => "REC"@,
            Token::THEN => "THEN"@,
            Token::TYP => "TYP"@,
            Token::VAR => "VAR"@,
            Token::WHERE => "WHERE"@,
            Token::WHILE => "WHILE"@,
            Token::EOF => "EOF"@,
        }
    }

    /// Symbols of this kind differ in their lexemes.
    pub open spec fn has_lexeme(self) -> bool {
        self == Token::IDENTIFIER || self == Token::INTCONST || self == Token::REALCONST || self
            == Token::BOOLCONST || self == Token::STRINGCONST
    }

    pub fn get_name(self) -> (name: &'static str)
        ensures
            name@ == self.name(),
    {
        match self {
            Token::IDENTIFIER => "IDENTIFIER",
            Token::INTCONST => "INTCONST",
            Token::REALCONST => "REALCONST",
            Token::BOOLCONST => "BOOLCONST",
            Token::STRINGCONST => "STRINGCONST",
            Token::INT => "INT",
            Token::REAL => "REAL",
            Token::BOOL => "BOOL",
            Token::STRING => "STRING",
            Token::ADD => "ADD",
            Token::SUB => "SUB",
            Token::MUL => "MUL",
            Token::DIV => "DIV",
            Token::MOD => "MOD",
            Token::NOT => "NOT",
            Token::AND => "AND",
            Token::OR => "OR",
            Token::EQU => "EQU",
            Token::NEQ => "NEQ",
            Token::LTH => "LTH",
            Token::GTH => "GTH",
            Token::LEQ => "LEQ",
            Token::GEQ => "GEQ",
            Token::ASSIGN => "ASSIGN",
            Token::LPARENT => "LPARENT",
            Token::RPARENT => "RPARENT",
            Token::LBRACKET => "LBRACKET",
            Token::RBRACKET => "RBRACKET",
            Token::LBRACE => "LBRACE",
            Token::RBRACE => "RBRACE",
            Token::DOT => "DOT",
            Token::COMMA => "COMMA",
            Token::COLON => "COLON",
            Token::SEMIC => "SEMIC",
            Token::ARR => "ARR",
            Token::ELSE => "ELSE",
            Token::FOR => "FOR",
            Token::FUN => "FUN",
            Token::IF => "IF",
            Token::REC => "REC",
            Token::THEN => "THEN",
            Token::TYP => "TYP",
            Token::VAR => "VAR",
            Token::WHERE => "WHERE",
            Token::WHILE => "WHILE",
            Token::EOF => "EOF",
        }
    }
}

/// The mathematical model of a [`Symbol`].
pub struct SymbolView {
    pub token: Token,
    pub lexeme: Seq<char>,
    pub position: Span,
}

impl SymbolView {
    /// The symbol as an XML element: its kind, its lexeme where the kind has
    /// more than one, and its span.
    pub open spec fn xml(self) -> Seq<char> {
        if self.token == Token::EOF {
            Seq::empty()
        } else if self.token.has_lexeme() {
            "<symbol token=\""@ + self.token.name() + "\"  lexeme=\""@ + escaped(self.lexeme)
                + "\">\n"@ + self.position.xml() + "</symbol>\n"@
        } else {
            "<symbol token=\""@ + self.token.name() + "\">\n"@ + self.position.xml()
                + "</symbol>\n"@
        }
    }
}

/// One classified lexical unit. Its kind is never the end of input, which is
/// represented by the absence of a symbol.
#[derive(Debug)]
pub struct Symbol {
    token: Token,
    lexeme: String,
    position: Position,
}

impl View for Symbol {
    type V = SymbolView;

    closed spec fn view(&self) -> SymbolView {
        SymbolView { token: self.token, lexeme: self.lexeme@, position: self.position@ }
    }
}

impl Symbol {
    #[verifier::type_invariant]
    spec fn well_formed(&self) -> bool {
        self.token != Token::EOF
    }

    /// A symbol of the given kind, or nothing for the end of input, which is
    /// represented by the absence of a symbol.
    pub fn new(token: Token, lexeme: String, position: Position) -> (symbol: Option<Symbol>)
        ensures
            token == Token::EOF ==> symbol is None,
            token != Token::EOF ==> (symbol matches Some(s) && s@ == (SymbolView {
                token,
                lexeme: lexeme@,
                position: position@,
            })),
    {
        match token {
            Token::EOF => None,
            _ => Some(Symbol { token, lexeme, position }),
        }
    }

    pub fn get_token(&self) -> (token: Token)
        ensures
            token == self@.token,
            token != Token::EOF,
    {
        proof {
            use_type_invariant(self);
        }
        self.token
    }

    pub fn get_ref_position(&self) -> (position: &Position)
        ensures
            position@ == self@.position,
    {
        &self.position
    }

    pub fn is_token(&self, token: Token) -> (same: bool)
        ensures
            same == (self@.token == token),
    {
        self.token == token
    }

    pub fn get_ref_lexeme(&self) -> (lexeme: &str)
        ensures
            lexeme@ == self@.lexeme,
    {
        self.lexeme.as_str()
    }

    pub fn get_position(&self) -> (position: &Position)
        ensures
            position@ == self@.position,
    {
        &self.position
    }

    /// The symbol as it stands in the source: its lexeme.
    pub fn to_string(&self) -> (text: String)
        ensures
            text@ == self@.lexeme,
    {
        self.lexeme.clone()
    }
}

impl XMLable for Symbol {
    open spec fn xml(&self) -> Seq<char> {
        self@.xml()
    }

    fn to_xml(&self, xml: &mut String) {
        proof {
            use_type_invariant(self);
        }
        let mut element = String::new();
        push_text(&mut element, "<symbol token=\"");
        push_text(&mut element, self.token.get_name());
        if self.token == Token::IDENTIFIER || self.token == Token::INTCONST || self.token
            == Token::REALCONST || self.token == Token::BOOLCONST || self.token
            == Token::STRINGCONST {
            push_text(&mut element, "\"  lexeme=\"");
            let lexeme = str_to_xml(self.lexeme.as_str());
            push_text(&mut element, lexeme.as_str());
        }
        push_text(&mut element, "\">\n");
        self.position.to_xml(&mut element);
        push_text(&mut element, "</symbol>\n");
        assert(element@ =~= self.xml());
        push_text(xml, element.as_str());
    }
}

} // verus!
