//! Why an analysis failed.

use crate::lexanal::symbol::{Symbol, SymbolView};
use crate::lexanal::LexicalError;
use crate::synanal::grammar::Failure;
use crate::text::push_text;
use vstd::prelude::*;
use vstd::std_specs::convert::FromSpecImpl;

verus! {

/// A symbol that the grammar does not allow where it stands, or the end of
/// the symbols where the grammar wants one more.
#[derive(Debug)]
pub struct SymbolError {
    symbol: Option<Symbol>,
}

impl View for SymbolError {
    type V = Option<SymbolView>;

    closed spec fn view(&self) -> Option<SymbolView> {
        match self.symbol {
            Some(s) => Some(s@),
            None => None,
        }
    }
}

impl SymbolError {
    pub fn new(symbol: Option<Symbol>) -> (error: SymbolError)
        ensures
            error@ == (match symbol {
                Some(s) => Some(s@),
                None => None,
            }),
    {
        SymbolError { symbol }
    }

    /// The offending symbol; none at the end of the symbols.
    pub fn get_ref_symbol(&self) -> (symbol: Option<&Symbol>)
        ensures
            self@ == (match symbol {
                Some(s) => Some(s@),
                None => None,
            }),
    {
        self.symbol.as_ref()
    }
}

/// What is said of an offending symbol, or of the end of the symbols.
pub open spec fn symbol_description(symbol: Option<SymbolView>) -> Seq<char> {
    match symbol {
        Some(s) => "Invalid symbol "@ + s.lexeme + " in "@ + s.position.text() + "."@,
        None => "End of stream error!"@,
    }
}

/// The syntax error in short.
pub open spec fn symbol_text(symbol: Option<SymbolView>) -> Seq<char> {
    match symbol {
        Some(s) => "Symbol error:  "@ + s.token.name(),
        None => "Unexpected end of file."@,
    }
}

/// The error in short.
pub open spec fn failure_text(failure: Failure) -> Seq<char> {
    match failure {
        Failure::Unexpected(symbol) => "Syntax error: "@ + symbol_text(symbol),
        Failure::Lexical(error) => "Lexical error: "@ + error.text(),
    }
}

impl SymbolError {
    /// What is wrong, and where.
    pub fn description(&self) -> (description: String)
        ensures
            description@ == symbol_description(self@),
    {
        let mut description = String::new();
        match &self.symbol {
            Some(s) => {
                push_text(&mut description, "Invalid symbol ");
                push_text(&mut description, s.get_ref_lexeme());
                push_text(&mut description, " in ");
                push_text(&mut description, s.get_position().to_string().as_str());
                push_text(&mut description, ".");
            },
            None => {
                push_text(&mut description, "End of stream error!");
            },
        }
        assert(description@ =~= symbol_description(self@));
        description
    }

    /// The error in short.
    pub fn to_string(&self) -> (text: String)
        ensures
            text@ == symbol_text(self@),
    {
        let mut text = String::new();
        match &self.symbol {
            Some(s) => {
                push_text(&mut text, "Symbol error:  ");
                push_text(&mut text, s.get_token().get_name());
            },
            None => {
                push_text(&mut text, "Unexpected end of file.");
            },
        }
        assert(text@ =~= symbol_text(self@));
        text
    }
}

/// The first error of an analysis.
#[derive(Debug)]
pub enum ParseError {
    SyntaxError(SymbolError),
    LexicalError(LexicalError),
}

impl View for ParseError {
    type V = Failure;

    open spec fn view(&self) -> Failure {
        match self {
            ParseError::SyntaxError(error) => Failure::Unexpected(error@),
            ParseError::LexicalError(error) => Failure::Lexical(error@),
        }
    }
}

impl ParseError {
    /// The error in short.
    pub fn to_string(&self) -> (text: String)
        ensures
            text@ == failure_text(self@),
    {
        let mut text = String::new();
        match self {
            ParseError::SyntaxError(error) => {
                push_text(&mut text, "Syntax error: ");
                push_text(&mut text, error.to_string().as_str());
            },
            ParseError::LexicalError(error) => {
                push_text(&mut text, "Lexical error: ");
                push_text(&mut text, error.to_string().as_str());
            },
        }
        assert(text@ =~= failure_text(self@));
        text
    }
}

impl From<SymbolError> for ParseError {
    fn from(err: SymbolError) -> (error: ParseError) {
        ParseError::SyntaxError(err)
    }
}

impl FromSpecImpl<SymbolError> for ParseError {
    open spec fn obeys_from_spec() -> bool {
        true
    }

    open spec fn from_spec(err: SymbolError) -> ParseError {
        ParseError::SyntaxError(err)
    }
}

impl From<LexicalError> for ParseError {
    fn from(err: LexicalError) -> (error: ParseError) {
        ParseError::LexicalError(err)
    }
}

impl FromSpecImpl<LexicalError> for ParseError {
    open spec fn obeys_from_spec() -> bool {
        true
    }

    open spec fn from_spec(err: LexicalError) -> ParseError {
        ParseError::LexicalError(err)
    }
}

} // verus!
