use proteus::lexanal::position::Position;
use proteus::lexanal::rules::LexicalFault;
use proteus::lexanal::symbol::{Symbol, Token};
use proteus::lexanal::{fault_message, LexicalError};
use proteus::report::{error, error_at_position, warning, warning_at_position, ExitCode};
use proteus::synanal::parse_error::{ParseError, SymbolError};
use proteus::text::str_to_xml;
use proteus::xml::XMLable;
use std::rc::Rc;

fn position(bl: u64, bc: u64, el: u64, ec: u64) -> Position {
    Position::new(&Rc::new("f.src".to_string()), bl, bc, el, ec)
}

fn symbol(token: Token, lexeme: &str) -> Symbol {
    Symbol::new(token, lexeme.to_string(), position(3, 4, 3, 9)).unwrap()
}

#[test]
fn position_in_words() {
    assert_eq!(position(12, 3, 12, 40).get_description(), "filename: f.src, line 12 column 3");
    assert_eq!(position(12, 3, 12, 40).to_string(), "[f.src: 12.3-12.40]");
    assert_eq!(position(0, 0, 0, 0).to_string(), "[f.src: 0.0-0.0]");
    assert_eq!(
        position(1, 10, u64::MAX, 109).to_string(),
        "[f.src: 1.10-18446744073709551615.109]"
    );
}

#[test]
fn position_as_xml() {
    let mut xml = String::from(">");
    position(1, 2, 30, 4).to_xml(&mut xml);
    assert_eq!(
        xml,
        "><position filename=\"f.src\" begLine=\"1\" begColumn=\"2\" endLine=\"30\" endColumn=\"4\"/> \n"
    );
}

#[test]
fn position_keeps_the_name_it_was_given() {
    let name = Rc::new("shared".to_string());
    let first = Position::new(&name, 1, 1, 1, 1);
    let copy = first.clone();
    assert_eq!(first.filename(), "shared");
    assert_eq!(copy.filename(), "shared");
    assert_eq!(copy, first);
}

#[test]
fn reserved_characters_are_escaped() {
    assert_eq!(str_to_xml("a<b>&'\"c"), "a&#60;b&#62;&#38;&#39;&#34;c");
    assert_eq!(str_to_xml(""), "");
    assert_eq!(str_to_xml("plain text 1"), "plain text 1");
    assert_eq!(str_to_xml("\u{e9}<"), "\u{e9}&#60;");
}

#[test]
fn symbol_as_xml() {
    let mut xml = String::new();
    symbol(Token::IDENTIFIER, "a<b").to_xml(&mut xml);
    assert_eq!(
        xml,
        "<symbol token=\"IDENTIFIER\"  lexeme=\"a&#60;b\">\n\
<position filename=\"f.src\" begLine=\"3\" begColumn=\"4\" endLine=\"3\" endColumn=\"9\"/> \n\
</symbol>\n"
    );
    let mut xml = String::new();
    symbol(Token::WHILE, "while").to_xml(&mut xml);
    assert_eq!(
        xml,
        "<symbol token=\"WHILE\">\n\
<position filename=\"f.src\" begLine=\"3\" begColumn=\"4\" endLine=\"3\" endColumn=\"9\"/> \n\
</symbol>\n"
    );
    for token in [Token::INTCONST, Token::REALCONST, Token::BOOLCONST, Token::STRINGCONST] {
        let mut xml = String::new();
        symbol(token, "v").to_xml(&mut xml);
        assert!(xml.contains("  lexeme=\"v\">"));
    }
}

#[test]
fn symbol_accessors() {
    let s = symbol(Token::ADD, "+");
    assert_eq!(s.get_token(), Token::ADD);
    assert!(s.is_token(Token::ADD));
    assert!(!s.is_token(Token::SUB));
    assert_eq!(s.get_ref_lexeme(), "+");
    assert_eq!(s.to_string(), "+");
    assert_eq!(s.get_position(), &position(3, 4, 3, 9));
    assert_eq!(s.get_ref_position(), &position(3, 4, 3, 9));
    assert_eq!(Token::LBRACKET.get_name(), "LBRACKET");
    assert_eq!(Token::EOF.get_name(), "EOF");
}

#[test]
fn report_lines() {
    assert_eq!(warning("careful"), ":-o careful");
    assert_eq!(warning_at_position("careful", &position(1, 2, 3, 4)), ":-o [f.src: 1.2-3.4] careful");
    assert_eq!(
        error("bad", ExitCode::LexicalAnalyzerIlegallChar),
        ":-( bad  ExitCode: LexicalAnalyzerIlegallChar\n"
    );
    assert_eq!(
        error_at_position("bad", &position(1, 2, 3, 4), ExitCode::SyntaxAnalyzerSyntaxError),
        ":-( bad SyntaxAnalyzerSyntaxError\n [f.src: 1.2-3.4]"
    );
    assert_eq!(
        ExitCode::SyntaxAnalyzerUnexpectedEndOfStream.to_string(),
        "SyntaxAnalyzerUnexpectedEndOfStream\n"
    );
    assert_eq!(
        ExitCode::AbstractSyntaxTreeInvalidExpression.to_string(),
        "AbstractSyntaxTreeInvalidExpression\n"
    );
}

#[test]
fn lexical_faults_in_words() {
    assert_eq!(
        fault_message(LexicalFault::InvalidCharacter('$')),
        "Invalid character $ (ascii: 36)"
    );
    assert_eq!(
        fault_message(LexicalFault::InvalidCommentCharacter('\u{7f}')),
        "Invalid character '\u{7f}' (ascii: 127) in comment"
    );
    assert_eq!(
        fault_message(LexicalFault::DotWithoutDigit),
        "Error while parsing REALCONST. Dot (.) must be followed by at least one digit!"
    );
    assert_eq!(
        fault_message(LexicalFault::ExponentWithoutDigit),
        "Error while parsing REALCONST. Exponent must hold at least one digit!"
    );
    assert_eq!(
        fault_message(LexicalFault::LetterInNumber('x')),
        "Error while parsing a numeric constant: illegal character x!"
    );
    assert_eq!(
        fault_message(LexicalFault::StringNotClosed),
        "Error: End of file occurred, but string not closed!"
    );
    assert_eq!(fault_message(LexicalFault::InvalidEscape), "Error: String escape!");
    let error = LexicalError { reason: LexicalFault::InvalidEscape, position: position(1, 1, 1, 3) };
    assert_eq!(error.to_string(), "Error: String escape! [f.src: 1.1-1.3]");
}

#[test]
fn syntax_errors_in_words() {
    let end = SymbolError::new(None);
    assert!(end.get_ref_symbol().is_none());
    assert_eq!(end.description(), "End of stream error!");
    assert_eq!(end.to_string(), "Unexpected end of file.");
    let wrong = SymbolError::new(Some(symbol(Token::IDENTIFIER, "x")));
    assert_eq!(wrong.get_ref_symbol().unwrap().get_ref_lexeme(), "x");
    assert_eq!(wrong.description(), "Invalid symbol x in [f.src: 3.4-3.9].");
    assert_eq!(wrong.to_string(), "Symbol error:  IDENTIFIER");
    assert_eq!(ParseError::from(wrong).to_string(), "Syntax error: Symbol error:  IDENTIFIER");
    assert_eq!(
        ParseError::SyntaxError(SymbolError::new(None)).to_string(),
        "Syntax error: Unexpected end of file."
    );
    let lexical = LexicalError { reason: LexicalFault::StringNotClosed, position: position(2, 1, 2, 5) };
    assert_eq!(
        ParseError::from(lexical).to_string(),
        "Lexical error: Error: End of file occurred, but string not closed! [f.src: 2.1-2.5]"
    );
}

#[test]
fn extending_a_position() {
    let mut p = position(3, 5, 3, 9);
    p.set_min(&position(3, 7, 8, 1));
    assert_eq!(p, position(3, 5, 3, 9));
    p.set_min(&position(3, 4, 3, 4));
    assert_eq!(p, position(3, 4, 3, 9));
    p.set_min(&position(2, 80, 2, 80));
    assert_eq!(p, position(2, 80, 3, 9));
    p.set_max(&position(1, 1, 3, 9));
    assert_eq!(p, position(2, 80, 3, 9));
    p.set_max(&position(1, 1, 3, 10));
    assert_eq!(p, position(2, 80, 3, 10));
    p.set_max(&position(1, 1, 4, 1));
    assert_eq!(p, position(2, 80, 4, 1));
}
