use proteus::lexanal::rules::LexicalFault;
use proteus::lexanal::symbol::Token;
use proteus::lexanal::{LexicalAnalyzer, LexicalError};

type Seen = (Token, String, (u64, u64), (u64, u64));

fn lexer(text: &str) -> LexicalAnalyzer {
    LexicalAnalyzer::new("test".to_string(), text.as_bytes().to_vec()).unwrap()
}

fn next(lex: &mut LexicalAnalyzer) -> Result<Option<Seen>, LexicalError> {
    lex.get_next_symbol().map(|found| {
        found.map(|symbol| {
            let position = symbol.get_ref_position();
            (
                symbol.get_token(),
                symbol.get_ref_lexeme().to_string(),
                (position.begin_line(), position.begin_column()),
                (position.end_line(), position.end_column()),
            )
        })
    })
}

fn all(text: &str) -> Vec<Seen> {
    let mut lex = lexer(text);
    let mut seen = Vec::new();
    while let Some(symbol) = next(&mut lex).unwrap() {
        seen.push(symbol);
    }
    seen
}

fn kinds(text: &str) -> Vec<(Token, String)> {
    all(text).into_iter().map(|s| (s.0, s.1)).collect()
}

fn fault(text: &[u8]) -> (LexicalFault, (u64, u64), (u64, u64)) {
    let mut lex = LexicalAnalyzer::new("test".to_string(), text.to_vec()).unwrap();
    loop {
        match lex.get_next_symbol() {
            Ok(Some(_)) => {},
            Ok(None) => panic!("no fault"),
            Err(error) => {
                let p = &error.position;
                return (
                    error.reason,
                    (p.begin_line(), p.begin_column()),
                    (p.end_line(), p.end_column()),
                );
            },
        }
    }
}

fn one(token: Token, lexeme: &str, column: u64) -> Seen {
    (token, lexeme.to_string(), (1, column), (1, column + lexeme.len() as u64 - 1))
}

#[test]
fn fortune_is_one_identifier() {
    let mut lex = lexer("fortune");
    let symbol = lex.get_next_symbol().unwrap().unwrap();
    assert_eq!(symbol.get_token(), Token::IDENTIFIER);
    assert_eq!(symbol.get_ref_lexeme(), "fortune");
    assert_eq!(symbol.get_ref_position().begin_column(), 1);
    assert_eq!(symbol.get_ref_position().end_column(), 7);
    assert_eq!(symbol.get_ref_position().filename(), "test");
    assert!(lex.get_next_symbol().unwrap().is_none());
}

#[test]
fn words_next_to_reserved_words_are_identifiers() {
    assert_eq!(
        all("for fortune for9 _for"),
        vec![
            one(Token::FOR, "for", 1),
            one(Token::IDENTIFIER, "fortune", 5),
            one(Token::IDENTIFIER, "for9", 13),
            one(Token::IDENTIFIER, "_for", 18),
        ]
    );
}

#[test]
fn reserved_words() {
    let expected = [
        ("int", Token::INT),
        ("real", Token::REAL),
        ("bool", Token::BOOL),
        ("string", Token::STRING),
        ("arr", Token::ARR),
        ("else", Token::ELSE),
        ("for", Token::FOR),
        ("fun", Token::FUN),
        ("if", Token::IF),
        ("rec", Token::REC),
        ("then", Token::THEN),
        ("typ", Token::TYP),
        ("var", Token::VAR),
        ("where", Token::WHERE),
        ("while", Token::WHILE),
        ("true", Token::BOOLCONST),
        ("false", Token::BOOLCONST),
        ("True", Token::IDENTIFIER),
        ("integer", Token::IDENTIFIER),
    ];
    for (word, token) in expected {
        assert_eq!(kinds(word), vec![(token, word.to_string())]);
    }
}

#[test]
fn dot_must_be_followed_by_digit() {
    assert_eq!(fault(b"3."), (LexicalFault::DotWithoutDigit, (1, 1), (1, 2)));
    assert_eq!(fault(b"3.x"), (LexicalFault::DotWithoutDigit, (1, 1), (1, 2)));
}

#[test]
fn real_literal_with_exponent_is_one_symbol() {
    assert_eq!(all("3.14e-2"), vec![one(Token::REALCONST, "3.14e-2", 1)]);
    assert_eq!(all("3.14e-2").len(), 1);
    assert_eq!(all("3.14e-2")[0].3, (1, 7));
}

#[test]
fn numeric_literals() {
    assert_eq!(all("12"), vec![one(Token::INTCONST, "12", 1)]);
    assert_eq!(all("1.5"), vec![one(Token::REALCONST, "1.5", 1)]);
    assert_eq!(all("1.5e10"), vec![one(Token::REALCONST, "1.5e10", 1)]);
    assert_eq!(all("1.5E+3"), vec![one(Token::REALCONST, "1.5E+3", 1)]);
    assert_eq!(
        all("1.2.3"),
        vec![one(Token::REALCONST, "1.2", 1), one(Token::DOT, ".", 4), one(Token::INTCONST, "3", 5)]
    );
    assert_eq!(all("12_"), vec![one(Token::INTCONST, "12", 1), one(Token::IDENTIFIER, "_", 3)]);
    assert_eq!(all("7+"), vec![one(Token::INTCONST, "7", 1), one(Token::ADD, "+", 2)]);
}

#[test]
fn malformed_numeric_literals() {
    assert_eq!(fault(b"1.5e"), (LexicalFault::ExponentWithoutDigit, (1, 1), (1, 4)));
    assert_eq!(fault(b"1.5e+"), (LexicalFault::ExponentWithoutDigit, (1, 1), (1, 5)));
    assert_eq!(fault(b"1.5e+x"), (LexicalFault::ExponentWithoutDigit, (1, 1), (1, 5)));
    assert_eq!(fault(b"12a"), (LexicalFault::LetterInNumber('a'), (1, 1), (1, 2)));
    assert_eq!(fault(b"1e5"), (LexicalFault::LetterInNumber('e'), (1, 1), (1, 1)));
    assert_eq!(fault(b"1.5x"), (LexicalFault::LetterInNumber('x'), (1, 1), (1, 3)));
    assert_eq!(fault(b"1.5e3e"), (LexicalFault::LetterInNumber('e'), (1, 1), (1, 5)));
    assert_eq!(fault(b"  12a"), (LexicalFault::LetterInNumber('a'), (1, 3), (1, 4)));
}

#[test]
fn unterminated_string_is_reported_at_the_end_of_input() {
    assert_eq!(fault(b"\"abc"), (LexicalFault::StringNotClosed, (1, 1), (1, 4)));
    assert_eq!(fault(b"\""), (LexicalFault::StringNotClosed, (1, 1), (1, 1)));
    assert_eq!(fault(b"x \"a\nb"), (LexicalFault::StringNotClosed, (1, 3), (2, 1)));
}

#[test]
fn fault_leaves_the_analyzer_where_it_was() {
    let mut lex = lexer("a \"abc");
    assert_eq!(next(&mut lex).unwrap(), Some(one(Token::IDENTIFIER, "a", 1)));
    let first = lex.get_next_symbol().unwrap_err();
    let second = lex.get_next_symbol().unwrap_err();
    assert_eq!(first.reason, LexicalFault::StringNotClosed);
    assert_eq!(second.reason, LexicalFault::StringNotClosed);
    assert_eq!(first.position, second.position);
}

#[test]
fn string_literals() {
    assert_eq!(
        all("\"ab c\""),
        vec![(Token::STRINGCONST, "ab c".to_string(), (1, 1), (1, 6))]
    );
    assert_eq!(all("\"\""), vec![(Token::STRINGCONST, String::new(), (1, 1), (1, 2))]);
    assert_eq!(
        all("\"a\\\"b\\\\c\\'d\""),
        vec![(Token::STRINGCONST, "a\"b\\c'd".to_string(), (1, 1), (1, 12))]
    );
    // Characters that are neither letters, digits nor whitespace are dropped.
    assert_eq!(
        all("\"a+b.\" x"),
        vec![(Token::STRINGCONST, "ab".to_string(), (1, 1), (1, 6)), one(Token::IDENTIFIER, "x", 8)]
    );
    // A literal may run over several lines.
    assert_eq!(
        all("\"a\nb\" x"),
        vec![
            (Token::STRINGCONST, "a\nb".to_string(), (1, 1), (2, 2)),
            (Token::IDENTIFIER, "x".to_string(), (2, 4), (2, 4)),
        ]
    );
}

#[test]
fn invalid_escape() {
    assert_eq!(fault(b"\"a\\n\""), (LexicalFault::InvalidEscape, (1, 1), (1, 3)));
    assert_eq!(fault(b"\"a\\"), (LexicalFault::InvalidEscape, (1, 1), (1, 3)));
}

#[test]
fn operators_and_punctuation() {
    let text = "= == < <= <> > >= + - * / % ! & | ( ) [ ] { } . , : ;";
    let expected = [
        Token::ASSIGN,
        Token::EQU,
        Token::LTH,
        Token::LEQ,
        Token::NEQ,
        Token::GTH,
        Token::GEQ,
        Token::ADD,
        Token::SUB,
        Token::MUL,
        Token::DIV,
        Token::MOD,
        Token::NOT,
        Token::AND,
        Token::OR,
        Token::LPARENT,
        Token::RPARENT,
        Token::LBRACKET,
        Token::RBRACKET,
        Token::LBRACE,
        Token::RBRACE,
        Token::DOT,
        Token::COMMA,
        Token::COLON,
        Token::SEMIC,
    ];
    let seen = kinds(text);
    let words: Vec<&str> = text.split(' ').collect();
    assert_eq!(seen.len(), expected.len());
    for i in 0..expected.len() {
        assert_eq!(seen[i], (expected[i], words[i].to_string()));
    }
}

#[test]
fn lookahead_character_is_not_consumed() {
    assert_eq!(all("=x"), vec![one(Token::ASSIGN, "=", 1), one(Token::IDENTIFIER, "x", 2)]);
    assert_eq!(all("<x"), vec![one(Token::LTH, "<", 1), one(Token::IDENTIFIER, "x", 2)]);
    assert_eq!(all(">x"), vec![one(Token::GTH, ">", 1), one(Token::IDENTIFIER, "x", 2)]);
    assert_eq!(all("<>="), vec![one(Token::NEQ, "<>", 1), one(Token::ASSIGN, "=", 3)]);
    assert_eq!(all("==="), vec![one(Token::EQU, "==", 1), one(Token::ASSIGN, "=", 3)]);
    assert_eq!(all("="), vec![one(Token::ASSIGN, "=", 1)]);
    assert_eq!(all("ab+"), vec![one(Token::IDENTIFIER, "ab", 1), one(Token::ADD, "+", 3)]);
}

#[test]
fn blanks_move_the_column() {
    // A space takes one column, a tab four, a carriage return none.
    assert_eq!(all(" \tx"), vec![one(Token::IDENTIFIER, "x", 6)]);
    assert_eq!(all("a\r b"), vec![one(Token::IDENTIFIER, "a", 1), one(Token::IDENTIFIER, "b", 3)]);
    assert_eq!(
        all("a\tb c"),
        vec![
            one(Token::IDENTIFIER, "a", 1),
            one(Token::IDENTIFIER, "b", 6),
            one(Token::IDENTIFIER, "c", 8),
        ]
    );
}

#[test]
fn newline_starts_a_line_at_column_one() {
    assert_eq!(
        all("a\r\n  b\n\nc"),
        vec![
            (Token::IDENTIFIER, "a".to_string(), (1, 1), (1, 1)),
            (Token::IDENTIFIER, "b".to_string(), (2, 3), (2, 3)),
            (Token::IDENTIFIER, "c".to_string(), (4, 1), (4, 1)),
        ]
    );
}

#[test]
fn comments_run_to_the_end_of_the_line() {
    assert_eq!(
        all("a # b + c\nd"),
        vec![
            (Token::IDENTIFIER, "a".to_string(), (1, 1), (1, 1)),
            (Token::IDENTIFIER, "d".to_string(), (2, 1), (2, 1)),
        ]
    );
    assert_eq!(all("a # to the end"), vec![one(Token::IDENTIFIER, "a", 1)]);
    assert_eq!(all("# one\r\n# two\n"), vec![]);
}

#[test]
fn control_character_in_comment() {
    assert_eq!(
        fault(b"# bad \t tab"),
        (LexicalFault::InvalidCommentCharacter('\t'), (1, 7), (1, 7))
    );
    assert_eq!(
        fault(b"#\xe9"),
        (LexicalFault::InvalidCommentCharacter('\u{e9}'), (1, 2), (1, 2))
    );
    assert_eq!(
        fault(b"x\n#\x7f"),
        (LexicalFault::InvalidCommentCharacter('\u{7f}'), (2, 2), (2, 2))
    );
}

#[test]
fn invalid_characters() {
    assert_eq!(fault(b"$"), (LexicalFault::InvalidCharacter('$'), (1, 1), (1, 1)));
    assert_eq!(fault(b"a @"), (LexicalFault::InvalidCharacter('@'), (1, 3), (1, 3)));
    assert_eq!(fault(b"\xe9"), (LexicalFault::InvalidCharacter('\u{e9}'), (1, 1), (1, 1)));
    assert_eq!(fault(b"\x0c"), (LexicalFault::InvalidCharacter('\u{c}'), (1, 1), (1, 1)));
    assert_eq!(fault(b"'"), (LexicalFault::InvalidCharacter('\''), (1, 1), (1, 1)));
}

#[test]
fn end_of_input_is_no_symbol() {
    let mut lex = lexer("");
    assert!(lex.get_next_symbol().unwrap().is_none());
    assert!(lex.get_next_symbol().unwrap().is_none());
    let mut lex = lexer("  \t\r\n ");
    assert!(lex.get_next_symbol().unwrap().is_none());
    let mut lex = lexer("x");
    assert!(lex.get_next_symbol().unwrap().is_some());
    assert!(lex.get_next_symbol().unwrap().is_none());
    assert!(lex.get_next_symbol().unwrap().is_none());
}
