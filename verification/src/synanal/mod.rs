//! Syntax analysis: a recursive-descent analyzer with one symbol of
//! lookahead, which builds the tree that the grammar derives from the symbols
//! of a source text.
//!
//! There is one method for each production of the grammar, and each is held
//! against its production: it makes the node that the production derives and
//! leaves the symbols that the production leaves, or fails as the production
//! fails. Each method is verified by a prover of its own, which keeps the
//! definitions that one proof unfolds out of the way of the others.

pub mod grammar;
pub mod parse_error;
pub mod progress;

use crate::abstree::abs_decl::{AbsDecl, AbsDecls, AbsFunDecl, AbsTypeDecl, AbsVarDecl};
use crate::abstree::abs_expr::{
    AbsAtomExpr, AbsBinExpr, AbsBinOper, AbsExpr, AbsExprName, AbsExprs, AbsFunCall, AbsUnExpr,
    AbsUnOper, AbsWhereExpr,
};
use crate::abstree::abs_stmt::{AbsAssignStmt, AbsForStmt, AbsIfStmt, AbsStmt, AbsWhileStmt};
use crate::abstree::abs_type::{
    AbsArrType, AbsAtomType, AbsPointerType, AbsRecType, AbsType, AbsTypeName, AtomType,
};
use crate::abstree::tree::{all_positioned, all_well_spanned, Tree};
use crate::lexanal::rules::lemma_scan_advances;
use crate::lexanal::symbol::{Symbol, SymbolView, Token};
use crate::lexanal::LexicalAnalyzer;
use crate::synanal::grammar::{symbols_from, Item, Parsed, Program};
use crate::synanal::parse_error::{ParseError, SymbolError};
use vstd::prelude::*;

verus! {

/// The models of a list of nodes.
pub open spec fn trees_of<N: View<V = Tree>>(nodes: Seq<N>) -> Seq<Tree> {
    Seq::new(nodes.len(), |i: int| nodes[i]@)
}

/// The analyzer did what the grammar says: it made the node that the
/// production derives and left the rest of the symbols, or it failed as the
/// production fails. A node that it made is well spanned and has spans
/// through and through.
pub open spec fn agrees<N: View<V = Tree>>(
    result: Result<N, ParseError>,
    left: Seq<Item>,
    expected: Parsed<Tree>,
) -> bool {
    match expected {
        Parsed::Done { value, rest } => {
            &&& match result {
                Ok(made) => made@ == value,
                Err(error) => false,
            }
            &&& left == rest
            &&& value.well_spanned()
            &&& value.positioned()
        },
        Parsed::Failed(failure) => match result {
            Ok(made) => false,
            Err(error) => error@ == failure,
        },
    }
}

/// As [`agrees`], for a production that derives a list of nodes.
pub open spec fn agrees_on_list<N: View<V = Tree>>(
    result: Result<Vec<N>, ParseError>,
    left: Seq<Item>,
    expected: Parsed<Seq<Tree>>,
) -> bool {
    match expected {
        Parsed::Done { value, rest } => {
            &&& match result {
                Ok(made) => trees_of(made@) == value,
                Err(error) => false,
            }
            &&& left == rest
            &&& all_well_spanned(value)
            &&& all_positioned(value)
        },
        Parsed::Failed(failure) => match result {
            Ok(made) => false,
            Err(error) => error@ == failure,
        },
    }
}

/// As [`agrees`], for the taking of one symbol.
pub open spec fn agrees_on_symbol(
    result: Result<Symbol, ParseError>,
    left: Seq<Item>,
    expected: Parsed<SymbolView>,
) -> bool {
    match expected {
        Parsed::Done { value, rest } => {
            &&& match result {
                Ok(symbol) => symbol@ == value,
                Err(error) => false,
            }
            &&& left == rest
        },
        Parsed::Failed(failure) => match result {
            Ok(symbol) => false,
            Err(error) => error@ == failure,
        },
    }
}

/// A production that goes on with a list gives up none of its members.
pub open spec fn keeps(expected: Parsed<Seq<Tree>>, members: Seq<Tree>) -> bool {
    match expected {
        Parsed::Done { value, rest } => members.len() <= value.len(),
        Parsed::Failed(failure) => true,
    }
}

/// A production that came to a value took at least one symbol.
pub open spec fn shorter<T>(expected: Parsed<T>, before: Seq<Item>) -> bool {
    match expected {
        Parsed::Done { value, rest } => rest.len() < before.len(),
        Parsed::Failed(failure) => true,
    }
}

/// A production that came to a value put no symbol back.
pub open spec fn no_longer<T>(expected: Parsed<T>, before: Seq<Item>) -> bool {
    match expected {
        Parsed::Done { value, rest } => rest.len() <= before.len(),
        Parsed::Failed(failure) => true,
    }
}

fn disjunction(token: Option<Token>) -> (operation: Option<AbsBinOper>)
    ensures
        operation == grammar::disjunction(token),
{
    match token {
        Some(Token::OR) => Some(AbsBinOper::OR),
        _ => None,
    }
}

fn conjunction(token: Option<Token>) -> (operation: Option<AbsBinOper>)
    ensures
        operation == grammar::conjunction(token),
{
    match token {
        Some(Token::AND) => Some(AbsBinOper::AND),
        _ => None,
    }
}

fn comparison(token: Option<Token>) -> (operation: Option<AbsBinOper>)
    ensures
        operation == grammar::comparison(token),
{
    match token {
        Some(Token::EQU) => Some(AbsBinOper::EQU),
        Some(Token::NEQ) => Some(AbsBinOper::NEQ),
        Some(Token::LEQ) => Some(AbsBinOper::LEQ),
        Some(Token::GEQ) => Some(AbsBinOper::GEQ),
        Some(Token::LTH) => Some(AbsBinOper::LTH),
        Some(Token::GTH) => Some(AbsBinOper::GTH),
        _ => None,
    }
}

fn additive(token: Option<Token>) -> (operation: Option<AbsBinOper>)
    ensures
        operation == grammar::additive(token),
{
    match token {
        Some(Token::ADD) => Some(AbsBinOper::ADD),
        Some(Token::SUB) => Some(AbsBinOper::SUB),
        _ => None,
    }
}

fn multiplicative(token: Option<Token>) -> (operation: Option<AbsBinOper>)
    ensures
        operation == grammar::multiplicative(token),
{
    match token {
        Some(Token::MUL) => Some(AbsBinOper::MUL),
        Some(Token::DIV) => Some(AbsBinOper::DIV),
        Some(Token::MOD) => Some(AbsBinOper::MOD),
        _ => None,
    }
}

fn prefix(token: Option<Token>) -> (operation: Option<AbsUnOper>)
    ensures
        operation == grammar::prefix(token),
{
    match token {
        Some(Token::ADD) => Some(AbsUnOper::ADD),
        Some(Token::SUB) => Some(AbsUnOper::SUB),
        Some(Token::MUL) => Some(AbsUnOper::MUL),
        Some(Token::AND) => Some(AbsUnOper::AND),
        Some(Token::NOT) => Some(AbsUnOper::NOT),
        _ => None,
    }
}

fn atomic(token: Option<Token>) -> (atom: Option<AtomType>)
    ensures
        atom == grammar::atomic(token),
{
    match token {
        Some(Token::INT) => Some(AtomType::INT),
        Some(Token::REAL) => Some(AtomType::REAL),
        Some(Token::BOOL) => Some(AtomType::BOOL),
        Some(Token::STRING) => Some(AtomType::STRING),
        _ => None,
    }
}

/// Builds the tree of a source text from the symbols that a lexical analyzer
/// reads from it.
pub struct SyntaxAnalyzer {
    lexical_analyser: LexicalAnalyzer,
    symbol: Option<Symbol>,
}

impl SyntaxAnalyzer {
    /// The symbols that the lexical analyzer has yet to read.
    #[verifier::opaque]
    pub closed spec fn source(&self) -> Seq<Item> {
        symbols_from(
            self.lexical_analyser.file(),
            self.lexical_analyser.text(),
            self.lexical_analyser.place(),
        )
    }

    /// The symbols that the analysis has yet to take: the lookahead symbol
    /// and those behind it. Without a lookahead symbol there are none.
    #[verifier::opaque]
    pub closed spec fn stream(&self) -> Seq<Item> {
        match self.symbol {
            Some(symbol) => seq![Item::Symbol(symbol@)] + self.source(),
            None => Seq::empty(),
        }
    }

    /// Analysis is a function of the text: analyzers with the same symbols
    /// yet to read come to the same tree, or to the same failure.
    pub proof fn lemma_same_source_same_program(first: SyntaxAnalyzer, second: SyntaxAnalyzer)
        requires
            first.source() == second.source(),
        ensures
            grammar::program(first.source()) == grammar::program(second.source()),
    {
    }

    /// An analyzer of the text that the lexical analyzer has yet to read.
    pub fn new(lexical_analyser: LexicalAnalyzer) -> (analyzer: SyntaxAnalyzer)
        ensures
            analyzer.source() == symbols_from(
                lexical_analyser.file(),
                lexical_analyser.text(),
                lexical_analyser.place(),
            ),
    {
        reveal(SyntaxAnalyzer::source);
        SyntaxAnalyzer { lexical_analyser, symbol: None }
    }

    /// Analyzes the text.
    ///
    /// Returns the tree that the grammar derives from the symbols of the
    /// text, no tree if the text holds no symbol, or the first error.
    pub fn parse(&mut self) -> (result: Result<Option<AbsExprs>, ParseError>)
        ensures
            match grammar::program(old(self).source()) {
                Program::Empty => result matches Ok(None),
                Program::Tree(tree) => result matches Ok(Some(root)) && root@ == tree
                    && tree.well_spanned() && tree.positioned(),
                Program::Failed(failure) => result matches Err(error) && error@ == failure,
            },
    {
        proof {
            reveal(SyntaxAnalyzer::source);
            reveal(SyntaxAnalyzer::stream);
            reveal(symbols_from);
            self.lexical_analyser.lemma_place();
            lemma_scan_advances(
                self.lexical_analyser.file(),
                self.lexical_analyser.text(),
                self.lexical_analyser.place(),
            );
        }
        match self.lexical_analyser.get_next_symbol() {
            Ok(Some(symbol)) => {
                self.symbol = Some(symbol);
            },
            Ok(None) => {
                return Ok(None);
            },
            Err(error) => {
                return Err(ParseError::LexicalError(error));
            },
        }
        assert(self.stream() =~= old(self).source());
        let tree = self.parse_source()?;
        if self.symbol.is_some() {
            return Err(self.unexpected());
        }
        Ok(Some(tree))
    }

    /// The kind of the lookahead symbol.
    fn current(&self) -> (token: Option<Token>)
        ensures
            token == grammar::head(self.stream()),
    {
        reveal(SyntaxAnalyzer::stream);
        match &self.symbol {
            Some(symbol) => Some(symbol.get_token()),
            None => None,
        }
    }

    /// The error for a lookahead symbol with which no production can go on.
    fn unexpected(&mut self) -> (error: ParseError)
        ensures
            error@ == grammar::unexpected(old(self).stream()),
    {
        reveal(SyntaxAnalyzer::stream);
        ParseError::SyntaxError(SymbolError::new(self.symbol.take()))
    }

    /// Takes the lookahead symbol, which must be of the given kind, and
    /// reads the next one.
    fn skip(&mut self, token: Token) -> (result: Result<Symbol, ParseError>)
        ensures
            agrees_on_symbol(
                result,
                final(self).stream(),
                grammar::skip(old(self).stream(), token),
            ),
            shorter(grammar::skip(old(self).stream(), token), old(self).stream()),
    {
        reveal(SyntaxAnalyzer::source);
        reveal(SyntaxAnalyzer::stream);
        reveal(symbols_from);
        match self.symbol.take() {
            None => Err(ParseError::SyntaxError(SymbolError::new(None))),
            Some(symbol) => {
                if !symbol.is_token(token) {
                    return Err(ParseError::SyntaxError(SymbolError::new(Some(symbol))));
                }
                proof {
                    self.lexical_analyser.lemma_place();
                    lemma_scan_advances(
                        self.lexical_analyser.file(),
                        self.lexical_analyser.text(),
                        self.lexical_analyser.place(),
                    );
                }
                match self.lexical_analyser.get_next_symbol() {
                    Ok(next) => {
                        self.symbol = next;
                        assert(self.stream() =~= old(self).stream().skip(1));
                        Ok(symbol)
                    },
                    Err(error) => Err(ParseError::LexicalError(error)),
                }
            },
        }
    }

    #[verifier::spinoff_prover]
    fn parse_source(&mut self) -> (result: Result<AbsExprs, ParseError>)
        ensures
            agrees(result, final(self).stream(), grammar::source(old(self).stream())),
            shorter(grammar::source(old(self).stream()), old(self).stream()),
        decreases old(self).stream().len(), 12nat,
    {
        proof {
            reveal(grammar::source);
        }
        self.parse_expressions()
    }

    #[verifier::spinoff_prover]
    fn parse_expressions(&mut self) -> (result: Result<AbsExprs, ParseError>)
        ensures
            agrees(result, final(self).stream(), grammar::expressions(old(self).stream())),
            shorter(grammar::expressions(old(self).stream()), old(self).stream()),
        decreases old(self).stream().len(), 11nat,
    {
        proof {
            reveal(grammar::expressions);
        }
        let first = self.parse_expression()?;
        let mut exprs: Vec<AbsExpr> = Vec::new();
        exprs.push(first);
        assert(trees_of(exprs@) =~= seq![first@]);
        let exprs = self.parse_expressions_rest(exprs)?;
        let mut abs_exprs = AbsExprs::new_with_exprs(exprs);
        assert(abs_exprs.children() =~= trees_of(exprs@));
        abs_exprs.calculate_abs_position();
        Ok(abs_exprs)
    }

    #[verifier::spinoff_prover]
    fn parse_expression(&mut self) -> (result: Result<AbsExpr, ParseError>)
        ensures
            agrees(result, final(self).stream(), grammar::expression(old(self).stream())),
            shorter(grammar::expression(old(self).stream()), old(self).stream()),
        decreases old(self).stream().len(), 10nat,
    {
        proof {
            reveal(grammar::expression);
        }
        self.parse_or_expression()
    }

    #[verifier::spinoff_prover]
    fn parse_expressions_rest(&mut self, abs_exprs_arg: Vec<AbsExpr>) -> (result: Result<
        Vec<AbsExpr>,
        ParseError,
    >)
        requires
            all_well_spanned(trees_of(abs_exprs_arg@)),
            all_positioned(trees_of(abs_exprs_arg@)),
        ensures
            agrees_on_list(
                result,
                final(self).stream(),
                grammar::expressions_rest(trees_of(abs_exprs_arg@), old(self).stream()),
            ),
            no_longer(
                grammar::expressions_rest(trees_of(abs_exprs_arg@), old(self).stream()),
                old(self).stream(),
            ),
            keeps(
                grammar::expressions_rest(trees_of(abs_exprs_arg@), old(self).stream()),
                trees_of(abs_exprs_arg@),
            ),
        decreases old(self).stream().len(), 1nat,
    {
        proof {
            reveal(grammar::expressions_rest);
        }
        let mut abs_exprs = abs_exprs_arg;
        match self.current() {
            Some(Token::COMMA) => {
                self.skip(Token::COMMA)?;
                let next = self.parse_expression()?;
                abs_exprs.push(next);
                assert(trees_of(abs_exprs@) =~= trees_of(abs_exprs_arg@).push(next@));
                self.parse_expressions_rest(abs_exprs)
            },
            _ => Ok(abs_exprs),
        }
    }

    #[verifier::spinoff_prover]
    fn parse_or_expression(&mut self) -> (result: Result<AbsExpr, ParseError>)
        ensures
            agrees(result, final(self).stream(), grammar::or_expression(old(self).stream())),
            shorter(grammar::or_expression(old(self).stream()), old(self).stream()),
        decreases old(self).stream().len(), 9nat,
    {
        proof {
            reveal(grammar::or_expression);
        }
        let abs_expr = self.parse_and_expression()?;
        self.parse_or_expression_rest(abs_expr)
    }

    #[verifier::spinoff_prover]
    fn parse_or_expression_rest(&mut self, abs_expr_arg: AbsExpr) -> (result: Result<
        AbsExpr,
        ParseError,
    >)
        requires
            abs_expr_arg@.well_spanned(),
            abs_expr_arg@.positioned(),
        ensures
            agrees(
                result,
                final(self).stream(),
                grammar::or_expression_rest(abs_expr_arg@, old(self).stream()),
            ),
            no_longer(
                grammar::or_expression_rest(abs_expr_arg@, old(self).stream()),
                old(self).stream(),
            ),
        decreases old(self).stream().len(), 1nat,
    {
        proof {
            reveal(grammar::or_expression_rest);
        }
        let token = self.current();
        match (disjunction(token), token) {
            (Some(operation), Some(token)) => {
                self.skip(token)?;
                let abs_right_expr = self.parse_and_expression()?;
                let abs_bin_expr = AbsExpr::BinExpr(
                    AbsBinExpr::new(operation, Box::new(abs_expr_arg), Box::new(abs_right_expr)),
                );
                self.parse_or_expression_rest(abs_bin_expr)
            },
            _ => Ok(abs_expr_arg),
        }
    }

    #[verifier::spinoff_prover]
    fn parse_and_expression(&mut self) -> (result: Result<AbsExpr, ParseError>)
        ensures
            agrees(result, final(self).stream(), grammar::and_expression(old(self).stream())),
            shorter(grammar::and_expression(old(self).stream()), old(self).stream()),
        decreases old(self).stream().len(), 8nat,
    {
        proof {
            reveal(grammar::and_expression);
        }
        let rel_expr = self.parse_relational_expression()?;
        self.parse_and_expression_rest(rel_expr)
    }

    #[verifier::spinoff_prover]
    fn parse_and_expression_rest(&mut self, abs_expr_arg: AbsExpr) -> (result: Result<
        AbsExpr,
        ParseError,
    >)
        requires
            abs_expr_arg@.well_spanned(),
            abs_expr_arg@.positioned(),
        ensures
            agrees(
                result,
                final(self).stream(),
                grammar::and_expression_rest(abs_expr_arg@, old(self).stream()),
            ),
            no_longer(
                grammar::and_expression_rest(abs_expr_arg@, old(self).stream()),
                old(self).stream(),
            ),
        decreases old(self).stream().len(), 1nat,
    {
        proof {
            reveal(grammar::and_expression_rest);
        }
        let token = self.current();
        match (conjunction(token), token) {
            (Some(operation), Some(token)) => {
                self.skip(token)?;
                let rel_expr = self.parse_relational_expression()?;
                let abs_bin_expr = AbsExpr::BinExpr(
                    AbsBinExpr::new(operation, Box::new(abs_expr_arg), Box::new(rel_expr)),
                );
                self.parse_and_expression_rest(abs_bin_expr)
            },
            _ => Ok(abs_expr_arg),
        }
    }

    #[verifier::spinoff_prover]
    fn parse_relational_expression(&mut self) -> (result: Result<AbsExpr, ParseError>)
        ensures
            agrees(
                result,
                final(self).stream(),
                grammar::relational_expression(old(self).stream()),
            ),
            shorter(grammar::relational_expression(old(self).stream()), old(self).stream()),
        decreases old(self).stream().len(), 7nat,
    {
        proof {
            reveal(grammar::relational_expression);
        }
        let expr = self.parse_additive_expression()?;
        let token = self.current();
        match (comparison(token), token) {
            (Some(operation), Some(token)) => {
                self.skip(token)?;
                let right_expr = self.parse_additive_expression()?;
                Ok(
                    AbsExpr::BinExpr(
                        AbsBinExpr::new(operation, Box::new(expr), Box::new(right_expr)),
                    ),
                )
            },
            _ => Ok(expr),
        }
    }

    #[verifier::spinoff_prover]
    fn parse_additive_expression(&mut self) -> (result: Result<AbsExpr, ParseError>)
        ensures
            agrees(
                result,
                final(self).stream(),
                grammar::additive_expression(old(self).stream()),
            ),
            shorter(grammar::additive_expression(old(self).stream()), old(self).stream()),
        decreases old(self).stream().len(), 6nat,
    {
        proof {
            reveal(grammar::additive_expression);
        }
        let mult_expr = self.parse_multiplicative_expression()?;
        self.parse_additive_expression_rest(mult_expr)
    }

    #[verifier::spinoff_prover]
    fn parse_additive_expression_rest(&mut self, abs_expr_arg: AbsExpr) -> (result: Result<
        AbsExpr,
        ParseError,
    >)
        requires
            abs_expr_arg@.well_spanned(),
            abs_expr_arg@.positioned(),
        ensures
            agrees(
                result,
                final(self).stream(),
                grammar::additive_expression_rest(abs_expr_arg@, old(self).stream()),
            ),
            no_longer(
                grammar::additive_expression_rest(abs_expr_arg@, old(self).stream()),
                old(self).stream(),
            ),
        decreases old(self).stream().len(), 1nat,
    {
        proof {
            reveal(grammar::additive_expression_rest);
        }
        let token = self.current();
        match (additive(token), token) {
            (Some(operation), Some(token)) => {
                self.skip(token)?;
                let mult_expr = self.parse_multiplicative_expression()?;
                let abs_bin_expr = AbsExpr::BinExpr(
                    AbsBinExpr::new(operation, Box::new(abs_expr_arg), Box::new(mult_expr)),
                );
                self.parse_additive_expression_rest(abs_bin_expr)
            },
            _ => Ok(abs_expr_arg),
        }
    }

    #[verifier::spinoff_prover]
    fn parse_multiplicative_expression(&mut self) -> (result: Result<AbsExpr, ParseError>)
        ensures
            agrees(
                result,
                final(self).stream(),
                grammar::multiplicative_expression(old(self).stream()),
            ),
            shorter(grammar::multiplicative_expression(old(self).stream()), old(self).stream()),
        decreases old(self).stream().len(), 5nat,
    {
        proof {
            reveal(grammar::multiplicative_expression);
        }
        let pref_expr = self.parse_prefix_expression()?;
        self.parse_multiplicative_expression_rest(pref_expr)
    }

    #[verifier::spinoff_prover]
    fn parse_multiplicative_expression_rest(&mut self, abs_expr_arg: AbsExpr) -> (result: Result<
        AbsExpr,
        ParseError,
    >)
        requires
            abs_expr_arg@.well_spanned(),
            abs_expr_arg@.positioned(),
        ensures
            agrees(
                result,
                final(self).stream(),
                grammar::multiplicative_expression_rest(abs_expr_arg@, old(self).stream()),
            ),
            no_longer(
                grammar::multiplicative_expression_rest(abs_expr_arg@, old(self).stream()),
                old(self).stream(),
            ),
        decreases old(self).stream().len(), 1nat,
    {
        proof {
            reveal(grammar::multiplicative_expression_rest);
        }
        let token = self.current();
        match (multiplicative(token), token) {
            (Some(operation), Some(token)) => {
                self.skip(token)?;
                let pref_expr = self.parse_prefix_expression()?;
                let abs_bin_expr = AbsExpr::BinExpr(
                    AbsBinExpr::new(operation, Box::new(abs_expr_arg), Box::new(pref_expr)),
                );
                self.parse_multiplicative_expression_rest(abs_bin_expr)
            },
            _ => Ok(abs_expr_arg),
        }
    }

    #[verifier::spinoff_prover]
    fn parse_prefix_expression(&mut self) -> (result: Result<AbsExpr, ParseError>)
        ensures
            agrees(result, final(self).stream(), grammar::prefix_expression(old(self).stream())),
            shorter(grammar::prefix_expression(old(self).stream()), old(self).stream()),
        decreases old(self).stream().len(), 4nat,
    {
        proof {
            reveal(grammar::prefix_expression);
        }
        let token = self.current();
        match (prefix(token), token) {
            (Some(operation), Some(token)) => {
                self.skip(token)?;
                let expr = self.parse_prefix_expression()?;
                Ok(AbsExpr::UnExpr(AbsUnExpr::new(operation, Box::new(expr))))
            },
            _ => self.parse_postfix_expression(),
        }
    }

    #[verifier::spinoff_prover]
    fn parse_postfix_expression(&mut self) -> (result: Result<AbsExpr, ParseError>)
        ensures
            agrees(
                result,
                final(self).stream(),
                grammar::postfix_expression(old(self).stream()),
            ),
            shorter(grammar::postfix_expression(old(self).stream()), old(self).stream()),
        decreases old(self).stream().len(), 3nat,
    {
        proof {
            reveal(grammar::postfix_expression);
        }
        match self.current() {
            Some(Token::INTCONST) => {
                let atom_expr = AbsAtomExpr::new(self.skip(Token::INTCONST)?);
                self.parse_postfix_expression_rest(AbsExpr::AtomExpr(atom_expr))
            },
            Some(Token::REALCONST) => {
                let atom_expr = AbsAtomExpr::new(self.skip(Token::REALCONST)?);
                self.parse_postfix_expression_rest(AbsExpr::AtomExpr(atom_expr))
            },
            Some(Token::BOOLCONST) => {
                let atom_expr = AbsAtomExpr::new(self.skip(Token::BOOLCONST)?);
                self.parse_postfix_expression_rest(AbsExpr::AtomExpr(atom_expr))
            },
            Some(Token::STRINGCONST) => {
                let atom_expr = AbsAtomExpr::new(self.skip(Token::STRINGCONST)?);
                self.parse_postfix_expression_rest(AbsExpr::AtomExpr(atom_expr))
            },
            Some(Token::IDENTIFIER) => {
                let identifier = self.skip(Token::IDENTIFIER)?;
                let abs_expr_name = AbsExprName::new(identifier);
                let iden_expr = match self.current() {
                    Some(Token::LPARENT) => {
                        self.skip(Token::LPARENT)?;
                        let fun_call_params = self.parse_expressions()?;
                        self.skip(Token::RPARENT)?;
                        AbsExpr::FunCall(AbsFunCall::new(abs_expr_name, fun_call_params))
                    },
                    _ => AbsExpr::ExprName(abs_expr_name),
                };
                self.parse_postfix_expression_rest(iden_expr)
            },
            Some(Token::LPARENT) => {
                self.skip(Token::LPARENT)?;
                let exprs = self.parse_expressions()?;
                self.skip(Token::RPARENT)?;
                self.parse_postfix_expression_rest(AbsExpr::Exprs(exprs))
            },
            Some(Token::LBRACE) => {
                let open = self.skip(Token::LBRACE)?;
                let brace_expr = self.parse_postfix_brace_expression(&open)?;
                self.parse_postfix_expression_rest(brace_expr)
            },
            _ => Err(self.unexpected()),
        }
    }

    #[verifier::spinoff_prover]
    fn parse_postfix_expression_rest(&mut self, abs_expr_arg: AbsExpr) -> (result: Result<
        AbsExpr,
        ParseError,
    >)
        requires
            abs_expr_arg@.well_spanned(),
            abs_expr_arg@.positioned(),
        ensures
            agrees(
                result,
                final(self).stream(),
                grammar::postfix_expression_rest(abs_expr_arg@, old(self).stream()),
            ),
            no_longer(
                grammar::postfix_expression_rest(abs_expr_arg@, old(self).stream()),
                old(self).stream(),
            ),
        decreases old(self).stream().len(), 1nat,
    {
        proof {
            reveal(grammar::postfix_expression_rest);
        }
        match self.current() {
            Some(Token::DOT) => {
                self.skip(Token::DOT)?;
                let identifier = AbsExprName::new(self.skip(Token::IDENTIFIER)?);
                let abs_bin_expr = AbsExpr::BinExpr(
                    AbsBinExpr::new(
                        AbsBinOper::REC,
                        Box::new(abs_expr_arg),
                        Box::new(AbsExpr::ExprName(identifier)),
                    ),
                );
                self.parse_postfix_expression_rest(abs_bin_expr)
            },
            Some(Token::LBRACKET) => {
                self.skip(Token::LBRACKET)?;
                let offset_expr = self.parse_expression()?;
                self.skip(Token::RBRACKET)?;
                let abs_bin_expr = AbsExpr::BinExpr(
                    AbsBinExpr::new(AbsBinOper::ARR, Box::new(abs_expr_arg), Box::new(offset_expr)),
                );
                self.parse_postfix_expression_rest(abs_bin_expr)
            },
            Some(Token::WHERE) => {
                self.skip(Token::WHERE)?;
                let decls = self.parse_declarations()?;
                let where_expr = AbsExpr::WhereExpr(
                    AbsWhereExpr::new(Box::new(abs_expr_arg), decls),
                );
                self.parse_postfix_expression_rest(where_expr)
            },
            _ => Ok(abs_expr_arg),
        }
    }

    /// Analyzes what stands behind the opening brace `open`, and the closing
    /// brace. The empty block takes its span from the two braces.
    #[verifier::spinoff_prover]
    fn parse_postfix_brace_expression(&mut self, open: &Symbol) -> (result: Result<
        AbsExpr,
        ParseError,
    >)
        ensures
            agrees(
                result,
                final(self).stream(),
                grammar::brace_expression(open@, old(self).stream()),
            ),
            shorter(grammar::brace_expression(open@, old(self).stream()), old(self).stream()),
        decreases old(self).stream().len(), 2nat,
    {
        proof {
            reveal(grammar::brace_expression);
        }
        match self.current() {
            Some(Token::RBRACE) => {
                let close = self.skip(Token::RBRACE)?;
                let mut atom_expr = AbsAtomExpr::new_with_option(None);
                atom_expr.abs_position.cover(Some(open.get_ref_position()));
                atom_expr.abs_position.cover(Some(close.get_ref_position()));
                Ok(AbsExpr::AtomExpr(atom_expr))
            },
            Some(Token::IDENTIFIER) => self.parse_assign_statement(),
            Some(Token::IF) => self.parse_if_statement(),
            Some(Token::FOR) => self.parse_for_statement(),
            Some(Token::WHILE) => self.parse_while_statement(),
            _ => Err(self.unexpected()),
        }
    }

    #[verifier::spinoff_prover]
    fn parse_assign_statement(&mut self) -> (result: Result<AbsExpr, ParseError>)
        ensures
            agrees(result, final(self).stream(), grammar::assignment(old(self).stream())),
            shorter(grammar::assignment(old(self).stream()), old(self).stream()),
        decreases old(self).stream().len(), 1nat,
    {
        proof {
            reveal(grammar::assignment);
        }
        let expr_name = AbsExprName::new(self.skip(Token::IDENTIFIER)?);
        self.skip(Token::ASSIGN)?;
        let right_expr = self.parse_expression()?;
        let assign_stmt = AbsAssignStmt::new(
            Box::new(AbsExpr::ExprName(expr_name)),
            Box::new(right_expr),
        );
        self.skip(Token::RBRACE)?;
        Ok(AbsExpr::Stmt(AbsStmt::AssignStmt(assign_stmt)))
    }

    #[verifier::spinoff_prover]
    fn parse_if_statement(&mut self) -> (result: Result<AbsExpr, ParseError>)
        ensures
            agrees(result, final(self).stream(), grammar::conditional(old(self).stream())),
            shorter(grammar::conditional(old(self).stream()), old(self).stream()),
        decreases old(self).stream().len(), 1nat,
    {
        proof {
            reveal(grammar::conditional);
        }
        self.skip(Token::IF)?;
        let cond_expr = self.parse_expression()?;
        self.skip(Token::THEN)?;
        let then_expr = self.parse_expressions()?;
        let else_expr: Option<Box<AbsExpr>> = match self.current() {
            Some(Token::ELSE) => {
                self.skip(Token::ELSE)?;
                let else_exprs = self.parse_expressions()?;
                Some(Box::new(AbsExpr::Exprs(else_exprs)))
            },
            _ => None,
        };
        self.skip(Token::RBRACE)?;
        let if_stmt = AbsIfStmt::new(
            Box::new(cond_expr),
            Box::new(AbsExpr::Exprs(then_expr)),
            else_expr,
        );
        assert(if_stmt.children() =~= match else_expr {
            Some(e) => seq![cond_expr@, then_expr@, e@],
            None => seq![cond_expr@, then_expr@],
        });
        Ok(AbsExpr::Stmt(AbsStmt::IfStmt(if_stmt)))
    }

    #[verifier::spinoff_prover]
    fn parse_for_statement(&mut self) -> (result: Result<AbsExpr, ParseError>)
        ensures
            agrees(result, final(self).stream(), grammar::for_loop(old(self).stream())),
            shorter(grammar::for_loop(old(self).stream()), old(self).stream()),
        decreases old(self).stream().len(), 1nat,
    {
        proof {
            reveal(grammar::for_loop);
        }
        self.skip(Token::FOR)?;
        let var_name = AbsExprName::new(self.skip(Token::IDENTIFIER)?);
        self.skip(Token::ASSIGN)?;
        let lower_bound = self.parse_expression()?;
        self.skip(Token::COMMA)?;
        let higher_bound = self.parse_expression()?;
        self.skip(Token::COLON)?;
        let loop_exprs = self.parse_expressions()?;
        self.skip(Token::RBRACE)?;
        let for_loop_expr = AbsForStmt::new(
            var_name,
            Box::new(lower_bound),
            Box::new(higher_bound),
            Box::new(AbsExpr::Exprs(loop_exprs)),
        );
        Ok(AbsExpr::Stmt(AbsStmt::ForStmt(for_loop_expr)))
    }

    #[verifier::spinoff_prover]
    fn parse_while_statement(&mut self) -> (result: Result<AbsExpr, ParseError>)
        ensures
            agrees(result, final(self).stream(), grammar::while_loop(old(self).stream())),
            shorter(grammar::while_loop(old(self).stream()), old(self).stream()),
        decreases old(self).stream().len(), 1nat,
    {
        proof {
            reveal(grammar::while_loop);
        }
        self.skip(Token::WHILE)?;
        let cond_expr = self.parse_expression()?;
        self.skip(Token::COLON)?;
        let loop_expr = self.parse_expressions()?;
        self.skip(Token::RBRACE)?;
        let while_expr = AbsWhileStmt::new(
            Box::new(cond_expr),
            Box::new(AbsExpr::Exprs(loop_expr)),
        );
        Ok(AbsExpr::Stmt(AbsStmt::WhileStmt(while_expr)))
    }

    #[verifier::spinoff_prover]
    fn parse_declarations(&mut self) -> (result: Result<AbsDecls, ParseError>)
        ensures
            agrees(result, final(self).stream(), grammar::declarations(old(self).stream())),
            shorter(grammar::declarations(old(self).stream()), old(self).stream()),
        decreases old(self).stream().len(), 5nat,
    {
        proof {
            reveal(grammar::declarations);
        }
        let decl = self.parse_declaration()?;
        let mut decls: Vec<AbsDecl> = Vec::new();
        decls.push(decl);
        assert(trees_of(decls@) =~= seq![decl@]);
        let decls = self.parse_declarations_rest(decls)?;
        Ok(Self::make_declarations(decls))
    }

    /// The list of the given declarations, spanned over all of them.
    #[verifier::spinoff_prover]
    fn make_declarations(decls: Vec<AbsDecl>) -> (abs_decls: AbsDecls)
        requires
            decls@.len() > 0,
            all_well_spanned(trees_of(decls@)),
            all_positioned(trees_of(decls@)),
        ensures
            abs_decls@ == grammar::list(crate::abstree::tree::NodeKind::Decls, trees_of(decls@)),
            abs_decls@.well_spanned(),
            abs_decls@.positioned(),
    {
        let mut abs_decls = AbsDecls::new();
        abs_decls.decls = decls;
        assert(abs_decls.children() =~= trees_of(decls@));
        abs_decls.calculate_abs_position();
        abs_decls
    }

    #[verifier::spinoff_prover]
    fn parse_declarations_rest(&mut self, abs_decls: Vec<AbsDecl>) -> (result: Result<
        Vec<AbsDecl>,
        ParseError,
    >)
        requires
            all_well_spanned(trees_of(abs_decls@)),
            all_positioned(trees_of(abs_decls@)),
        ensures
            agrees_on_list(
                result,
                final(self).stream(),
                grammar::declarations_rest(trees_of(abs_decls@), old(self).stream()),
            ),
            no_longer(
                grammar::declarations_rest(trees_of(abs_decls@), old(self).stream()),
                old(self).stream(),
            ),
            keeps(
                grammar::declarations_rest(trees_of(abs_decls@), old(self).stream()),
                trees_of(abs_decls@),
            ),
        decreases old(self).stream().len(), 5nat,
    {
        proof {
            reveal(grammar::declarations_rest);
        }
        let mut decls = abs_decls;
        match self.current() {
            Some(Token::TYP) | Some(Token::FUN) | Some(Token::VAR) => {
                let decl = self.parse_declaration()?;
                decls.push(decl);
                assert(trees_of(decls@) =~= trees_of(abs_decls@).push(decl@));
                self.parse_declarations_rest(decls)
            },
            _ => Ok(decls),
        }
    }

    #[verifier::spinoff_prover]
    fn parse_declaration(&mut self) -> (result: Result<AbsDecl, ParseError>)
        ensures
            agrees(result, final(self).stream(), grammar::declaration(old(self).stream())),
            shorter(grammar::declaration(old(self).stream()), old(self).stream()),
        decreases old(self).stream().len(), 3nat,
    {
        proof {
            reveal(grammar::declaration);
        }
        match self.current() {
            Some(Token::TYP) => Ok(AbsDecl::TypeDecl(self.parse_type_declaration()?)),
            Some(Token::FUN) => Ok(AbsDecl::FunDecl(self.parse_function_declaration()?)),
            Some(Token::VAR) => Ok(AbsDecl::VarDecl(self.parse_variable_declaration()?)),
            _ => Err(self.unexpected()),
        }
    }

    #[verifier::spinoff_prover]
    fn parse_type_declaration(&mut self) -> (result: Result<AbsTypeDecl, ParseError>)
        ensures
            agrees(result, final(self).stream(), grammar::type_declaration(old(self).stream())),
            shorter(grammar::type_declaration(old(self).stream()), old(self).stream()),
        decreases old(self).stream().len(), 1nat,
    {
        proof {
            reveal(grammar::type_declaration);
        }
        self.skip(Token::TYP)?;
        let name = AbsTypeName::new(self.skip(Token::IDENTIFIER)?);
        self.skip(Token::COLON)?;
        let source_type = self.parse_type()?;
        self.skip(Token::SEMIC)?;
        Ok(AbsTypeDecl::new(name, Box::new(source_type)))
    }

    /// Analyzes a type. The type of the empty block takes its span from its
    /// two braces.
    #[verifier::spinoff_prover]
    fn parse_type(&mut self) -> (result: Result<AbsType, ParseError>)
        ensures
            agrees(result, final(self).stream(), grammar::type_denotation(old(self).stream())),
            shorter(grammar::type_denotation(old(self).stream()), old(self).stream()),
        decreases old(self).stream().len(), 1nat,
    {
        proof {
            reveal(grammar::type_denotation);
        }
        let token = self.current();
        match (atomic(token), token) {
            (Some(atom), Some(token)) => {
                let symbol = self.skip(token)?;
                Ok(AbsType::AtomType(AbsAtomType::new(atom, &symbol)))
            },
            _ => match token {
                Some(Token::LBRACE) => {
                    let open = self.skip(Token::LBRACE)?;
                    let close = self.skip(Token::RBRACE)?;
                    let mut void_type = AbsAtomType::new_void_type();
                    void_type.abs_position.cover(Some(open.get_ref_position()));
                    void_type.abs_position.cover(Some(close.get_ref_position()));
                    Ok(AbsType::AtomType(void_type))
                },
                Some(Token::IDENTIFIER) => {
                    let name = AbsTypeName::new(self.skip(Token::IDENTIFIER)?);
                    Ok(AbsType::TypeName(name))
                },
                Some(Token::MUL) => {
                    let pointer_symbol = self.skip(Token::MUL)?;
                    let abs_type = self.parse_type()?;
                    Ok(
                        AbsType::PointerType(
                            AbsPointerType::new(Box::new(abs_type), &pointer_symbol),
                        ),
                    )
                },
                Some(Token::ARR) => {
                    let arr_symbol = self.skip(Token::ARR)?;
                    self.skip(Token::LBRACKET)?;
                    let size_expr = self.parse_expression()?;
                    self.skip(Token::RBRACKET)?;
                    let arr_type = self.parse_type()?;
                    Ok(
                        AbsType::ArrType(
                            AbsArrType::new(Box::new(arr_type), Box::new(size_expr), &arr_symbol),
                        ),
                    )
                },
                Some(Token::REC) => {
                    let rec_symbol = self.skip(Token::REC)?;
                    self.skip(Token::LPARENT)?;
                    let record_compoments = self.parse_record_compoments()?;
                    self.skip(Token::RPARENT)?;
                    Ok(AbsType::RecType(AbsRecType::new(record_compoments, &rec_symbol)))
                },
                Some(Token::LPARENT) => {
                    self.skip(Token::LPARENT)?;
                    let abs_type = self.parse_type()?;
                    self.skip(Token::RPARENT)?;
                    Ok(abs_type)
                },
                _ => Err(self.unexpected()),
            },
        }
    }

    #[verifier::spinoff_prover]
    fn parse_record_compoments(&mut self) -> (result: Result<AbsDecls, ParseError>)
        ensures
            agrees(result, final(self).stream(), grammar::parameters(old(self).stream())),
            shorter(grammar::parameters(old(self).stream()), old(self).stream()),
        decreases old(self).stream().len(), 2nat,
    {
        proof {
            reveal(grammar::parameters);
        }
        let compoment = self.parse_record_compoment()?;
        let mut decls: Vec<AbsDecl> = Vec::new();
        decls.push(AbsDecl::VarDecl(compoment));
        assert(trees_of(decls@) =~= seq![compoment@]);
        let decls = self.parse_record_compoments_rest(decls)?;
        Ok(Self::make_declarations(decls))
    }

    #[verifier::spinoff_prover]
    fn parse_record_compoments_rest(&mut self, abs_decls: Vec<AbsDecl>) -> (result: Result<
        Vec<AbsDecl>,
        ParseError,
    >)
        requires
            all_well_spanned(trees_of(abs_decls@)),
            all_positioned(trees_of(abs_decls@)),
        ensures
            agrees_on_list(
                result,
                final(self).stream(),
                grammar::parameters_rest(trees_of(abs_decls@), old(self).stream()),
            ),
            no_longer(
                grammar::parameters_rest(trees_of(abs_decls@), old(self).stream()),
                old(self).stream(),
            ),
            keeps(
                grammar::parameters_rest(trees_of(abs_decls@), old(self).stream()),
                trees_of(abs_decls@),
            ),
        decreases old(self).stream().len(), 1nat,
    {
        proof {
            reveal(grammar::parameters_rest);
        }
        let mut decls = abs_decls;
        match self.current() {
            Some(Token::COMMA) => {
                self.skip(Token::COMMA)?;
                let compoment = self.parse_record_compoment()?;
                decls.push(AbsDecl::VarDecl(compoment));
                assert(trees_of(decls@) =~= trees_of(abs_decls@).push(compoment@));
                self.parse_record_compoments_rest(decls)
            },
            _ => Ok(decls),
        }
    }

    #[verifier::spinoff_prover]
    fn parse_record_compoment(&mut self) -> (result: Result<AbsVarDecl, ParseError>)
        ensures
            agrees(result, final(self).stream(), grammar::parameter(old(self).stream())),
            shorter(grammar::parameter(old(self).stream()), old(self).stream()),
        decreases old(self).stream().len(), 1nat,
    {
        proof {
            reveal(grammar::parameter);
        }
        match self.current() {
            Some(Token::IDENTIFIER) => {
                let identifier = AbsExprName::new(self.skip(Token::IDENTIFIER)?);
                self.skip(Token::COLON)?;
                let abs_type = self.parse_type()?;
                Ok(AbsVarDecl::new(identifier, Box::new(abs_type)))
            },
            _ => Err(self.unexpected()),
        }
    }

    #[verifier::spinoff_prover]
    fn parse_function_declaration(&mut self) -> (result: Result<AbsFunDecl, ParseError>)
        ensures
            agrees(
                result,
                final(self).stream(),
                grammar::function_declaration(old(self).stream()),
            ),
            shorter(grammar::function_declaration(old(self).stream()), old(self).stream()),
        decreases old(self).stream().len(), 1nat,
    {
        proof {
            reveal(grammar::function_declaration);
        }
        self.skip(Token::FUN)?;
        let fun_name = AbsExprName::new(self.skip(Token::IDENTIFIER)?);
        self.skip(Token::LPARENT)?;
        let params = self.parse_function_parameters()?;
        self.skip(Token::RPARENT)?;
        self.skip(Token::COLON)?;
        let return_type = self.parse_type()?;
        self.skip(Token::ASSIGN)?;
        let body_exprs = self.parse_expressions()?;
        self.skip(Token::SEMIC)?;
        Ok(
            AbsFunDecl::new(
                fun_name,
                params,
                Box::new(return_type),
                Box::new(AbsExpr::Exprs(body_exprs)),
            ),
        )
    }

    #[verifier::spinoff_prover]
    fn parse_function_parameters(&mut self) -> (result: Result<AbsDecls, ParseError>)
        ensures
            agrees(result, final(self).stream(), grammar::parameters(old(self).stream())),
            shorter(grammar::parameters(old(self).stream()), old(self).stream()),
        decreases old(self).stream().len(), 2nat,
    {
        proof {
            reveal(grammar::parameters);
        }
        let arg = self.parse_function_parameter()?;
        let mut params: Vec<AbsDecl> = Vec::new();
        params.push(AbsDecl::VarDecl(arg));
        assert(trees_of(params@) =~= seq![arg@]);
        let params = self.parse_function_parameters_rest(params)?;
        Ok(Self::make_declarations(params))
    }

    #[verifier::spinoff_prover]
    fn parse_function_parameter(&mut self) -> (result: Result<AbsVarDecl, ParseError>)
        ensures
            agrees(result, final(self).stream(), grammar::parameter(old(self).stream())),
            shorter(grammar::parameter(old(self).stream()), old(self).stream()),
        decreases old(self).stream().len(), 1nat,
    {
        proof {
            reveal(grammar::parameter);
        }
        let arg_name = AbsExprName::new(self.skip(Token::IDENTIFIER)?);
        self.skip(Token::COLON)?;
        let arg_type = self.parse_type()?;
        Ok(AbsVarDecl::new(arg_name, Box::new(arg_type)))
    }

    #[verifier::spinoff_prover]
    fn parse_function_parameters_rest(&mut self, abs_decls: Vec<AbsDecl>) -> (result: Result<
        Vec<AbsDecl>,
        ParseError,
    >)
        requires
            all_well_spanned(trees_of(abs_decls@)),
            all_positioned(trees_of(abs_decls@)),
        ensures
            agrees_on_list(
                result,
                final(self).stream(),
                grammar::parameters_rest(trees_of(abs_decls@), old(self).stream()),
            ),
            no_longer(
                grammar::parameters_rest(trees_of(abs_decls@), old(self).stream()),
                old(self).stream(),
            ),
            keeps(
                grammar::parameters_rest(trees_of(abs_decls@), old(self).stream()),
                trees_of(abs_decls@),
            ),
        decreases old(self).stream().len(), 1nat,
    {
        proof {
            reveal(grammar::parameters_rest);
        }
        let mut params = abs_decls;
        match self.current() {
            Some(Token::COMMA) => {
                self.skip(Token::COMMA)?;
                let arg = self.parse_function_parameter()?;
                params.push(AbsDecl::VarDecl(arg));
                assert(trees_of(params@) =~= trees_of(abs_decls@).push(arg@));
                self.parse_function_parameters_rest(params)
            },
            _ => Ok(params),
        }
    }

    #[verifier::spinoff_prover]
    fn parse_variable_declaration(&mut self) -> (result: Result<AbsVarDecl, ParseError>)
        ensures
            agrees(
                result,
                final(self).stream(),
                grammar::variable_declaration(old(self).stream()),
            ),
            shorter(grammar::variable_declaration(old(self).stream()), old(self).stream()),
        decreases old(self).stream().len(), 1nat,
    {
        proof {
            reveal(grammar::variable_declaration);
        }
        self.skip(Token::VAR)?;
        let var_name = AbsExprName::new(self.skip(Token::IDENTIFIER)?);
        self.skip(Token::COLON)?;
        let var_type = self.parse_type()?;
        self.skip(Token::SEMIC)?;
        Ok(AbsVarDecl::new(var_name, Box::new(var_type)))
    }
}

} // verus!
