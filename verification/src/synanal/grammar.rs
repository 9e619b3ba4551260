//! The grammar, stated over the stream of symbols that the lexical rules read
//! from a source text.
//!
//! Each production is a function from a stream to the tree that it derives
//! from the front of the stream together with the rest of the stream, or to
//! the failure that ends the analysis. One symbol of lookahead decides between
//! the alternatives of a production. A production takes a symbol from the
//! stream only after it has looked at the symbol behind it, so a lexical fault
//! behind a symbol shows when that symbol is taken.
//!
//! A production is written as the sequence of its parts. Each part goes on
//! with what the part before it has left (`then_skip`, `then_expression`,
//! ...), and a failure of one part is the failure of all parts behind it.
//! Every production takes at least one symbol. Where a production goes on
//! with what another has left, the definition says so (`rest.len() <
//! s.len()`): this is what makes the definitions well founded.

use crate::abstree::abs_expr::{AbsBinOper, AbsUnOper};
use crate::abstree::abs_type::AtomType;
use crate::abstree::tree::{cover, node, NodeKind, Tree};
use crate::lexanal::position::Span;
use crate::lexanal::rules::{scan, LexicalErrorView, Place, Scan};
use crate::lexanal::symbol::{SymbolView, Token};
use vstd::prelude::*;

verus! {

/// What reading the next symbol of a text gave.
pub enum Item {
    Symbol(SymbolView),
    Fault(LexicalErrorView),
}

/// The symbols that are read from place `p` of `text` on, to the end of the
/// text or to the first lexical fault, which then ends the stream.
#[verifier::opaque]
pub open spec fn symbols_from(file: Seq<char>, text: Seq<char>, p: Place) -> Seq<Item>
    decreases text.len() - p.offset,
{
    match scan(file, text, p) {
        Scan::Symbol { symbol, after } => if p.offset < after.offset <= text.len() {
            seq![Item::Symbol(symbol)] + symbols_from(file, text, after)
        } else {
            seq![Item::Symbol(symbol)]
        },
        Scan::End { after } => Seq::empty(),
        Scan::Fault { fault } => seq![Item::Fault(fault)],
    }
}

/// Why an analysis ends without a tree.
pub enum Failure {
    /// A symbol that the grammar does not allow where it stands, or the end
    /// of the stream where the grammar wants a symbol.
    Unexpected(Option<SymbolView>),
    /// A lexical fault.
    Lexical(LexicalErrorView),
}

/// What a production comes to.
pub enum Parsed<T> {
    Done { value: T, rest: Seq<Item> },
    Failed(Failure),
}

impl<T> Parsed<T> {
    /// What a production that came to a value has left; nothing, if it
    /// failed.
    pub open spec fn left(self) -> Seq<Item> {
        match self {
            Parsed::Done { value, rest } => rest,
            Parsed::Failed(failure) => Seq::empty(),
        }
    }

    /// The failure of a production that did not come to a value.
    pub open spec fn failure(self) -> Failure {
        match self {
            Parsed::Failed(failure) => failure,
            Parsed::Done { value, rest } => Failure::Unexpected(None),
        }
    }
}

/// A value for what a production has left, or the failure of the
/// production.
pub open spec fn finish<T, U>(before: Parsed<T>, value: U) -> Parsed<U> {
    match before {
        Parsed::Done { value: _, rest } => Parsed::Done { value, rest },
        Parsed::Failed(failure) => Parsed::Failed(failure),
    }
}

/// The kind of the symbol at the front of the stream.
pub open spec fn head(s: Seq<Item>) -> Option<Token> {
    if s.len() > 0 {
        match s[0] {
            Item::Symbol(symbol) => Some(symbol.token),
            Item::Fault(fault) => None,
        }
    } else {
        None
    }
}

/// The failure at the front of the stream when no production can go on.
pub open spec fn unexpected(s: Seq<Item>) -> Failure {
    if s.len() > 0 {
        match s[0] {
            Item::Symbol(symbol) => Failure::Unexpected(Some(symbol)),
            Item::Fault(fault) => Failure::Lexical(fault),
        }
    } else {
        Failure::Unexpected(None)
    }
}

/// Takes the symbol at the front of the stream if it is of the given kind.
/// The symbol behind it has been read by then: a lexical fault there is the
/// failure.
pub open spec fn skip(s: Seq<Item>, token: Token) -> Parsed<SymbolView> {
    if head(s) == Some(token) {
        if s.len() > 1 && s[1] is Fault {
            Parsed::Failed(Failure::Lexical(s[1]->Fault_0))
        } else {
            Parsed::Done { value: s[0]->Symbol_0, rest: s.skip(1) }
        }
    } else {
        Parsed::Failed(unexpected(s))
    }
}

/// Takes a symbol of the given kind from what `before` has left.
pub open spec fn then_skip<T>(before: Parsed<T>, token: Token) -> Parsed<SymbolView> {
    match before {
        Parsed::Done { value, rest } => skip(rest, token),
        Parsed::Failed(failure) => Parsed::Failed(failure),
    }
}

/// The span from the first of two symbols to the second.
pub open spec fn between(first: SymbolView, last: SymbolView) -> Option<Span> {
    cover(cover(None, Some(first.position)), Some(last.position))
}

pub open spec fn atom_expr(symbol: SymbolView) -> Tree {
    node(NodeKind::AtomExpr, None, Some(symbol), Seq::empty())
}

/// The empty block between two braces.
pub open spec fn void_expr(open: SymbolView, close: SymbolView) -> Tree {
    node(NodeKind::AtomExpr, between(open, close), None, Seq::empty())
}

pub open spec fn expr_name(symbol: SymbolView) -> Tree {
    node(NodeKind::ExprName, None, Some(symbol), Seq::empty())
}

pub open spec fn named_type(symbol: SymbolView) -> Tree {
    node(NodeKind::TypeName, None, Some(symbol), Seq::empty())
}

pub open spec fn bin_expr(operation: AbsBinOper, left: Tree, right: Tree) -> Tree {
    node(NodeKind::BinExpr(operation), None, None, seq![left, right])
}

pub open spec fn un_expr(operation: AbsUnOper, operand: Tree) -> Tree {
    node(NodeKind::UnExpr(operation), None, None, seq![operand])
}

pub open spec fn list(kind: NodeKind, members: Seq<Tree>) -> Tree {
    node(kind, None, None, members)
}

pub open spec fn atom_type(atom: AtomType, symbol: SymbolView) -> Tree {
    node(NodeKind::AtomType(atom), Some(symbol.position), None, Seq::empty())
}

/// The type of the empty block, written as two braces.
pub open spec fn void_type(open: SymbolView, close: SymbolView) -> Tree {
    node(NodeKind::AtomType(AtomType::VOID), between(open, close), None, Seq::empty())
}

/// The operator of a comparison symbol.
pub open spec fn comparison(token: Option<Token>) -> Option<AbsBinOper> {
    match token {
        Some(Token::EQU) => Some(AbsBinOper::EQU),
        Some(Token::NEQ) => Some(AbsBinOper::NEQ),
        Some(Token::LEQ) => Some(AbsBinOper::LEQ),
        Some(Token::GEQ) => Some(AbsBinOper::GEQ),
        Some(Token::LTH) => Some(AbsBinOper::LTH),
        Some(Token::GTH) => Some(AbsBinOper::GTH),
        _ => None,
    }
}

/// The operator of an additive symbol.
pub open spec fn additive(token: Option<Token>) -> Option<AbsBinOper> {
    match token {
        Some(Token::ADD) => Some(AbsBinOper::ADD),
        Some(Token::SUB) => Some(AbsBinOper::SUB),
        _ => None,
    }
}

/// The operator of a multiplicative symbol.
pub open spec fn multiplicative(token: Option<Token>) -> Option<AbsBinOper> {
    match token {
        Some(Token::MUL) => Some(AbsBinOper::MUL),
        Some(Token::DIV) => Some(AbsBinOper::DIV),
        Some(Token::MOD) => Some(AbsBinOper::MOD),
        _ => None,
    }
}

/// The operator of a prefix symbol.
pub open spec fn prefix(token: Option<Token>) -> Option<AbsUnOper> {
    match token {
        Some(Token::ADD) => Some(AbsUnOper::ADD),
        Some(Token::SUB) => Some(AbsUnOper::SUB),
        Some(Token::MUL) => Some(AbsUnOper::MUL),
        Some(Token::AND) => Some(AbsUnOper::AND),
        Some(Token::NOT) => Some(AbsUnOper::NOT),
        _ => None,
    }
}

/// The atomic type that a symbol names.
pub open spec fn atomic(token: Option<Token>) -> Option<AtomType> {
    match token {
        Some(Token::INT) => Some(AtomType::INT),
        Some(Token::REAL) => Some(AtomType::REAL),
        Some(Token::BOOL) => Some(AtomType::BOOL),
        Some(Token::STRING) => Some(AtomType::STRING),
        _ => None,
    }
}

/// The kinds of symbols that are literals.
pub open spec fn is_literal(token: Option<Token>) -> bool {
    token == Some(Token::INTCONST) || token == Some(Token::REALCONST) || token == Some(
        Token::BOOLCONST,
    ) || token == Some(Token::STRINGCONST)
}

/// The kinds of symbols that start a declaration.
pub open spec fn starts_declaration(token: Option<Token>) -> bool {
    token == Some(Token::TYP) || token == Some(Token::FUN) || token == Some(Token::VAR)
}

/// The operator `|`.
pub open spec fn disjunction(token: Option<Token>) -> Option<AbsBinOper> {
    match token {
        Some(Token::OR) => Some(AbsBinOper::OR),
        _ => None,
    }
}

/// The operator `&`.
pub open spec fn conjunction(token: Option<Token>) -> Option<AbsBinOper> {
    match token {
        Some(Token::AND) => Some(AbsBinOper::AND),
        _ => None,
    }
}

pub open spec fn fun_call(name: SymbolView, args: Tree) -> Tree {
    node(NodeKind::FunCall, None, None, seq![expr_name(name), args])
}

pub open spec fn where_expr(body: Tree, decls: Tree) -> Tree {
    node(NodeKind::WhereExpr, None, None, seq![body, decls])
}

pub open spec fn var_decl(name: SymbolView, of: Tree) -> Tree {
    node(NodeKind::VarDecl, None, None, seq![expr_name(name), of])
}

/// An expression behind `before`, which has left less than `s`.
pub open spec fn then_expression<T>(before: Parsed<T>, s: Seq<Item>) -> Parsed<Tree>
    decreases s.len(), 0nat,
{
    match before {
        Parsed::Done { value, rest } if rest.len() < s.len() => expression(rest),
        failed => Parsed::Failed(failed.failure()),
    }
}

/// A list of expressions behind `before`, which has left less than `s`.
pub open spec fn then_expressions<T>(before: Parsed<T>, s: Seq<Item>) -> Parsed<Tree>
    decreases s.len(), 0nat,
{
    match before {
        Parsed::Done { value, rest } if rest.len() < s.len() => expressions(rest),
        failed => Parsed::Failed(failed.failure()),
    }
}

/// A conjunction behind `before`, which has left less than `s`.
pub open spec fn then_and_expression<T>(before: Parsed<T>, s: Seq<Item>) -> Parsed<Tree>
    decreases s.len(), 0nat,
{
    match before {
        Parsed::Done { value, rest } if rest.len() < s.len() => and_expression(rest),
        failed => Parsed::Failed(failed.failure()),
    }
}

/// A comparison behind `before`, which has left less than `s`.
pub open spec fn then_relational_expression<T>(before: Parsed<T>, s: Seq<Item>) -> Parsed<Tree>
    decreases s.len(), 0nat,
{
    match before {
        Parsed::Done { value, rest } if rest.len() < s.len() => relational_expression(rest),
        failed => Parsed::Failed(failed.failure()),
    }
}

/// A sum behind `before`, which has left less than `s`.
pub open spec fn then_additive_expression<T>(before: Parsed<T>, s: Seq<Item>) -> Parsed<Tree>
    decreases s.len(), 0nat,
{
    match before {
        Parsed::Done { value, rest } if rest.len() < s.len() => additive_expression(rest),
        failed => Parsed::Failed(failed.failure()),
    }
}

/// A product behind `before`, which has left less than `s`.
pub open spec fn then_multiplicative_expression<T>(before: Parsed<T>, s: Seq<Item>) -> Parsed<Tree>
    decreases s.len(), 0nat,
{
    match before {
        Parsed::Done { value, rest } if rest.len() < s.len() => multiplicative_expression(rest),
        failed => Parsed::Failed(failed.failure()),
    }
}

/// A prefix expression behind `before`, which has left less than `s`.
pub open spec fn then_prefix_expression<T>(before: Parsed<T>, s: Seq<Item>) -> Parsed<Tree>
    decreases s.len(), 0nat,
{
    match before {
        Parsed::Done { value, rest } if rest.len() < s.len() => prefix_expression(rest),
        failed => Parsed::Failed(failed.failure()),
    }
}

/// A list of declarations behind `before`, which has left less than `s`.
pub open spec fn then_declarations<T>(before: Parsed<T>, s: Seq<Item>) -> Parsed<Tree>
    decreases s.len(), 0nat,
{
    match before {
        Parsed::Done { value, rest } if rest.len() < s.len() => declarations(rest),
        failed => Parsed::Failed(failed.failure()),
    }
}

/// A type behind `before`, which has left less than `s`.
pub open spec fn then_type_denotation<T>(before: Parsed<T>, s: Seq<Item>) -> Parsed<Tree>
    decreases s.len(), 0nat,
{
    match before {
        Parsed::Done { value, rest } if rest.len() < s.len() => type_denotation(rest),
        failed => Parsed::Failed(failed.failure()),
    }
}

/// A list of parameters behind `before`, which has left less than `s`.
pub open spec fn then_parameters<T>(before: Parsed<T>, s: Seq<Item>) -> Parsed<Tree>
    decreases s.len(), 0nat,
{
    match before {
        Parsed::Done { value, rest } if rest.len() < s.len() => parameters(rest),
        failed => Parsed::Failed(failed.failure()),
    }
}

/// A parameter behind `before`, which has left less than `s`.
pub open spec fn then_parameter<T>(before: Parsed<T>, s: Seq<Item>) -> Parsed<Tree>
    decreases s.len(), 0nat,
{
    match before {
        Parsed::Done { value, rest } if rest.len() < s.len() => parameter(rest),
        failed => Parsed::Failed(failed.failure()),
    }
}

/// What goes on with a disjunction behind its operand `left`, behind `before`,
/// which has left less than `s`.
pub open spec fn then_or_expression_rest<T>(
    before: Parsed<T>,
    left: Tree,
    s: Seq<Item>,
) -> Parsed<Tree>
    decreases s.len(), 0nat,
{
    match before {
        Parsed::Done { value, rest } if rest.len() < s.len() => or_expression_rest(
            left,
            rest,
        ),
        failed => Parsed::Failed(failed.failure()),
    }
}

/// What goes on with a conjunction behind its operand `left`, behind `before`,
/// which has left less than `s`.
pub open spec fn then_and_expression_rest<T>(
    before: Parsed<T>,
    left: Tree,
    s: Seq<Item>,
) -> Parsed<Tree>
    decreases s.len(), 0nat,
{
    match before {
        Parsed::Done { value, rest } if rest.len() < s.len() => and_expression_rest(
            left,
            rest,
        ),
        failed => Parsed::Failed(failed.failure()),
    }
}

/// What goes on with a sum behind its operand `left`, behind `before`,
/// which has left less than `s`.
pub open spec fn then_additive_expression_rest<T>(
    before: Parsed<T>,
    left: Tree,
    s: Seq<Item>,
) -> Parsed<Tree>
    decreases s.len(), 0nat,
{
    match before {
        Parsed::Done { value, rest } if rest.len() < s.len() => additive_expression_rest(
            left,
            rest,
        ),
        failed => Parsed::Failed(failed.failure()),
    }
}

/// What goes on with a product behind its operand `left`, behind `before`,
/// which has left less than `s`.
pub open spec fn then_multiplicative_expression_rest<T>(
    before: Parsed<T>,
    left: Tree,
    s: Seq<Item>,
) -> Parsed<Tree>
    decreases s.len(), 0nat,
{
    match before {
        Parsed::Done { value, rest } if rest.len() < s.len() => multiplicative_expression_rest(
            left,
            rest,
        ),
        failed => Parsed::Failed(failed.failure()),
    }
}

/// What goes on with the list `members` of expressions behind `before`, which has
/// left less than `s`.
pub open spec fn then_expressions_rest<T>(
    before: Parsed<T>,
    members: Seq<Tree>,
    s: Seq<Item>,
) -> Parsed<Seq<Tree>>
    decreases s.len(), 0nat,
{
    match before {
        Parsed::Done { value, rest } if rest.len() < s.len() => expressions_rest(members, rest),
        failed => Parsed::Failed(failed.failure()),
    }
}

/// What goes on with the list `members` of declarations behind `before`, which has
/// left less than `s`.
pub open spec fn then_declarations_rest<T>(
    before: Parsed<T>,
    members: Seq<Tree>,
    s: Seq<Item>,
) -> Parsed<Seq<Tree>>
    decreases s.len(), 0nat,
{
    match before {
        Parsed::Done { value, rest } if rest.len() < s.len() => declarations_rest(members, rest),
        failed => Parsed::Failed(failed.failure()),
    }
}

/// What goes on with the list `members` of parameters behind `before`, which has
/// left less than `s`.
pub open spec fn then_parameters_rest<T>(
    before: Parsed<T>,
    members: Seq<Tree>,
    s: Seq<Item>,
) -> Parsed<Seq<Tree>>
    decreases s.len(), 0nat,
{
    match before {
        Parsed::Done { value, rest } if rest.len() < s.len() => parameters_rest(members, rest),
        failed => Parsed::Failed(failed.failure()),
    }
}

/// What stands between two braces behind `before`, which has left less than
/// `s`.
pub open spec fn then_brace_expression(before: Parsed<SymbolView>, s: Seq<Item>) -> Parsed<Tree>
    decreases s.len(), 0nat,
{
    match before {
        Parsed::Done { value, rest } if rest.len() < s.len() => brace_expression(value, rest),
        failed => Parsed::Failed(failed.failure()),
    }
}

/// What is applied from behind to the expression `left`, behind `before`,
/// which has left less than `s`.
pub open spec fn then_postfix_expression_rest<T>(
    before: Parsed<T>,
    left: Tree,
    s: Seq<Item>,
) -> Parsed<Tree>
    decreases s.len(), 0nat,
{
    match before {
        Parsed::Done { value, rest } if rest.len() < s.len() => postfix_expression_rest(left, rest),
        failed => Parsed::Failed(failed.failure()),
    }
}

/// A source text: a list of expressions.
#[verifier::opaque]
pub open spec fn source(s: Seq<Item>) -> Parsed<Tree>
    decreases s.len(), 12nat,
{
    expressions(s)
}

/// A list of one or more expressions, separated by commas.
#[verifier::opaque]
pub open spec fn expressions(s: Seq<Item>) -> Parsed<Tree>
    decreases s.len(), 11nat,
{
    let first = expression(s);
    let members = then_expressions_rest(first, seq![first->value], s);
    finish(members, list(NodeKind::Exprs, members->value))
}

/// Goes on with a list of expressions as long as a comma follows.
#[verifier::opaque]
pub open spec fn expressions_rest(members: Seq<Tree>, s: Seq<Item>) -> Parsed<Seq<Tree>>
    decreases s.len(), 1nat,
{
    if head(s) == Some(Token::COMMA) {
        let separator = skip(s, Token::COMMA);
        let next = then_expression(separator, s);
        then_expressions_rest(next, members.push(next->value), s)
    } else {
        Parsed::Done { value: members, rest: s }
    }
}

/// An expression.
#[verifier::opaque]
pub open spec fn expression(s: Seq<Item>) -> Parsed<Tree>
    decreases s.len(), 10nat,
{
    or_expression(s)
}

/// A disjunction: operands joined by `|`, grouped from the left.
#[verifier::opaque]
pub open spec fn or_expression(s: Seq<Item>) -> Parsed<Tree>
    decreases s.len(), 9nat,
{
    let left = and_expression(s);
    then_or_expression_rest(left, left->value, s)
}

/// Goes on with a disjunction behind its operand `left`: as long as an operator
/// follows, `left` and the next operand become the new left operand.
#[verifier::opaque]
pub open spec fn or_expression_rest(left: Tree, s: Seq<Item>) -> Parsed<Tree>
    decreases s.len(), 1nat,
{
    match disjunction(head(s)) {
        Some(operation) => {
            let operator = skip(s, head(s)->Some_0);
            let right = then_and_expression(operator, s);
            then_or_expression_rest(right, bin_expr(operation, left, right->value), s)
        },
        None => Parsed::Done { value: left, rest: s },
    }
}

/// A conjunction: operands joined by `&`, grouped from the left.
#[verifier::opaque]
pub open spec fn and_expression(s: Seq<Item>) -> Parsed<Tree>
    decreases s.len(), 8nat,
{
    let left = relational_expression(s);
    then_and_expression_rest(left, left->value, s)
}

/// Goes on with a conjunction behind its operand `left`: as long as an operator
/// follows, `left` and the next operand become the new left operand.
#[verifier::opaque]
pub open spec fn and_expression_rest(left: Tree, s: Seq<Item>) -> Parsed<Tree>
    decreases s.len(), 1nat,
{
    match conjunction(head(s)) {
        Some(operation) => {
            let operator = skip(s, head(s)->Some_0);
            let right = then_relational_expression(operator, s);
            then_and_expression_rest(right, bin_expr(operation, left, right->value), s)
        },
        None => Parsed::Done { value: left, rest: s },
    }
}

/// A comparison: one additive expression, or two with a comparison operator
/// between them. Comparisons do not chain.
#[verifier::opaque]
pub open spec fn relational_expression(s: Seq<Item>) -> Parsed<Tree>
    decreases s.len(), 7nat,
{
    let left = additive_expression(s);
    match comparison(head(left.left())) {
        Some(operation) => {
            let operator = then_skip(left, head(left.left())->Some_0);
            let right = then_additive_expression(operator, s);
            finish(right, bin_expr(operation, left->value, right->value))
        },
        None => left,
    }
}

/// A sum: operands joined by `+` or `-`, grouped from the left.
#[verifier::opaque]
pub open spec fn additive_expression(s: Seq<Item>) -> Parsed<Tree>
    decreases s.len(), 6nat,
{
    let left = multiplicative_expression(s);
    then_additive_expression_rest(left, left->value, s)
}

/// Goes on with a sum behind its operand `left`: as long as an operator
/// follows, `left` and the next operand become the new left operand.
#[verifier::opaque]
pub open spec fn additive_expression_rest(left: Tree, s: Seq<Item>) -> Parsed<Tree>
    decreases s.len(), 1nat,
{
    match additive(head(s)) {
        Some(operation) => {
            let operator = skip(s, head(s)->Some_0);
            let right = then_multiplicative_expression(operator, s);
            then_additive_expression_rest(right, bin_expr(operation, left, right->value), s)
        },
        None => Parsed::Done { value: left, rest: s },
    }
}

/// A product: operands joined by `*`, `/` or `%`, grouped from the left.
#[verifier::opaque]
pub open spec fn multiplicative_expression(s: Seq<Item>) -> Parsed<Tree>
    decreases s.len(), 5nat,
{
    let left = prefix_expression(s);
    then_multiplicative_expression_rest(left, left->value, s)
}

/// Goes on with a product behind its operand `left`: as long as an operator
/// follows, `left` and the next operand become the new left operand.
#[verifier::opaque]
pub open spec fn multiplicative_expression_rest(left: Tree, s: Seq<Item>) -> Parsed<Tree>
    decreases s.len(), 1nat,
{
    match multiplicative(head(s)) {
        Some(operation) => {
            let operator = skip(s, head(s)->Some_0);
            let right = then_prefix_expression(operator, s);
            then_multiplicative_expression_rest(right, bin_expr(operation, left, right->value), s)
        },
        None => Parsed::Done { value: left, rest: s },
    }
}

/// A postfix expression behind any number of prefix operators.
#[verifier::opaque]
pub open spec fn prefix_expression(s: Seq<Item>) -> Parsed<Tree>
    decreases s.len(), 4nat,
{
    match prefix(head(s)) {
        Some(operation) => {
            let operator = skip(s, head(s)->Some_0);
            let operand = then_prefix_expression(operator, s);
            finish(operand, un_expr(operation, operand->value))
        },
        None => postfix_expression(s),
    }
}

/// A literal, a name, a function call, a list of expressions in
/// parentheses or a block in braces, and what is applied to it from behind.
#[verifier::opaque]
pub open spec fn postfix_expression(s: Seq<Item>) -> Parsed<Tree>
    decreases s.len(), 3nat,
{
    if is_literal(head(s)) {
        let literal = skip(s, head(s)->Some_0);
        then_postfix_expression_rest(literal, atom_expr(literal->value), s)
    } else if head(s) == Some(Token::IDENTIFIER) {
        let name = skip(s, Token::IDENTIFIER);
        if head(name.left()) == Some(Token::LPARENT) {
            let open = then_skip(name, Token::LPARENT);
            let args = then_expressions(open, s);
            let close = then_skip(args, Token::RPARENT);
            then_postfix_expression_rest(close, fun_call(name->value, args->value), s)
        } else {
            then_postfix_expression_rest(name, expr_name(name->value), s)
        }
    } else if head(s) == Some(Token::LPARENT) {
        let open = skip(s, Token::LPARENT);
        let inner = then_expressions(open, s);
        let close = then_skip(inner, Token::RPARENT);
        then_postfix_expression_rest(close, inner->value, s)
    } else if head(s) == Some(Token::LBRACE) {
        let open = skip(s, Token::LBRACE);
        let block = then_brace_expression(open, s);
        then_postfix_expression_rest(block, block->value, s)
    } else {
        Parsed::Failed(unexpected(s))
    }
}

/// Goes on with a postfix expression behind `left`: component access,
/// indexing and `where` apply to what stands before them.
#[verifier::opaque]
pub open spec fn postfix_expression_rest(left: Tree, s: Seq<Item>) -> Parsed<Tree>
    decreases s.len(), 1nat,
{
    if head(s) == Some(Token::DOT) {
        let dot = skip(s, Token::DOT);
        let name = then_skip(dot, Token::IDENTIFIER);
        then_postfix_expression_rest(
            name,
            bin_expr(AbsBinOper::REC, left, expr_name(name->value)),
            s,
        )
    } else if head(s) == Some(Token::LBRACKET) {
        let open = skip(s, Token::LBRACKET);
        let index = then_expression(open, s);
        let close = then_skip(index, Token::RBRACKET);
        then_postfix_expression_rest(close, bin_expr(AbsBinOper::ARR, left, index->value), s)
    } else if head(s) == Some(Token::WHERE) {
        let word = skip(s, Token::WHERE);
        let decls = then_declarations(word, s);
        then_postfix_expression_rest(decls, where_expr(left, decls->value), s)
    } else {
        Parsed::Done { value: left, rest: s }
    }
}

/// What stands behind the opening brace `open`, and the closing brace:
/// nothing, an assignment, a conditional or a loop.
#[verifier::opaque]
pub open spec fn brace_expression(open: SymbolView, s: Seq<Item>) -> Parsed<Tree>
    decreases s.len(), 2nat,
{
    if head(s) == Some(Token::RBRACE) {
        let close = skip(s, Token::RBRACE);
        finish(close, void_expr(open, close->value))
    } else if head(s) == Some(Token::IDENTIFIER) {
        assignment(s)
    } else if head(s) == Some(Token::IF) {
        conditional(s)
    } else if head(s) == Some(Token::FOR) {
        for_loop(s)
    } else if head(s) == Some(Token::WHILE) {
        while_loop(s)
    } else {
        Parsed::Failed(unexpected(s))
    }
}

/// name `=` expression `}`
#[verifier::opaque]
pub open spec fn assignment(s: Seq<Item>) -> Parsed<Tree>
    decreases s.len(), 1nat,
{
    let name = skip(s, Token::IDENTIFIER);
    let sign = then_skip(name, Token::ASSIGN);
    let right = then_expression(sign, s);
    let close = then_skip(right, Token::RBRACE);
    finish(
        close,
        node(NodeKind::AssignStmt, None, None, seq![expr_name(name->value), right->value]),
    )
}

/// `if` expression `then` expressions, an optional `else` expressions, `}`
#[verifier::opaque]
pub open spec fn conditional(s: Seq<Item>) -> Parsed<Tree>
    decreases s.len(), 1nat,
{
    let word = skip(s, Token::IF);
    let condition = then_expression(word, s);
    let then_word = then_skip(condition, Token::THEN);
    let then_part = then_expressions(then_word, s);
    if head(then_part.left()) == Some(Token::ELSE) {
        let else_word = then_skip(then_part, Token::ELSE);
        let else_part = then_expressions(else_word, s);
        let close = then_skip(else_part, Token::RBRACE);
        finish(
            close,
            node(
                NodeKind::IfStmt,
                None,
                None,
                seq![condition->value, then_part->value, else_part->value],
            ),
        )
    } else {
        let close = then_skip(then_part, Token::RBRACE);
        finish(close, node(NodeKind::IfStmt, None, None, seq![condition->value, then_part->value]))
    }
}

/// `for` name `=` expression `,` expression `:` expressions `}`
#[verifier::opaque]
pub open spec fn for_loop(s: Seq<Item>) -> Parsed<Tree>
    decreases s.len(), 1nat,
{
    let word = skip(s, Token::FOR);
    let name = then_skip(word, Token::IDENTIFIER);
    let sign = then_skip(name, Token::ASSIGN);
    let lower = then_expression(sign, s);
    let comma = then_skip(lower, Token::COMMA);
    let upper = then_expression(comma, s);
    let colon = then_skip(upper, Token::COLON);
    let body = then_expressions(colon, s);
    let close = then_skip(body, Token::RBRACE);
    finish(
        close,
        node(
            NodeKind::ForStmt,
            None,
            None,
            seq![expr_name(name->value), lower->value, upper->value, body->value],
        ),
    )
}

/// `while` expression `:` expressions `}`
#[verifier::opaque]
pub open spec fn while_loop(s: Seq<Item>) -> Parsed<Tree>
    decreases s.len(), 1nat,
{
    let word = skip(s, Token::WHILE);
    let condition = then_expression(word, s);
    let colon = then_skip(condition, Token::COLON);
    let body = then_expressions(colon, s);
    let close = then_skip(body, Token::RBRACE);
    finish(close, node(NodeKind::WhileStmt, None, None, seq![condition->value, body->value]))
}

/// A list of one or more declarations.
#[verifier::opaque]
pub open spec fn declarations(s: Seq<Item>) -> Parsed<Tree>
    decreases s.len(), 5nat,
{
    let first = declaration(s);
    let members = then_declarations_rest(first, seq![first->value], s);
    finish(members, list(NodeKind::Decls, members->value))
}

/// Goes on with a list of declarations as long as a declaration follows.
#[verifier::opaque]
pub open spec fn declarations_rest(members: Seq<Tree>, s: Seq<Item>) -> Parsed<Seq<Tree>>
    decreases s.len(), 5nat,
{
    if starts_declaration(head(s)) {
        let next = declaration(s);
        then_declarations_rest(next, members.push(next->value), s)
    } else {
        Parsed::Done { value: members, rest: s }
    }
}

/// A declaration of a type, a function or a variable.
#[verifier::opaque]
pub open spec fn declaration(s: Seq<Item>) -> Parsed<Tree>
    decreases s.len(), 3nat,
{
    if head(s) == Some(Token::TYP) {
        type_declaration(s)
    } else if head(s) == Some(Token::FUN) {
        function_declaration(s)
    } else if head(s) == Some(Token::VAR) {
        variable_declaration(s)
    } else {
        Parsed::Failed(unexpected(s))
    }
}

/// `typ` name `:` type `;`
#[verifier::opaque]
pub open spec fn type_declaration(s: Seq<Item>) -> Parsed<Tree>
    decreases s.len(), 1nat,
{
    let word = skip(s, Token::TYP);
    let name = then_skip(word, Token::IDENTIFIER);
    let colon = then_skip(name, Token::COLON);
    let source = then_type_denotation(colon, s);
    let end = then_skip(source, Token::SEMIC);
    finish(end, node(NodeKind::TypeDecl, None, None, seq![named_type(name->value), source->value]))
}

/// `var` name `:` type `;`
#[verifier::opaque]
pub open spec fn variable_declaration(s: Seq<Item>) -> Parsed<Tree>
    decreases s.len(), 1nat,
{
    let word = skip(s, Token::VAR);
    let name = then_skip(word, Token::IDENTIFIER);
    let colon = then_skip(name, Token::COLON);
    let of = then_type_denotation(colon, s);
    let end = then_skip(of, Token::SEMIC);
    finish(end, var_decl(name->value, of->value))
}

/// `fun` name `(` parameters `)` `:` type `=` expressions `;`
#[verifier::opaque]
pub open spec fn function_declaration(s: Seq<Item>) -> Parsed<Tree>
    decreases s.len(), 1nat,
{
    let word = skip(s, Token::FUN);
    let name = then_skip(word, Token::IDENTIFIER);
    let open = then_skip(name, Token::LPARENT);
    let params = then_parameters(open, s);
    let close = then_skip(params, Token::RPARENT);
    let colon = then_skip(close, Token::COLON);
    let result = then_type_denotation(colon, s);
    let sign = then_skip(result, Token::ASSIGN);
    let body = then_expressions(sign, s);
    let end = then_skip(body, Token::SEMIC);
    finish(
        end,
        node(
            NodeKind::FunDecl,
            None,
            None,
            seq![expr_name(name->value), params->value, result->value, body->value],
        ),
    )
}

/// The parameters of a function, or the components of a record: one or
/// more, separated by commas.
#[verifier::opaque]
pub open spec fn parameters(s: Seq<Item>) -> Parsed<Tree>
    decreases s.len(), 2nat,
{
    let first = parameter(s);
    let members = then_parameters_rest(first, seq![first->value], s);
    finish(members, list(NodeKind::Decls, members->value))
}

/// Goes on with a list of parameters as long as a comma follows.
#[verifier::opaque]
pub open spec fn parameters_rest(members: Seq<Tree>, s: Seq<Item>) -> Parsed<Seq<Tree>>
    decreases s.len(), 1nat,
{
    if head(s) == Some(Token::COMMA) {
        let separator = skip(s, Token::COMMA);
        let next = then_parameter(separator, s);
        then_parameters_rest(next, members.push(next->value), s)
    } else {
        Parsed::Done { value: members, rest: s }
    }
}

/// name `:` type
#[verifier::opaque]
pub open spec fn parameter(s: Seq<Item>) -> Parsed<Tree>
    decreases s.len(), 1nat,
{
    let name = skip(s, Token::IDENTIFIER);
    let colon = then_skip(name, Token::COLON);
    let of = then_type_denotation(colon, s);
    finish(of, var_decl(name->value, of->value))
}

/// A type: the name of an atomic type, two braces for the type of the
/// empty block, the name of a declared type, a pointer type, an array type, a
/// record type, or a type in parentheses.
#[verifier::opaque]
pub open spec fn type_denotation(s: Seq<Item>) -> Parsed<Tree>
    decreases s.len(), 1nat,
{
    match atomic(head(s)) {
        Some(atom) => {
            let word = skip(s, head(s)->Some_0);
            finish(word, atom_type(atom, word->value))
        },
        None => if head(s) == Some(Token::LBRACE) {
            let open = skip(s, Token::LBRACE);
            let close = then_skip(open, Token::RBRACE);
            finish(close, void_type(open->value, close->value))
        } else if head(s) == Some(Token::IDENTIFIER) {
            let name = skip(s, Token::IDENTIFIER);
            finish(name, named_type(name->value))
        } else if head(s) == Some(Token::MUL) {
            let star = skip(s, Token::MUL);
            let pointee = then_type_denotation(star, s);
            finish(
                pointee,
                node(NodeKind::PointerType, Some(star->value.position), None, seq![pointee->value]),
            )
        } else if head(s) == Some(Token::ARR) {
            let word = skip(s, Token::ARR);
            let open = then_skip(word, Token::LBRACKET);
            let size = then_expression(open, s);
            let close = then_skip(size, Token::RBRACKET);
            let element = then_type_denotation(close, s);
            finish(
                element,
                node(
                    NodeKind::ArrType,
                    Some(word->value.position),
                    None,
                    seq![size->value, element->value],
                ),
            )
        } else if head(s) == Some(Token::REC) {
            let word = skip(s, Token::REC);
            let open = then_skip(word, Token::LPARENT);
            let components = then_parameters(open, s);
            let close = then_skip(components, Token::RPARENT);
            finish(
                close,
                node(
                    NodeKind::RecType,
                    Some(word->value.position),
                    None,
                    seq![components->value],
                ),
            )
        } else if head(s) == Some(Token::LPARENT) {
            let open = skip(s, Token::LPARENT);
            let inner = then_type_denotation(open, s);
            let close = then_skip(inner, Token::RPARENT);
            finish(close, inner->value)
        } else {
            Parsed::Failed(unexpected(s))
        },
    }
}

/// What the analysis of a whole source text comes to.
pub enum Program {
    /// The text holds no symbol.
    Empty,
    /// The tree of the text.
    Tree(Tree),
    /// The first failure.
    Failed(Failure),
}

/// The analysis of a whole stream: a list of expressions that leaves
/// nothing behind.
pub open spec fn program(s: Seq<Item>) -> Program {
    if s.len() == 0 {
        Program::Empty
    } else if s[0] is Fault {
        Program::Failed(unexpected(s))
    } else {
        match source(s) {
            Parsed::Done { value, rest } => if rest.len() == 0 {
                Program::Tree(value)
            } else {
                Program::Failed(unexpected(rest))
            },
            Parsed::Failed(failure) => Program::Failed(failure),
        }
    }
}

} // verus!
