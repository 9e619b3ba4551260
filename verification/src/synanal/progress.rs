//! Every production takes at least one symbol.
//!
//! The definitions of the productions rest on this where one production goes
//! on with what another has left. Here it is proved of every production and
//! every stream, so that the condition in those definitions never decides
//! anything.
//!
//! Each proof runs in a prover of its own, which keeps the definitions that
//! one proof unfolds out of the way of the others.

use crate::abstree::abs_expr::AbsBinOper;
use crate::abstree::tree::Tree;
use crate::lexanal::symbol::{SymbolView, Token};
use crate::synanal::grammar::{
    additive, additive_expression, additive_expression_rest, and_expression, and_expression_rest,
    assignment, atom_expr, atomic, bin_expr, brace_expression, comparison, conditional,
    conjunction, declaration, declarations, declarations_rest, disjunction, expr_name, expression,
    expressions, expressions_rest, for_loop, fun_call, function_declaration, head, is_literal,
    Item, multiplicative, multiplicative_expression, multiplicative_expression_rest,
    or_expression, or_expression_rest, parameter, parameters, parameters_rest, Parsed,
    postfix_expression, postfix_expression_rest, prefix, prefix_expression, relational_expression,
    skip, source, starts_declaration, then_additive_expression, then_additive_expression_rest,
    then_and_expression, then_and_expression_rest, then_brace_expression, then_declarations,
    then_declarations_rest, then_expression, then_expressions, then_expressions_rest,
    then_multiplicative_expression, then_multiplicative_expression_rest, then_or_expression_rest,
    then_parameter, then_parameters, then_parameters_rest, then_postfix_expression_rest,
    then_prefix_expression, then_relational_expression, then_skip, then_type_denotation,
    type_declaration, type_denotation, variable_declaration, where_expr, while_loop,
};
use vstd::prelude::*;

verus! {

/// What `then_expression` leaves is shorter than `s`.
#[verifier::spinoff_prover]
pub proof fn lemma_then_expression_consumes<T>(before: Parsed<T>, s: Seq<Item>)
    ensures
        then_expression(before, s) matches Parsed::Done { value, rest } ==> rest.len() < s.len(),
    decreases s.len(), 0nat,
{
    match before {
        Parsed::Done { value, rest } if rest.len() < s.len() => {
            lemma_expression_consumes(rest);
        },
        _ => {},
    }
}

/// What `then_expressions` leaves is shorter than `s`.
#[verifier::spinoff_prover]
pub proof fn lemma_then_expressions_consumes<T>(before: Parsed<T>, s: Seq<Item>)
    ensures
        then_expressions(before, s) matches Parsed::Done { value, rest } ==> rest.len() < s.len(),
    decreases s.len(), 0nat,
{
    match before {
        Parsed::Done { value, rest } if rest.len() < s.len() => {
            lemma_expressions_consumes(rest);
        },
        _ => {},
    }
}

/// What `then_and_expression` leaves is shorter than `s`.
#[verifier::spinoff_prover]
pub proof fn lemma_then_and_expression_consumes<T>(before: Parsed<T>, s: Seq<Item>)
    ensures
        then_and_expression(before, s) matches Parsed::Done { value, rest }
            ==> rest.len() < s.len(),
    decreases s.len(), 0nat,
{
    match before {
        Parsed::Done { value, rest } if rest.len() < s.len() => {
            lemma_and_expression_consumes(rest);
        },
        _ => {},
    }
}

/// What `then_relational_expression` leaves is shorter than `s`.
#[verifier::spinoff_prover]
pub proof fn lemma_then_relational_expression_consumes<T>(before: Parsed<T>, s: Seq<Item>)
    ensures
        then_relational_expression(before, s) matches Parsed::Done { value, rest }
            ==> rest.len() < s.len(),
    decreases s.len(), 0nat,
{
    match before {
        Parsed::Done { value, rest } if rest.len() < s.len() => {
            lemma_relational_expression_consumes(rest);
        },
        _ => {},
    }
}

/// What `then_additive_expression` leaves is shorter than `s`.
#[verifier::spinoff_prover]
pub proof fn lemma_then_additive_expression_consumes<T>(before: Parsed<T>, s: Seq<Item>)
    ensures
        then_additive_expression(before, s) matches Parsed::Done { value, rest }
            ==> rest.len() < s.len(),
    decreases s.len(), 0nat,
{
    match before {
        Parsed::Done { value, rest } if rest.len() < s.len() => {
            lemma_additive_expression_consumes(rest);
        },
        _ => {},
    }
}

/// What `then_multiplicative_expression` leaves is shorter than `s`.
#[verifier::spinoff_prover]
pub proof fn lemma_then_multiplicative_expression_consumes<T>(before: Parsed<T>, s: Seq<Item>)
    ensures
        then_multiplicative_expression(before, s) matches Parsed::Done { value, rest }
            ==> rest.len() < s.len(),
    decreases s.len(), 0nat,
{
    match before {
        Parsed::Done { value, rest } if rest.len() < s.len() => {
            lemma_multiplicative_expression_consumes(rest);
        },
        _ => {},
    }
}

/// What `then_prefix_expression` leaves is shorter than `s`.
#[verifier::spinoff_prover]
pub proof fn lemma_then_prefix_expression_consumes<T>(before: Parsed<T>, s: Seq<Item>)
    ensures
        then_prefix_expression(before, s) matches Parsed::Done { value, rest }
            ==> rest.len() < s.len(),
    decreases s.len(), 0nat,
{
    match before {
        Parsed::Done { value, rest } if rest.len() < s.len() => {
            lemma_prefix_expression_consumes(rest);
        },
        _ => {},
    }
}

/// What `then_declarations` leaves is shorter than `s`.
#[verifier::spinoff_prover]
pub proof fn lemma_then_declarations_consumes<T>(before: Parsed<T>, s: Seq<Item>)
    ensures
        then_declarations(before, s) matches Parsed::Done { value, rest } ==> rest.len() < s.len(),
    decreases s.len(), 0nat,
{
    match before {
        Parsed::Done { value, rest } if rest.len() < s.len() => {
            lemma_declarations_consumes(rest);
        },
        _ => {},
    }
}

/// What `then_type_denotation` leaves is shorter than `s`.
#[verifier::spinoff_prover]
pub proof fn lemma_then_type_denotation_consumes<T>(before: Parsed<T>, s: Seq<Item>)
    ensures
        then_type_denotation(before, s) matches Parsed::Done { value, rest }
            ==> rest.len() < s.len(),
    decreases s.len(), 0nat,
{
    match before {
        Parsed::Done { value, rest } if rest.len() < s.len() => {
            lemma_type_denotation_consumes(rest);
        },
        _ => {},
    }
}

/// What `then_parameters` leaves is shorter than `s`.
#[verifier::spinoff_prover]
pub proof fn lemma_then_parameters_consumes<T>(before: Parsed<T>, s: Seq<Item>)
    ensures
        then_parameters(before, s) matches Parsed::Done { value, rest } ==> rest.len() < s.len(),
    decreases s.len(), 0nat,
{
    match before {
        Parsed::Done { value, rest } if rest.len() < s.len() => {
            lemma_parameters_consumes(rest);
        },
        _ => {},
    }
}

/// What `then_parameter` leaves is shorter than `s`.
#[verifier::spinoff_prover]
pub proof fn lemma_then_parameter_consumes<T>(before: Parsed<T>, s: Seq<Item>)
    ensures
        then_parameter(before, s) matches Parsed::Done { value, rest } ==> rest.len() < s.len(),
    decreases s.len(), 0nat,
{
    match before {
        Parsed::Done { value, rest } if rest.len() < s.len() => {
            lemma_parameter_consumes(rest);
        },
        _ => {},
    }
}

/// What `then_or_expression_rest` leaves is shorter than `s`.
#[verifier::spinoff_prover]
pub proof fn lemma_then_or_expression_rest_consumes<T>(before: Parsed<T>, left: Tree, s: Seq<Item>)
    ensures
        then_or_expression_rest(before, left, s) matches Parsed::Done { value, rest }
            ==> rest.len() < s.len(),
    decreases s.len(), 0nat,
{
    match before {
        Parsed::Done { value, rest } if rest.len() < s.len() => {
            lemma_or_expression_rest_consumes(
                left,
                rest,
            );
        },
        _ => {},
    }
}

/// What `then_and_expression_rest` leaves is shorter than `s`.
#[verifier::spinoff_prover]
pub proof fn lemma_then_and_expression_rest_consumes<T>(before: Parsed<T>, left: Tree, s: Seq<Item>)
    ensures
        then_and_expression_rest(before, left, s) matches Parsed::Done { value, rest }
            ==> rest.len() < s.len(),
    decreases s.len(), 0nat,
{
    match before {
        Parsed::Done { value, rest } if rest.len() < s.len() => {
            lemma_and_expression_rest_consumes(
                left,
                rest,
            );
        },
        _ => {},
    }
}

/// What `then_additive_expression_rest` leaves is shorter than `s`.
#[verifier::spinoff_prover]
pub proof fn lemma_then_additive_expression_rest_consumes<T>(
    before: Parsed<T>,
    left: Tree,
    s: Seq<Item>,
)
    ensures
        then_additive_expression_rest(before, left, s) matches Parsed::Done { value, rest }
            ==> rest.len() < s.len(),
    decreases s.len(), 0nat,
{
    match before {
        Parsed::Done { value, rest } if rest.len() < s.len() => {
            lemma_additive_expression_rest_consumes(
                left,
                rest,
            );
        },
        _ => {},
    }
}

/// What `then_multiplicative_expression_rest` leaves is shorter than `s`.
#[verifier::spinoff_prover]
pub proof fn lemma_then_multiplicative_expression_rest_consumes<T>(
    before: Parsed<T>,
    left: Tree,
    s: Seq<Item>,
)
    ensures
        then_multiplicative_expression_rest(before, left, s) matches Parsed::Done { value, rest }
            ==> rest.len() < s.len(),
    decreases s.len(), 0nat,
{
    match before {
        Parsed::Done { value, rest } if rest.len() < s.len() => {
            lemma_multiplicative_expression_rest_consumes(
                left,
                rest,
            );
        },
        _ => {},
    }
}

/// What `then_expressions_rest` leaves is shorter than `s`.
#[verifier::spinoff_prover]
pub proof fn lemma_then_expressions_rest_consumes<T>(
    before: Parsed<T>,
    members: Seq<Tree>,
    s: Seq<Item>,
)
    ensures
        then_expressions_rest(before, members, s) matches Parsed::Done { value, rest }
            ==> rest.len() < s.len(),
    decreases s.len(), 0nat,
{
    match before {
        Parsed::Done { value, rest } if rest.len() < s.len() => {
            lemma_expressions_rest_consumes(members, rest);
        },
        _ => {},
    }
}

/// What `then_declarations_rest` leaves is shorter than `s`.
#[verifier::spinoff_prover]
pub proof fn lemma_then_declarations_rest_consumes<T>(
    before: Parsed<T>,
    members: Seq<Tree>,
    s: Seq<Item>,
)
    ensures
        then_declarations_rest(before, members, s) matches Parsed::Done { value, rest }
            ==> rest.len() < s.len(),
    decreases s.len(), 0nat,
{
    match before {
        Parsed::Done { value, rest } if rest.len() < s.len() => {
            lemma_declarations_rest_consumes(members, rest);
        },
        _ => {},
    }
}

/// What `then_parameters_rest` leaves is shorter than `s`.
#[verifier::spinoff_prover]
pub proof fn lemma_then_parameters_rest_consumes<T>(
    before: Parsed<T>,
    members: Seq<Tree>,
    s: Seq<Item>,
)
    ensures
        then_parameters_rest(before, members, s) matches Parsed::Done { value, rest }
            ==> rest.len() < s.len(),
    decreases s.len(), 0nat,
{
    match before {
        Parsed::Done { value, rest } if rest.len() < s.len() => {
            lemma_parameters_rest_consumes(members, rest);
        },
        _ => {},
    }
}

/// What `then_brace_expression` leaves is shorter than `s`.
#[verifier::spinoff_prover]
pub proof fn lemma_then_brace_expression_consumes(before: Parsed<SymbolView>, s: Seq<Item>)
    ensures
        then_brace_expression(before, s) matches Parsed::Done { value, rest }
            ==> rest.len() < s.len(),
    decreases s.len(), 0nat,
{
    match before {
        Parsed::Done { value, rest } if rest.len() < s.len() => {
            lemma_brace_expression_consumes(value, rest);
        },
        _ => {},
    }
}

/// What `then_postfix_expression_rest` leaves is shorter than `s`.
#[verifier::spinoff_prover]
pub proof fn lemma_then_postfix_expression_rest_consumes<T>(
    before: Parsed<T>,
    left: Tree,
    s: Seq<Item>,
)
    ensures
        then_postfix_expression_rest(before, left, s) matches Parsed::Done { value, rest }
            ==> rest.len() < s.len(),
    decreases s.len(), 0nat,
{
    match before {
        Parsed::Done { value, rest } if rest.len() < s.len() => {
            lemma_postfix_expression_rest_consumes(left, rest);
        },
        _ => {},
    }
}

/// `source` takes at least one symbol.
#[verifier::spinoff_prover]
pub proof fn lemma_source_consumes(s: Seq<Item>)
    ensures
        source(s) matches Parsed::Done { value, rest } ==> rest.len() < s.len(),
    decreases s.len(), 12nat,
{
    reveal(source);
    lemma_expressions_consumes(s);
}

/// `expressions` takes at least one symbol.
#[verifier::spinoff_prover]
pub proof fn lemma_expressions_consumes(s: Seq<Item>)
    ensures
        expressions(s) matches Parsed::Done { value, rest } ==> rest.len() < s.len(),
    decreases s.len(), 11nat,
{
    reveal(expressions);
    lemma_expression_consumes(s);
    let first = expression(s);
    lemma_then_expressions_rest_consumes(first, seq![first->value], s);
    let members = then_expressions_rest(first, seq![first->value], s);
}

/// What `expressions_rest` leaves is no longer than what it was given.
#[verifier::spinoff_prover]
pub proof fn lemma_expressions_rest_consumes(members: Seq<Tree>, s: Seq<Item>)
    ensures
        expressions_rest(members, s) matches Parsed::Done { value, rest } ==> rest.len() <= s.len(),
    decreases s.len(), 1nat,
{
    reveal(expressions_rest);
    if head(s) == Some(Token::COMMA) {
        let separator = skip(s, Token::COMMA);
        lemma_then_expression_consumes(separator, s);
        let next = then_expression(separator, s);
        lemma_then_expressions_rest_consumes(next, members.push(next->value), s);
    }
}

/// `expression` takes at least one symbol.
#[verifier::spinoff_prover]
pub proof fn lemma_expression_consumes(s: Seq<Item>)
    ensures
        expression(s) matches Parsed::Done { value, rest } ==> rest.len() < s.len(),
    decreases s.len(), 10nat,
{
    reveal(expression);
    lemma_or_expression_consumes(s);
}

/// `or_expression` takes at least one symbol.
#[verifier::spinoff_prover]
pub proof fn lemma_or_expression_consumes(s: Seq<Item>)
    ensures
        or_expression(s) matches Parsed::Done { value, rest } ==> rest.len() < s.len(),
    decreases s.len(), 9nat,
{
    reveal(or_expression);
    lemma_and_expression_consumes(s);
    let left = and_expression(s);
    lemma_then_or_expression_rest_consumes(left, left->value, s);
}

/// What `or_expression_rest` leaves is no longer than what it was given.
#[verifier::spinoff_prover]
pub proof fn lemma_or_expression_rest_consumes(left: Tree, s: Seq<Item>)
    ensures
        or_expression_rest(left, s) matches Parsed::Done { value, rest } ==> rest.len() <= s.len(),
    decreases s.len(), 1nat,
{
    reveal(or_expression_rest);
    match disjunction(head(s)) {
        Some(operation) => {
            let operator = skip(s, head(s)->Some_0);
            lemma_then_and_expression_consumes(operator, s);
            let right = then_and_expression(operator, s);
            lemma_then_or_expression_rest_consumes(
                right,
                bin_expr(operation, left, right->value),
                s,
            );
        },
        None => {},
    }
}

/// `and_expression` takes at least one symbol.
#[verifier::spinoff_prover]
pub proof fn lemma_and_expression_consumes(s: Seq<Item>)
    ensures
        and_expression(s) matches Parsed::Done { value, rest } ==> rest.len() < s.len(),
    decreases s.len(), 8nat,
{
    reveal(and_expression);
    lemma_relational_expression_consumes(s);
    let left = relational_expression(s);
    lemma_then_and_expression_rest_consumes(left, left->value, s);
}

/// What `and_expression_rest` leaves is no longer than what it was given.
#[verifier::spinoff_prover]
pub proof fn lemma_and_expression_rest_consumes(left: Tree, s: Seq<Item>)
    ensures
        and_expression_rest(left, s) matches Parsed::Done { value, rest } ==> rest.len() <= s.len(),
    decreases s.len(), 1nat,
{
    reveal(and_expression_rest);
    match conjunction(head(s)) {
        Some(operation) => {
            let operator = skip(s, head(s)->Some_0);
            lemma_then_relational_expression_consumes(operator, s);
            let right = then_relational_expression(operator, s);
            lemma_then_and_expression_rest_consumes(
                right,
                bin_expr(operation, left, right->value),
                s,
            );
        },
        None => {},
    }
}

/// `relational_expression` takes at least one symbol.
#[verifier::spinoff_prover]
pub proof fn lemma_relational_expression_consumes(s: Seq<Item>)
    ensures
        relational_expression(s) matches Parsed::Done { value, rest } ==> rest.len() < s.len(),
    decreases s.len(), 7nat,
{
    reveal(relational_expression);
    lemma_additive_expression_consumes(s);
    let left = additive_expression(s);
    match comparison(head(left.left())) {
        Some(operation) => {
            let operator = then_skip(left, head(left.left())->Some_0);
            lemma_then_additive_expression_consumes(operator, s);
            let right = then_additive_expression(operator, s);
        },
        None => {},
    }
}

/// `additive_expression` takes at least one symbol.
#[verifier::spinoff_prover]
pub proof fn lemma_additive_expression_consumes(s: Seq<Item>)
    ensures
        additive_expression(s) matches Parsed::Done { value, rest } ==> rest.len() < s.len(),
    decreases s.len(), 6nat,
{
    reveal(additive_expression);
    lemma_multiplicative_expression_consumes(s);
    let left = multiplicative_expression(s);
    lemma_then_additive_expression_rest_consumes(left, left->value, s);
}

/// What `additive_expression_rest` leaves is no longer than what it was given.
#[verifier::spinoff_prover]
pub proof fn lemma_additive_expression_rest_consumes(left: Tree, s: Seq<Item>)
    ensures
        additive_expression_rest(left, s) matches Parsed::Done { value, rest }
            ==> rest.len() <= s.len(),
    decreases s.len(), 1nat,
{
    reveal(additive_expression_rest);
    match additive(head(s)) {
        Some(operation) => {
            let operator = skip(s, head(s)->Some_0);
            lemma_then_multiplicative_expression_consumes(operator, s);
            let right = then_multiplicative_expression(operator, s);
            lemma_then_additive_expression_rest_consumes(
                right,
                bin_expr(operation, left, right->value),
                s,
            );
        },
        None => {},
    }
}

/// `multiplicative_expression` takes at least one symbol.
#[verifier::spinoff_prover]
pub proof fn lemma_multiplicative_expression_consumes(s: Seq<Item>)
    ensures
        multiplicative_expression(s) matches Parsed::Done { value, rest } ==> rest.len() < s.len(),
    decreases s.len(), 5nat,
{
    reveal(multiplicative_expression);
    lemma_prefix_expression_consumes(s);
    let left = prefix_expression(s);
    lemma_then_multiplicative_expression_rest_consumes(left, left->value, s);
}

/// What `multiplicative_expression_rest` leaves is no longer than what it was given.
#[verifier::spinoff_prover]
pub proof fn lemma_multiplicative_expression_rest_consumes(left: Tree, s: Seq<Item>)
    ensures
        multiplicative_expression_rest(left, s) matches Parsed::Done { value, rest }
            ==> rest.len() <= s.len(),
    decreases s.len(), 1nat,
{
    reveal(multiplicative_expression_rest);
    match multiplicative(head(s)) {
        Some(operation) => {
            let operator = skip(s, head(s)->Some_0);
            lemma_then_prefix_expression_consumes(operator, s);
            let right = then_prefix_expression(operator, s);
            lemma_then_multiplicative_expression_rest_consumes(
                right,
                bin_expr(operation, left, right->value),
                s,
            );
        },
        None => {},
    }
}

/// `prefix_expression` takes at least one symbol.
#[verifier::spinoff_prover]
pub proof fn lemma_prefix_expression_consumes(s: Seq<Item>)
    ensures
        prefix_expression(s) matches Parsed::Done { value, rest } ==> rest.len() < s.len(),
    decreases s.len(), 4nat,
{
    reveal(prefix_expression);
    match prefix(head(s)) {
        Some(operation) => {
            let operator = skip(s, head(s)->Some_0);
            lemma_then_prefix_expression_consumes(operator, s);
            let operand = then_prefix_expression(operator, s);
        },
        None => {
            lemma_postfix_expression_consumes(s);
        },
    }
}

/// `postfix_expression` takes at least one symbol.
#[verifier::spinoff_prover]
pub proof fn lemma_postfix_expression_consumes(s: Seq<Item>)
    ensures
        postfix_expression(s) matches Parsed::Done { value, rest } ==> rest.len() < s.len(),
    decreases s.len(), 3nat,
{
    reveal(postfix_expression);
    if is_literal(head(s)) {
        let literal = skip(s, head(s)->Some_0);
        lemma_then_postfix_expression_rest_consumes(literal, atom_expr(literal->value), s);
    } else if head(s) == Some(Token::IDENTIFIER) {
        let name = skip(s, Token::IDENTIFIER);
        if head(name.left()) == Some(Token::LPARENT) {
            let open = then_skip(name, Token::LPARENT);
            lemma_then_expressions_consumes(open, s);
            let args = then_expressions(open, s);
            let close = then_skip(args, Token::RPARENT);
            lemma_then_postfix_expression_rest_consumes(
                close,
                fun_call(name->value, args->value),
                s,
            );
        } else {
            lemma_then_postfix_expression_rest_consumes(name, expr_name(name->value), s);
        }
    } else if head(s) == Some(Token::LPARENT) {
        let open = skip(s, Token::LPARENT);
        lemma_then_expressions_consumes(open, s);
        let inner = then_expressions(open, s);
        let close = then_skip(inner, Token::RPARENT);
        lemma_then_postfix_expression_rest_consumes(close, inner->value, s);
    } else if head(s) == Some(Token::LBRACE) {
        let open = skip(s, Token::LBRACE);
        lemma_then_brace_expression_consumes(open, s);
        let block = then_brace_expression(open, s);
        lemma_then_postfix_expression_rest_consumes(block, block->value, s);
    }
}

/// What `postfix_expression_rest` leaves is no longer than what it was given.
#[verifier::spinoff_prover]
pub proof fn lemma_postfix_expression_rest_consumes(left: Tree, s: Seq<Item>)
    ensures
        postfix_expression_rest(left, s) matches Parsed::Done { value, rest }
            ==> rest.len() <= s.len(),
    decreases s.len(), 1nat,
{
    reveal(postfix_expression_rest);
    if head(s) == Some(Token::DOT) {
        let dot = skip(s, Token::DOT);
        let name = then_skip(dot, Token::IDENTIFIER);
        lemma_then_postfix_expression_rest_consumes(
            name,
            bin_expr(AbsBinOper::REC, left, expr_name(name->value)),
            s,
        );
    } else if head(s) == Some(Token::LBRACKET) {
        let open = skip(s, Token::LBRACKET);
        lemma_then_expression_consumes(open, s);
        let index = then_expression(open, s);
        let close = then_skip(index, Token::RBRACKET);
        lemma_then_postfix_expression_rest_consumes(
            close,
            bin_expr(AbsBinOper::ARR, left, index->value),
            s,
        );
    } else if head(s) == Some(Token::WHERE) {
        let word = skip(s, Token::WHERE);
        lemma_then_declarations_consumes(word, s);
        let decls = then_declarations(word, s);
        lemma_then_postfix_expression_rest_consumes(decls, where_expr(left, decls->value), s);
    }
}

/// `brace_expression` takes at least one symbol.
#[verifier::spinoff_prover]
pub proof fn lemma_brace_expression_consumes(open: SymbolView, s: Seq<Item>)
    ensures
        brace_expression(open, s) matches Parsed::Done { value, rest } ==> rest.len() < s.len(),
    decreases s.len(), 2nat,
{
    reveal(brace_expression);
    if head(s) == Some(Token::RBRACE) {
        let close = skip(s, Token::RBRACE);
    } else if head(s) == Some(Token::IDENTIFIER) {
        lemma_assignment_consumes(s);
    } else if head(s) == Some(Token::IF) {
        lemma_conditional_consumes(s);
    } else if head(s) == Some(Token::FOR) {
        lemma_for_loop_consumes(s);
    } else if head(s) == Some(Token::WHILE) {
        lemma_while_loop_consumes(s);
    }
}

/// `assignment` takes at least one symbol.
#[verifier::spinoff_prover]
pub proof fn lemma_assignment_consumes(s: Seq<Item>)
    ensures
        assignment(s) matches Parsed::Done { value, rest } ==> rest.len() < s.len(),
    decreases s.len(), 1nat,
{
    reveal(assignment);
    let name = skip(s, Token::IDENTIFIER);
    let sign = then_skip(name, Token::ASSIGN);
    lemma_then_expression_consumes(sign, s);
    let right = then_expression(sign, s);
    let close = then_skip(right, Token::RBRACE);
}

/// `conditional` takes at least one symbol.
#[verifier::spinoff_prover]
pub proof fn lemma_conditional_consumes(s: Seq<Item>)
    ensures
        conditional(s) matches Parsed::Done { value, rest } ==> rest.len() < s.len(),
    decreases s.len(), 1nat,
{
    reveal(conditional);
    let word = skip(s, Token::IF);
    lemma_then_expression_consumes(word, s);
    let condition = then_expression(word, s);
    let then_word = then_skip(condition, Token::THEN);
    lemma_then_expressions_consumes(then_word, s);
    let then_part = then_expressions(then_word, s);
    if head(then_part.left()) == Some(Token::ELSE) {
        let else_word = then_skip(then_part, Token::ELSE);
        lemma_then_expressions_consumes(else_word, s);
        let else_part = then_expressions(else_word, s);
        let close = then_skip(else_part, Token::RBRACE);
    } else {
        let close = then_skip(then_part, Token::RBRACE);
    }
}

/// `for_loop` takes at least one symbol.
#[verifier::spinoff_prover]
pub proof fn lemma_for_loop_consumes(s: Seq<Item>)
    ensures
        for_loop(s) matches Parsed::Done { value, rest } ==> rest.len() < s.len(),
    decreases s.len(), 1nat,
{
    reveal(for_loop);
    let word = skip(s, Token::FOR);
    let name = then_skip(word, Token::IDENTIFIER);
    let sign = then_skip(name, Token::ASSIGN);
    lemma_then_expression_consumes(sign, s);
    let lower = then_expression(sign, s);
    let comma = then_skip(lower, Token::COMMA);
    lemma_then_expression_consumes(comma, s);
    let upper = then_expression(comma, s);
    let colon = then_skip(upper, Token::COLON);
    lemma_then_expressions_consumes(colon, s);
    let body = then_expressions(colon, s);
    let close = then_skip(body, Token::RBRACE);
}

/// `while_loop` takes at least one symbol.
#[verifier::spinoff_prover]
pub proof fn lemma_while_loop_consumes(s: Seq<Item>)
    ensures
        while_loop(s) matches Parsed::Done { value, rest } ==> rest.len() < s.len(),
    decreases s.len(), 1nat,
{
    reveal(while_loop);
    let word = skip(s, Token::WHILE);
    lemma_then_expression_consumes(word, s);
    let condition = then_expression(word, s);
    let colon = then_skip(condition, Token::COLON);
    lemma_then_expressions_consumes(colon, s);
    let body = then_expressions(colon, s);
    let close = then_skip(body, Token::RBRACE);
}

/// `declarations` takes at least one symbol.
#[verifier::spinoff_prover]
pub proof fn lemma_declarations_consumes(s: Seq<Item>)
    ensures
        declarations(s) matches Parsed::Done { value, rest } ==> rest.len() < s.len(),
    decreases s.len(), 5nat,
{
    reveal(declarations);
    lemma_declaration_consumes(s);
    let first = declaration(s);
    lemma_then_declarations_rest_consumes(first, seq![first->value], s);
    let members = then_declarations_rest(first, seq![first->value], s);
}

/// What `declarations_rest` leaves is no longer than what it was given.
#[verifier::spinoff_prover]
pub proof fn lemma_declarations_rest_consumes(members: Seq<Tree>, s: Seq<Item>)
    ensures
        declarations_rest(members, s) matches Parsed::Done { value, rest }
            ==> rest.len() <= s.len(),
    decreases s.len(), 5nat,
{
    reveal(declarations_rest);
    if starts_declaration(head(s)) {
        lemma_declaration_consumes(s);
        let next = declaration(s);
        lemma_then_declarations_rest_consumes(next, members.push(next->value), s);
    }
}

/// `declaration` takes at least one symbol.
#[verifier::spinoff_prover]
pub proof fn lemma_declaration_consumes(s: Seq<Item>)
    ensures
        declaration(s) matches Parsed::Done { value, rest } ==> rest.len() < s.len(),
    decreases s.len(), 3nat,
{
    reveal(declaration);
    if head(s) == Some(Token::TYP) {
        lemma_type_declaration_consumes(s);
    } else if head(s) == Some(Token::FUN) {
        lemma_function_declaration_consumes(s);
    } else if head(s) == Some(Token::VAR) {
        lemma_variable_declaration_consumes(s);
    }
}

/// `type_declaration` takes at least one symbol.
#[verifier::spinoff_prover]
pub proof fn lemma_type_declaration_consumes(s: Seq<Item>)
    ensures
        type_declaration(s) matches Parsed::Done { value, rest } ==> rest.len() < s.len(),
    decreases s.len(), 1nat,
{
    reveal(type_declaration);
    let word = skip(s, Token::TYP);
    let name = then_skip(word, Token::IDENTIFIER);
    let colon = then_skip(name, Token::COLON);
    lemma_then_type_denotation_consumes(colon, s);
    let source = then_type_denotation(colon, s);
    let end = then_skip(source, Token::SEMIC);
}

/// `variable_declaration` takes at least one symbol.
#[verifier::spinoff_prover]
pub proof fn lemma_variable_declaration_consumes(s: Seq<Item>)
    ensures
        variable_declaration(s) matches Parsed::Done { value, rest } ==> rest.len() < s.len(),
    decreases s.len(), 1nat,
{
    reveal(variable_declaration);
    let word = skip(s, Token::VAR);
    let name = then_skip(word, Token::IDENTIFIER);
    let colon = then_skip(name, Token::COLON);
    lemma_then_type_denotation_consumes(colon, s);
    let of = then_type_denotation(colon, s);
    let end = then_skip(of, Token::SEMIC);
}

/// `function_declaration` takes at least one symbol.
#[verifier::spinoff_prover]
pub proof fn lemma_function_declaration_consumes(s: Seq<Item>)
    ensures
        function_declaration(s) matches Parsed::Done { value, rest } ==> rest.len() < s.len(),
    decreases s.len(), 1nat,
{
    reveal(function_declaration);
    let word = skip(s, Token::FUN);
    let name = then_skip(word, Token::IDENTIFIER);
    let open = then_skip(name, Token::LPARENT);
    lemma_then_parameters_consumes(open, s);
    let params = then_parameters(open, s);
    let close = then_skip(params, Token::RPARENT);
    let colon = then_skip(close, Token::COLON);
    lemma_then_type_denotation_consumes(colon, s);
    let result = then_type_denotation(colon, s);
    let sign = then_skip(result, Token::ASSIGN);
    lemma_then_expressions_consumes(sign, s);
    let body = then_expressions(sign, s);
    let end = then_skip(body, Token::SEMIC);
}

/// `parameters` takes at least one symbol.
#[verifier::spinoff_prover]
pub proof fn lemma_parameters_consumes(s: Seq<Item>)
    ensures
        parameters(s) matches Parsed::Done { value, rest } ==> rest.len() < s.len(),
    decreases s.len(), 2nat,
{
    reveal(parameters);
    lemma_parameter_consumes(s);
    let first = parameter(s);
    lemma_then_parameters_rest_consumes(first, seq![first->value], s);
    let members = then_parameters_rest(first, seq![first->value], s);
}

/// What `parameters_rest` leaves is no longer than what it was given.
#[verifier::spinoff_prover]
pub proof fn lemma_parameters_rest_consumes(members: Seq<Tree>, s: Seq<Item>)
    ensures
        parameters_rest(members, s) matches Parsed::Done { value, rest } ==> rest.len() <= s.len(),
    decreases s.len(), 1nat,
{
    reveal(parameters_rest);
    if head(s) == Some(Token::COMMA) {
        let separator = skip(s, Token::COMMA);
        lemma_then_parameter_consumes(separator, s);
        let next = then_parameter(separator, s);
        lemma_then_parameters_rest_consumes(next, members.push(next->value), s);
    }
}

/// `parameter` takes at least one symbol.
#[verifier::spinoff_prover]
pub proof fn lemma_parameter_consumes(s: Seq<Item>)
    ensures
        parameter(s) matches Parsed::Done { value, rest } ==> rest.len() < s.len(),
    decreases s.len(), 1nat,
{
    reveal(parameter);
    let name = skip(s, Token::IDENTIFIER);
    let colon = then_skip(name, Token::COLON);
    lemma_then_type_denotation_consumes(colon, s);
    let of = then_type_denotation(colon, s);
}

/// `type_denotation` takes at least one symbol.
#[verifier::spinoff_prover]
pub proof fn lemma_type_denotation_consumes(s: Seq<Item>)
    ensures
        type_denotation(s) matches Parsed::Done { value, rest } ==> rest.len() < s.len(),
    decreases s.len(), 1nat,
{
    reveal(type_denotation);
    match atomic(head(s)) {
        Some(atom) => {
            let word = skip(s, head(s)->Some_0);
        },
        None => if head(s) == Some(Token::LBRACE) {
            let open = skip(s, Token::LBRACE);
            let close = then_skip(open, Token::RBRACE);
        } else if head(s) == Some(Token::IDENTIFIER) {
            let name = skip(s, Token::IDENTIFIER);
        } else if head(s) == Some(Token::MUL) {
            let star = skip(s, Token::MUL);
            lemma_then_type_denotation_consumes(star, s);
            let pointee = then_type_denotation(star, s);
        } else if head(s) == Some(Token::ARR) {
            let word = skip(s, Token::ARR);
            let open = then_skip(word, Token::LBRACKET);
            lemma_then_expression_consumes(open, s);
            let size = then_expression(open, s);
            let close = then_skip(size, Token::RBRACKET);
            lemma_then_type_denotation_consumes(close, s);
            let element = then_type_denotation(close, s);
        } else if head(s) == Some(Token::REC) {
            let word = skip(s, Token::REC);
            let open = then_skip(word, Token::LPARENT);
            lemma_then_parameters_consumes(open, s);
            let components = then_parameters(open, s);
            let close = then_skip(components, Token::RPARENT);
        } else if head(s) == Some(Token::LPARENT) {
            let open = skip(s, Token::LPARENT);
            lemma_then_type_denotation_consumes(open, s);
            let inner = then_type_denotation(open, s);
            let close = then_skip(inner, Token::RPARENT);
        },
    }
}

} // verus!
