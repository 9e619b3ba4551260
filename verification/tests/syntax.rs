use proteus::abstree::abs_decl::{AbsDecls, AbsFunDecl, AbsTypeDecl, AbsVarDecl};
use proteus::abstree::abs_expr::{
    AbsAtomExpr, AbsBinExpr, AbsBinOper, AbsExpr, AbsExprName, AbsExprs, AbsFunCall, AbsUnExpr,
    AbsWhereExpr,
};
use proteus::abstree::abs_stmt::{AbsAssignStmt, AbsForStmt, AbsIfStmt, AbsWhileStmt};
use proteus::abstree::abs_type::{
    AbsArrType, AbsAtomType, AbsPointerType, AbsRecType, AbsTypeName,
};
use proteus::abstree::abs_position::AbsPosition;
use proteus::abstree::abs_stmt::AbsStmt;
use proteus::abstree::abs_type::{AbsType, AtomType};
use proteus::abstree::abs_decl::AbsDecl;
use proteus::abstree::abs_expr::AbsUnOper;
use proteus::abstree::positioner::Positioner;
use proteus::abstree::visitor::Visitor;
use proteus::abstree::AbsTree;
use proteus::lexanal::position::Position;
use proteus::lexanal::rules::LexicalFault;
use proteus::lexanal::symbol::{Symbol, Token};
use proteus::lexanal::LexicalAnalyzer;
use proteus::synanal::parse_error::ParseError;
use proteus::synanal::SyntaxAnalyzer;
use proteus::xml::XMLable;
use std::rc::Rc;

/// Writes the shape of a tree as nested brackets.
struct Describer {
    text: String,
}

impl Visitor for Describer {
    fn visit_abs_arr_type(&mut self, acceptor: &AbsArrType) {
        self.text.push_str("ArrType(");
        acceptor.size.accept(self);
        acceptor.arr_type.accept(self);
        self.text.push(')');
    }
    fn visit_abs_assign_stmt(&mut self, acceptor: &AbsAssignStmt) {
        self.text.push_str("Assign(");
        acceptor.left_sub_expr.accept(self);
        acceptor.right_sub_expr.accept(self);
        self.text.push(')');
    }
    fn visit_abs_atom_expr(&mut self, acceptor: &AbsAtomExpr) {
        match &acceptor.expr {
            Some(s) => self.text.push_str(&format!("Atom({})", s.get_ref_lexeme())),
            None => self.text.push_str("Atom()"),
        }
    }
    fn visit_abs_atom_type(&mut self, acceptor: &AbsAtomType) {
        self.text.push_str(&format!("AtomType({:?})", acceptor.atom_type));
    }
    fn visit_abs_bin_expr(&mut self, acceptor: &AbsBinExpr) {
        self.text.push_str(&format!("Bin({:?},", acceptor.operation));
        acceptor.left_sub_expr.accept(self);
        self.text.push(',');
        acceptor.right_sub_expr.accept(self);
        self.text.push(')');
    }
    fn visit_abs_decls(&mut self, acceptor: &AbsDecls) {
        self.text.push_str("Decls(");
        for d in &acceptor.decls {
            d.accept(self);
        }
        self.text.push(')');
    }
    fn visit_abs_expr_name(&mut self, acceptor: &AbsExprName) {
        self.text.push_str(&format!("Name({})", acceptor.identifier.get_ref_lexeme()));
    }
    fn visit_abs_exprs(&mut self, acceptor: &AbsExprs) {
        self.text.push_str("Exprs(");
        for e in &acceptor.exprs {
            e.accept(self);
        }
        self.text.push(')');
    }
    fn visit_abs_for_stmt(&mut self, acceptor: &AbsForStmt) {
        self.text.push_str("For(");
        acceptor.var_name.accept(self);
        acceptor.lower_bound.accept(self);
        acceptor.higher_bound.accept(self);
        acceptor.loop_exprs.accept(self);
        self.text.push(')');
    }
    fn visit_abs_fun_call(&mut self, acceptor: &AbsFunCall) {
        self.text.push_str("Call(");
        acceptor.name.accept(self);
        acceptor.args.accept(self);
        self.text.push(')');
    }
    fn visit_abs_fun_decl(&mut self, acceptor: &AbsFunDecl) {
        self.text.push_str("FunDecl(");
        acceptor.name.accept(self);
        acceptor.params.accept(self);
        acceptor.return_type.accept(self);
        acceptor.exprs.accept(self);
        self.text.push(')');
    }
    fn visit_abs_if_stmt(&mut self, acceptor: &AbsIfStmt) {
        self.text.push_str("If(");
        acceptor.cond_expr.accept(self);
        acceptor.then_expr.accept(self);
        if let Some(e) = &acceptor.else_expr {
            e.accept(self);
        }
        self.text.push(')');
    }
    fn visit_abs_pointer_type(&mut self, acceptor: &AbsPointerType) {
        self.text.push_str("Pointer(");
        acceptor.ptype.accept(self);
        self.text.push(')');
    }
    fn visit_abs_rec_type(&mut self, acceptor: &AbsRecType) {
        self.text.push_str("Rec(");
        acceptor.compoments.accept(self);
        self.text.push(')');
    }
    fn visit_abs_type_decl(&mut self, acceptor: &AbsTypeDecl) {
        self.text.push_str("TypeDecl(");
        acceptor.name.accept(self);
        acceptor.source_type.accept(self);
        self.text.push(')');
    }
    fn visit_abs_type_name(&mut self, acceptor: &AbsTypeName) {
        self.text.push_str(&format!("TypeName({})", acceptor.identifier.get_ref_lexeme()));
    }
    fn visit_abs_abs_un_expr(&mut self, acceptor: &AbsUnExpr) {
        self.text.push_str(&format!("Un({:?},", acceptor.operation));
        acceptor.sub_expr.accept(self);
        self.text.push(')');
    }
    fn visit_abs_var_decl(&mut self, acceptor: &AbsVarDecl) {
        self.text.push_str("VarDecl(");
        acceptor.var_name.accept(self);
        acceptor.var_type.accept(self);
        self.text.push(')');
    }
    fn visit_abs_where_expr(&mut self, acceptor: &AbsWhereExpr) {
        self.text.push_str("Where(");
        acceptor.sub_expr.accept(self);
        acceptor.decls.accept(self);
        self.text.push(')');
    }
    fn visit_abs_while_stmt(&mut self, acceptor: &AbsWhileStmt) {
        self.text.push_str("While(");
        acceptor.cond_expr.accept(self);
        acceptor.loop_expr.accept(self);
        self.text.push(')');
    }
}

fn symbol(token: Token, lexeme: &str, line: u64, column: u64) -> Symbol {
    let file = Rc::new("unit".to_string());
    let end = column + lexeme.len() as u64 - 1;
    Symbol::new(token, lexeme.to_string(), Position::new(&file, line, column, line, end)).unwrap()
}

#[test]
fn binary_node_spans_both_operands() {
    let left = AbsExpr::AtomExpr(AbsAtomExpr::new(symbol(Token::INTCONST, "12", 1, 3)));
    let right = AbsExpr::ExprName(AbsExprName::new(symbol(Token::IDENTIFIER, "abc", 2, 1)));
    let node = AbsBinExpr::new(AbsBinOper::ADD, Box::new(left), Box::new(right));
    let position = node.get_position_ref().unwrap();
    assert_eq!(position.begin_line(), 1);
    assert_eq!(position.begin_column(), 3);
    assert_eq!(position.end_line(), 2);
    assert_eq!(position.end_column(), 3);
    let mut describer = Describer { text: String::new() };
    node.accept(&mut describer);
    assert_eq!(describer.text, "Bin(ADD,Atom(12),Name(abc))");
}

#[test]
fn end_of_input_makes_no_symbol() {
    let file = Rc::new("unit".to_string());
    assert!(Symbol::new(Token::EOF, String::new(), Position::new(&file, 1, 1, 1, 1)).is_none());
}

fn parse(text: &str) -> Result<Option<AbsExprs>, ParseError> {
    let lexer = LexicalAnalyzer::new("unit".to_string(), text.as_bytes().to_vec()).unwrap();
    SyntaxAnalyzer::new(lexer).parse()
}

fn shape(text: &str) -> String {
    let root = parse(text).unwrap().unwrap();
    let mut describer = Describer { text: String::new() };
    root.accept(&mut describer);
    describer.text
}

fn offending(text: &str) -> Option<(Token, String, u64, u64)> {
    match parse(text) {
        Err(ParseError::SyntaxError(error)) => error.get_ref_symbol().map(|s| {
            (
                s.get_token(),
                s.get_ref_lexeme().to_string(),
                s.get_ref_position().begin_line(),
                s.get_ref_position().begin_column(),
            )
        }),
        Err(ParseError::LexicalError(error)) => panic!("lexical error {:?}", error),
        Ok(_) => panic!("no error"),
    }
}

#[test]
fn subtraction_groups_from_the_left() {
    assert_eq!(shape("1 - 2 - 3"), "Exprs(Bin(SUB,Bin(SUB,Atom(1),Atom(2)),Atom(3)))");
}

#[test]
fn for_statement_has_variable_bounds_and_body() {
    // A block in braces holds a statement, so the body is written without braces:
    // behind `{ i` the grammar wants `=`.
    assert_eq!(
        offending("{ for i = 1, 10 : { i } }"),
        Some((Token::RBRACE, "}".to_string(), 1, 23))
    );
    let text = "{ for i = 1, 10 : i }";
    assert_eq!(shape(text), "Exprs(For(Name(i)Atom(1)Atom(10)Exprs(Name(i))))");
    let root = parse(text).unwrap().unwrap();
    match &root.exprs[0] {
        AbsExpr::Stmt(AbsStmt::ForStmt(stmt)) => {
            assert_eq!(stmt.var_name.identifier.get_ref_lexeme(), "i");
            match &*stmt.lower_bound {
                AbsExpr::AtomExpr(atom) => {
                    let literal = atom.expr.as_ref().unwrap();
                    assert_eq!(literal.get_token(), Token::INTCONST);
                    assert_eq!(literal.get_ref_lexeme(), "1");
                },
                _ => panic!("lower bound is no literal"),
            }
            match &*stmt.higher_bound {
                AbsExpr::AtomExpr(atom) => {
                    let literal = atom.expr.as_ref().unwrap();
                    assert_eq!(literal.get_token(), Token::INTCONST);
                    assert_eq!(literal.get_ref_lexeme(), "10");
                },
                _ => panic!("upper bound is no literal"),
            }
        },
        _ => panic!("no for statement"),
    }
}

#[test]
fn parsing_twice_gives_the_same_shape() {
    let text = "{ for i = 1, 10 : i }, f(1, 2).x[3] where var a : arr [2] *int; typ t : rec(a : {}, b : (real));";
    let first = shape(text);
    let second = shape(text);
    assert_eq!(first, second);
    assert_eq!(
        first,
        "Exprs(For(Name(i)Atom(1)Atom(10)Exprs(Name(i)))\
Where(Bin(ARR,Bin(REC,Call(Name(f)Exprs(Atom(1)Atom(2))),Name(x)),Atom(3))\
Decls(VarDecl(Name(a)ArrType(Atom(2)Pointer(AtomType(INT))))\
TypeDecl(TypeName(t)Rec(Decls(VarDecl(Name(a)AtomType(VOID))VarDecl(Name(b)AtomType(REAL))))))))"
    );
}

#[test]
fn first_error_wins() {
    // `var` cannot start an expression: it is the first symbol that is out of place.
    assert_eq!(offending("var x : ; "), Some((Token::VAR, "var".to_string(), 1, 1)));
    // In a declaration the type is missing before `;`.
    assert_eq!(offending("a where var x : ; "), Some((Token::SEMIC, ";".to_string(), 1, 17)));
    // Nothing behind the error is reported, not even a lexical fault.
    assert_eq!(offending("a where var x : ; $"), Some((Token::SEMIC, ";".to_string(), 1, 17)));
}

#[test]
fn end_of_stream_is_reported_without_a_symbol() {
    assert_eq!(offending("1 +"), None);
    assert_eq!(offending("{ if a then b"), None);
}

#[test]
fn lexical_fault_behind_a_taken_symbol_is_the_error() {
    match parse("1 + $") {
        Err(ParseError::LexicalError(error)) => {
            assert_eq!(error.reason, LexicalFault::InvalidCharacter('$'));
            assert_eq!(error.position.begin_column(), 5);
        },
        _ => panic!("no lexical error"),
    }
}

#[test]
fn empty_text_has_no_tree() {
    assert!(parse("").unwrap().is_none());
    assert!(parse("  # only a comment\n").unwrap().is_none());
}

#[test]
fn trailing_symbol_is_a_syntax_error() {
    assert_eq!(offending("1 2"), Some((Token::INTCONST, "2".to_string(), 1, 3)));
}

#[test]
fn comparisons_do_not_chain() {
    assert_eq!(shape("a < b"), "Exprs(Bin(LTH,Name(a),Name(b)))");
    assert_eq!(offending("a < b < c"), Some((Token::LTH, "<".to_string(), 1, 7)));
}

#[test]
fn precedence_levels() {
    assert_eq!(
        shape("a | b & c == d + e * -f"),
        "Exprs(Bin(OR,Name(a),Bin(AND,Name(b),Bin(EQU,Name(c),Bin(ADD,Name(d),Bin(MUL,Name(e),Un(SUB,Name(f))))))))"
    );
}

#[test]
fn statements_and_void() {
    assert_eq!(shape("{}"), "Exprs(Atom())");
    assert_eq!(shape("{ x = 1 }"), "Exprs(Assign(Name(x)Atom(1)))");
    assert_eq!(shape("{ if a then b else c }"), "Exprs(If(Name(a)Exprs(Name(b))Exprs(Name(c))))");
    assert_eq!(shape("{ if a then b }"), "Exprs(If(Name(a)Exprs(Name(b))))");
    assert_eq!(shape("{ while a : b, c }"), "Exprs(While(Name(a)Exprs(Name(b)Name(c))))");
}

#[test]
fn function_declaration() {
    assert_eq!(
        shape("f(1) where fun f(a : int, b : string) : bool = true;"),
        "Exprs(Where(Call(Name(f)Exprs(Atom(1)))Decls(FunDecl(Name(f)Decls(VarDecl(Name(a)AtomType(INT))VarDecl(Name(b)AtomType(STRING)))AtomType(BOOL)Exprs(Atom(true))))))"
    );
}

#[test]
fn spans_contain_children() {
    let root = parse("alpha +\n  beta * 2").unwrap().unwrap();
    let whole = root.get_position_ref().unwrap();
    assert_eq!((whole.begin_line(), whole.begin_column()), (1, 1));
    assert_eq!((whole.end_line(), whole.end_column()), (2, 10));
    match &root.exprs[0] {
        AbsExpr::BinExpr(sum) => {
            let right = sum.right_sub_expr.get_position_ref().unwrap();
            assert_eq!((right.begin_line(), right.begin_column()), (2, 3));
            assert_eq!((right.end_line(), right.end_column()), (2, 10));
        },
        _ => panic!("no sum"),
    }
}

#[test]
fn void_nodes_take_their_span_from_the_braces() {
    let root = parse("{ }").unwrap().unwrap();
    let whole = root.get_position_ref().unwrap();
    assert_eq!((whole.begin_line(), whole.begin_column()), (1, 1));
    assert_eq!((whole.end_line(), whole.end_column()), (1, 3));
}

fn span<N: Positioner>(node: &N) -> Option<((u64, u64), (u64, u64))> {
    node.get_position_ref()
        .map(|p| ((p.begin_line(), p.begin_column()), (p.end_line(), p.end_column())))
}

fn name(lexeme: &str, line: u64, column: u64) -> AbsExprName {
    AbsExprName::new(symbol(Token::IDENTIFIER, lexeme, line, column))
}

fn name_expr(lexeme: &str, line: u64, column: u64) -> Box<AbsExpr> {
    Box::new(AbsExpr::ExprName(name(lexeme, line, column)))
}

fn int_type(line: u64, column: u64) -> Box<AbsType> {
    Box::new(AbsType::AtomType(AbsAtomType::new(
        AtomType::INT,
        &symbol(Token::INT, "int", line, column),
    )))
}

#[test]
fn position_of_a_node_starts_unknown() {
    let mut position = AbsPosition::new();
    assert!(position.get_position_ref().is_none());
    assert!(position.get_position_ref_mut().is_none());
    let file = Rc::new("unit".to_string());
    position.set_max(&Position::new(&file, 2, 3, 2, 5));
    assert_eq!(position.get_position_ref(), Some(&Position::new(&file, 2, 3, 2, 5)));
    position.set_min(&Position::new(&file, 1, 9, 1, 9));
    assert_eq!(position.get_position_ref(), Some(&Position::new(&file, 1, 9, 2, 5)));
    position.cover(Some(&Position::new(&file, 1, 1, 7, 7)));
    assert_eq!(position.get_position_ref(), Some(&Position::new(&file, 1, 1, 7, 7)));
    position.cover(None);
    assert_eq!(position.get_position_ref(), Some(&Position::new(&file, 1, 1, 7, 7)));
    let given = AbsPosition::new_with_position(&Position::new(&file, 4, 4, 4, 4));
    assert_eq!(given.get_position_ref(), Some(&Position::new(&file, 4, 4, 4, 4)));
    let mut fresh = AbsPosition::new();
    fresh.set_min(&Position::new(&file, 6, 1, 6, 2));
    assert_eq!(fresh.get_position_ref(), Some(&Position::new(&file, 6, 1, 6, 2)));
}

#[test]
fn position_of_a_node_can_be_changed_in_place() {
    let mut node = AbsExpr::ExprName(name("abc", 2, 1));
    let file = Rc::new("unit".to_string());
    node.get_position_ref_mut().unwrap().set_max(&Position::new(&file, 3, 1, 3, 1));
    assert_eq!(span(&node), Some(((2, 1), (3, 1))));
    node.set_min(&Position::new(&file, 1, 5, 1, 5));
    node.set_max(&Position::new(&file, 1, 5, 9, 9));
    assert_eq!(span(&node), Some(((1, 5), (9, 9))));
}

#[test]
fn lists_grow_and_span_their_members() {
    let mut exprs = AbsExprs::new();
    assert!(exprs.exprs.is_empty());
    assert_eq!(span(&exprs), None);
    exprs.calculate_abs_position();
    assert_eq!(span(&exprs), None);
    exprs.add_expression(*name_expr("b", 2, 3));
    assert_eq!(span(&exprs), Some(((2, 3), (2, 3))));
    exprs.add_expression(*name_expr("a", 1, 1));
    exprs.add_expression(*name_expr("c", 2, 1));
    assert_eq!(exprs.exprs.len(), 3);
    assert_eq!(span(&exprs), Some(((1, 1), (2, 3))));

    let listed = AbsExprs::new_with_exprs(vec![*name_expr("x", 5, 5), *name_expr("y", 5, 8)]);
    assert_eq!(listed.exprs.len(), 2);
    assert_eq!(span(&listed), None);

    let mut decls = AbsDecls::new();
    assert_eq!(span(&decls), None);
    decls.add_decl(AbsDecl::VarDecl(AbsVarDecl::new(name("v", 4, 5), int_type(4, 9))));
    decls.add_decl(AbsDecl::VarDecl(AbsVarDecl::new(name("w", 5, 5), int_type(5, 9))));
    assert_eq!(decls.decls.len(), 2);
    assert_eq!(span(&decls), Some(((4, 5), (5, 11))));
}

#[test]
fn literals_and_void() {
    assert!(AbsAtomExpr::is_const_type(Token::INTCONST));
    assert!(AbsAtomExpr::is_const_type(Token::REALCONST));
    assert!(AbsAtomExpr::is_const_type(Token::BOOLCONST));
    assert!(AbsAtomExpr::is_const_type(Token::STRINGCONST));
    assert!(!AbsAtomExpr::is_const_type(Token::IDENTIFIER));
    assert!(!AbsAtomExpr::is_const_type(Token::INT));
    let void = AbsAtomExpr::new_with_option(None);
    assert!(void.expr.is_none());
    assert_eq!(span(&void), None);
    let literal = AbsAtomExpr::new_with_option(Some(symbol(Token::REALCONST, "1.5", 1, 2)));
    assert_eq!(span(&literal), Some(((1, 2), (1, 4))));
    let void_type = AbsAtomType::new_void_type();
    assert_eq!(void_type.atom_type, AtomType::VOID);
    assert_eq!(span(&void_type), None);
    assert_eq!(AtomType::STRING.get_name(), "STRING");
    assert_eq!(AbsBinOper::REC.get_name(), "REC");
    assert_eq!(AbsUnOper::NOT.get_name(), "NOT");
}

#[test]
fn composite_nodes_span_all_their_parts() {
    let un = AbsUnExpr::new(AbsUnOper::SUB, name_expr("a", 1, 2));
    assert_eq!(span(&un), Some(((1, 2), (1, 2))));
    let call = AbsFunCall::new(
        name("f", 1, 1),
        AbsExprs::new_with_exprs(vec![*name_expr("x", 1, 3)]),
    );
    // The list of arguments has no span of its own yet.
    assert_eq!(span(&call), Some(((1, 1), (1, 1))));
    let assign = AbsAssignStmt::new(name_expr("x", 3, 3), name_expr("y", 3, 7));
    assert_eq!(span(&assign), Some(((3, 3), (3, 7))));
    let short = AbsIfStmt::new(name_expr("c", 1, 5), name_expr("t", 1, 12), None);
    assert_eq!(span(&short), Some(((1, 5), (1, 12))));
    let long = AbsIfStmt::new(
        name_expr("c", 1, 5),
        name_expr("t", 1, 12),
        Some(name_expr("e", 2, 6)),
    );
    assert_eq!(span(&long), Some(((1, 5), (2, 6))));
    // Children need not stand in the order of the source.
    let mixed = AbsWhileStmt::new(name_expr("late", 9, 1), name_expr("early", 2, 2));
    assert_eq!(span(&mixed), Some(((2, 2), (9, 4))));
    let looped = AbsForStmt::new(
        name("i", 1, 7),
        name_expr("a", 1, 11),
        name_expr("b", 1, 14),
        name_expr("body", 2, 1),
    );
    assert_eq!(span(&looped), Some(((1, 7), (2, 4))));
}

#[test]
fn types_span_their_introducing_symbol() {
    let pointer = AbsPointerType::new(int_type(1, 3), &symbol(Token::MUL, "*", 1, 1));
    assert_eq!(span(&pointer), Some(((1, 1), (1, 5))));
    let array = AbsArrType::new(
        int_type(1, 10),
        name_expr("n", 1, 6),
        &symbol(Token::ARR, "arr", 1, 1),
    );
    assert_eq!(span(&array), Some(((1, 1), (1, 12))));
    let mut components = AbsDecls::new();
    components.add_decl(AbsDecl::VarDecl(AbsVarDecl::new(name("a", 1, 5), int_type(1, 9))));
    let record = AbsRecType::new(components, &symbol(Token::REC, "rec", 1, 1));
    assert_eq!(span(&record), Some(((1, 1), (1, 11))));
    let named = AbsTypeName::new(symbol(Token::IDENTIFIER, "t", 4, 4));
    assert_eq!(span(&named), Some(((4, 4), (4, 4))));
    let declared = AbsTypeDecl::new(named, int_type(4, 8));
    assert_eq!(span(&declared), Some(((4, 4), (4, 10))));
    let function = AbsFunDecl::new(name("f", 1, 5), AbsDecls::new(), int_type(1, 12), name_expr("x", 1, 18));
    assert_eq!(span(&function), Some(((1, 5), (1, 18))));
    let local = AbsWhereExpr::new(name_expr("x", 1, 1), AbsDecls::new());
    assert_eq!(span(&local), Some(((1, 1), (1, 1))));
}

#[test]
fn spans_of_a_parsed_tree_are_nested() {
    fn check(outer: ((u64, u64), (u64, u64)), inner: ((u64, u64), (u64, u64))) {
        assert!(outer.0 <= inner.0 && inner.1 <= outer.1);
    }
    let root = parse("f(a, b + 1)[2] where\n  var v : arr [3] *int;\n  typ t : rec(a : {}, b : real);")
        .unwrap()
        .unwrap();
    let whole = span(&root).unwrap();
    assert_eq!(whole, ((1, 1), (3, 30)));
    match &root.exprs[0] {
        AbsExpr::WhereExpr(local) => {
            check(whole, span(local).unwrap());
            check(span(local).unwrap(), span(&*local.sub_expr).unwrap());
            check(span(local).unwrap(), span(&local.decls).unwrap());
            assert_eq!(span(&*local.sub_expr), Some(((1, 1), (1, 13))));
            assert_eq!(span(&local.decls), Some(((2, 7), (3, 30))));
            for decl in &local.decls.decls {
                check(span(&local.decls).unwrap(), span(decl).unwrap());
            }
            match &local.decls.decls[1] {
                AbsDecl::TypeDecl(decl) => match &*decl.source_type {
                    AbsType::RecType(record) => {
                        assert_eq!(span(record), Some(((3, 11), (3, 30))));
                        match &record.compoments.decls[0] {
                            AbsDecl::VarDecl(component) => {
                                assert_eq!(span(&*component.var_type), Some(((3, 19), (3, 20))));
                            },
                            _ => panic!("no component"),
                        }
                    },
                    _ => panic!("no record"),
                },
                _ => panic!("no type declaration"),
            }
        },
        _ => panic!("no where"),
    }
}

fn at(bl: u64, bc: u64, el: u64, ec: u64) -> String {
    format!(
        "<position filename=\"unit\" begLine=\"{}\" begColumn=\"{}\" endLine=\"{}\" endColumn=\"{}\"/> \n",
        bl, bc, el, ec
    )
}

#[test]
fn tree_as_xml() {
    let root = parse("-a < 2").unwrap().unwrap();
    let mut xml = String::from("<abstree>\n");
    root.to_xml(&mut xml);
    let expected = String::from("<abstree>\n")
        + "<absnode node=\"AbsExprs\">\n"
        + &at(1, 2, 1, 6)
        + "<absnode node=\"BinExpr\" value=\"LTH\">\n"
        + &at(1, 2, 1, 6)
        + "<absnode node=\"UnExpr\" value=\"SUB\">\n"
        + &at(1, 2, 1, 2)
        + "<absnode node=\"ExprName\">\n"
        + &at(1, 2, 1, 2)
        + "<symbol token=\"IDENTIFIER\"  lexeme=\"a\">\n"
        + &at(1, 2, 1, 2)
        + "</symbol>\n"
        + "</absnode>\n"
        + "</absnode>\n"
        + "<absnode node=\"AtomExpr\">\n"
        + &at(1, 6, 1, 6)
        + "<symbol token=\"INTCONST\"  lexeme=\"2\">\n"
        + &at(1, 6, 1, 6)
        + "</symbol>\n"
        + "</absnode>\n"
        + "</absnode>\n"
        + "</absnode>\n";
    assert_eq!(xml, expected);
}

#[test]
fn declarations_and_types_as_xml() {
    let root = parse("x where var v : arr [3] {};").unwrap().unwrap();
    let mut xml = String::new();
    root.exprs[0].to_xml(&mut xml);
    let expected = String::new()
        + "<absnode node=\"WhereExpr\">\n"
        + &at(1, 1, 1, 26)
        + "<absnode node=\"ExprName\">\n"
        + &at(1, 1, 1, 1)
        + "<symbol token=\"IDENTIFIER\"  lexeme=\"x\">\n"
        + &at(1, 1, 1, 1)
        + "</symbol>\n"
        + "</absnode>\n"
        + "<absnode node=\"Decls\">\n"
        + &at(1, 13, 1, 26)
        + "<absnode node=\"VarDecl\">\n"
        + &at(1, 13, 1, 26)
        + "<absnode node=\"ExprName\">\n"
        + &at(1, 13, 1, 13)
        + "<symbol token=\"IDENTIFIER\"  lexeme=\"v\">\n"
        + &at(1, 13, 1, 13)
        + "</symbol>\n"
        + "</absnode>\n"
        + "<absnode node=\"ArrType\">\n"
        + &at(1, 17, 1, 26)
        + "<absnode node=\"AtomExpr\">\n"
        + &at(1, 22, 1, 22)
        + "<symbol token=\"INTCONST\"  lexeme=\"3\">\n"
        + &at(1, 22, 1, 22)
        + "</symbol>\n"
        + "</absnode>\n"
        + "<absnode node=\"AtomType\" value=\"VOID\">\n"
        + &at(1, 25, 1, 26)
        + "</absnode>\n"
        + "</absnode>\n"
        + "</absnode>\n"
        + "</absnode>\n"
        + "</absnode>\n";
    assert_eq!(xml, expected);
    let mut void = String::new();
    AbsAtomExpr::new_with_option(None).to_xml(&mut void);
    assert_eq!(void, "<absnode node=\"AtomExpr\">\n</absnode>\n");
}
