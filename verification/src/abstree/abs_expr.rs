//! Expressions.

use crate::abstree::AbsTree;
use crate::abstree::abs_decl::AbsDecls;
use crate::abstree::abs_position::AbsPosition;
use crate::abstree::abs_stmt::AbsStmt;
use crate::abstree::positioner::Positioner;
use crate::abstree::tree::{
    all_positioned, all_well_spanned, cover_all, lemma_child_appended, lemma_children_appended,
    lemma_cover_all_unfold, lemma_element_appended, lemma_extended_well_spanned,
    lemma_node_positioned, lemma_node_well_spanned, node, with_max, with_min, xml_of_all, NodeKind,
    Tree,
};
use crate::abstree::visitor::Visitor;
use crate::lexanal::position::{Position, Span};
use crate::lexanal::symbol::{Symbol, Token};
use crate::text::push_text;
use crate::xml::XMLable;
use vstd::prelude::*;

verus! {

/// An expression of any kind. Statements are expressions too.
pub enum AbsExpr {
    Exprs(AbsExprs),
    AtomExpr(AbsAtomExpr),
    ExprName(AbsExprName),
    BinExpr(AbsBinExpr),
    UnExpr(AbsUnExpr),
    FunCall(AbsFunCall),
    WhereExpr(AbsWhereExpr),
    Stmt(AbsStmt),
}

impl AbsExpr {
    /// The model of the node.
    pub open spec fn tree(&self) -> Tree
        decreases self, 2nat,
    {
        match self {
            AbsExpr::Exprs(n) => n.tree(),
            AbsExpr::AtomExpr(n) => n.tree(),
            AbsExpr::ExprName(n) => n.tree(),
            AbsExpr::BinExpr(n) => n.tree(),
            AbsExpr::UnExpr(n) => n.tree(),
            AbsExpr::FunCall(n) => n.tree(),
            AbsExpr::WhereExpr(n) => n.tree(),
            AbsExpr::Stmt(n) => n.tree(),
        }
    }
}

impl View for AbsExpr {
    type V = Tree;

    open spec fn view(&self) -> Tree {
        self.tree()
    }
}

impl Positioner for AbsExpr {
    open spec fn span(&self) -> Option<Span> {
        self.tree().position
    }

    fn get_position_ref(&self) -> (position: Option<&Position>) {
        match self {
            AbsExpr::Exprs(n) => n.get_position_ref(),
            AbsExpr::AtomExpr(n) => n.get_position_ref(),
            AbsExpr::ExprName(n) => n.get_position_ref(),
            AbsExpr::BinExpr(n) => n.get_position_ref(),
            AbsExpr::UnExpr(n) => n.get_position_ref(),
            AbsExpr::FunCall(n) => n.get_position_ref(),
            AbsExpr::WhereExpr(n) => n.get_position_ref(),
            AbsExpr::Stmt(n) => n.get_position_ref(),
        }
    }

    fn get_position_ref_mut(&mut self) -> (position: Option<&mut Position>)
        ensures
            final(self)@ == old(self)@.at(final(self).span()),
    {
        match self {
            AbsExpr::Exprs(n) => n.get_position_ref_mut(),
            AbsExpr::AtomExpr(n) => n.get_position_ref_mut(),
            AbsExpr::ExprName(n) => n.get_position_ref_mut(),
            AbsExpr::BinExpr(n) => n.get_position_ref_mut(),
            AbsExpr::UnExpr(n) => n.get_position_ref_mut(),
            AbsExpr::FunCall(n) => n.get_position_ref_mut(),
            AbsExpr::WhereExpr(n) => n.get_position_ref_mut(),
            AbsExpr::Stmt(n) => n.get_position_ref_mut(),
        }
    }

    fn set_min(&mut self, position: &Position)
        ensures
            final(self)@ == old(self)@.at(with_min(old(self).span(), position@)),
            old(self)@.well_spanned() ==> final(self)@.well_spanned(),
    {
        match self {
            AbsExpr::Exprs(n) => n.set_min(position),
            AbsExpr::AtomExpr(n) => n.set_min(position),
            AbsExpr::ExprName(n) => n.set_min(position),
            AbsExpr::BinExpr(n) => n.set_min(position),
            AbsExpr::UnExpr(n) => n.set_min(position),
            AbsExpr::FunCall(n) => n.set_min(position),
            AbsExpr::WhereExpr(n) => n.set_min(position),
            AbsExpr::Stmt(n) => n.set_min(position),
        }
    }

    fn set_max(&mut self, position: &Position)
        ensures
            final(self)@ == old(self)@.at(with_max(old(self).span(), position@)),
            old(self)@.well_spanned() ==> final(self)@.well_spanned(),
    {
        match self {
            AbsExpr::Exprs(n) => n.set_max(position),
            AbsExpr::AtomExpr(n) => n.set_max(position),
            AbsExpr::ExprName(n) => n.set_max(position),
            AbsExpr::BinExpr(n) => n.set_max(position),
            AbsExpr::UnExpr(n) => n.set_max(position),
            AbsExpr::FunCall(n) => n.set_max(position),
            AbsExpr::WhereExpr(n) => n.set_max(position),
            AbsExpr::Stmt(n) => n.set_max(position),
        }
    }
}

impl AbsTree for AbsExpr {
    /// Hands the node to the method that the visitor has for its kind.
    fn accept<V: Visitor>(&self, visitor: &mut V)
        ensures
            *final(visitor) == old(visitor).after(self@),
    {
        match self {
            AbsExpr::Exprs(n) => n.accept(visitor),
            AbsExpr::AtomExpr(n) => n.accept(visitor),
            AbsExpr::ExprName(n) => n.accept(visitor),
            AbsExpr::BinExpr(n) => n.accept(visitor),
            AbsExpr::UnExpr(n) => n.accept(visitor),
            AbsExpr::FunCall(n) => n.accept(visitor),
            AbsExpr::WhereExpr(n) => n.accept(visitor),
            AbsExpr::Stmt(n) => n.accept(visitor),
        }
    }
}

impl XMLable for AbsExpr {
    open spec fn xml(&self) -> Seq<char> {
        self@.xml()
    }

    fn to_xml(&self, xml: &mut String)
        decreases self,
    {
        match self {
            AbsExpr::Exprs(n) => n.to_xml(xml),
            AbsExpr::AtomExpr(n) => n.to_xml(xml),
            AbsExpr::ExprName(n) => n.to_xml(xml),
            AbsExpr::BinExpr(n) => n.to_xml(xml),
            AbsExpr::UnExpr(n) => n.to_xml(xml),
            AbsExpr::FunCall(n) => n.to_xml(xml),
            AbsExpr::WhereExpr(n) => n.to_xml(xml),
            AbsExpr::Stmt(n) => n.to_xml(xml),
        }
    }
}

/// A list of expressions, in the order of the source.
pub struct AbsExprs {
    pub abs_position: AbsPosition,
    pub exprs: Vec<AbsExpr>,
}

impl AbsExprs {
    /// The models of the children, in the order in which they are traversed.
    pub open spec fn children(&self) -> Seq<Tree>
        decreases self, 0nat,
    {
        Seq::new(
            self.exprs@.len(),
            |i: int|
                if 0 <= i < self.exprs@.len() {
                    self.exprs@[i].tree()
                } else {
                    arbitrary()
                },
        )
    }

    /// The model of the node.
    pub open spec fn tree(&self) -> Tree
        decreases self, 1nat,
    {
        Tree {
            kind: NodeKind::Exprs,
            position: self.abs_position@,
            symbol: None,
            children: self.children(),
        }
    }

    /// The empty list, which has no span.
    pub fn new() -> (made: AbsExprs)
        ensures
            made.exprs@.len() == 0,
            made@ == node(NodeKind::Exprs, None, None, Seq::empty()),
    {
        let made = AbsExprs { abs_position: AbsPosition::new(), exprs: Vec::new() };
        assert(made.children() =~= Seq::empty());
        made
    }

    /// The list of the given expressions, which has no span yet.
    pub fn new_with_exprs(exprs: Vec<AbsExpr>) -> (made: AbsExprs)
        ensures
            made.exprs == exprs,
            made.span() is None,
    {
        AbsExprs { abs_position: AbsPosition::new(), exprs }
    }

    /// Appends `expr` to the list and extends the span to cover the list.
    pub fn add_expression(&mut self, expr: AbsExpr)
        ensures
            final(self).exprs@ == old(self).exprs@.push(expr),
            final(self)@ == node(
                NodeKind::Exprs,
                old(self).span(),
                None,
                old(self).children().push(expr@),
            ),
            all_well_spanned(old(self).children()) && expr@.well_spanned()
                ==> final(self)@.well_spanned(),
    {
        self.exprs.push(expr);
        assert(self.children() =~= old(self).children().push(expr@));
        self.calculate_abs_position();
    }

    /// Extends the span to cover all members of the list.
    pub fn calculate_abs_position(&mut self)
        ensures
            final(self).exprs == old(self).exprs,
            final(self)@ == node(NodeKind::Exprs, old(self).span(), None, old(self).children()),
            all_well_spanned(old(self).children()) ==> final(self)@.well_spanned(),
            all_positioned(old(self).children()) && (old(self).span() is Some
                || old(self).exprs@.len() > 0) ==> final(self)@.positioned(),
    {
        let mut i: usize = 0;
        while i < self.exprs.len()
            invariant
                i <= self.exprs.len(),
                self.exprs == old(self).exprs,
                self.abs_position@ == cover_all(
                    old(self).span(),
                    self.children().subrange(0, i as int),
                ),
            decreases self.exprs.len() - i,
        {
            self.abs_position.cover(self.exprs[i].get_position_ref());
            i += 1;
            assert(self.children().subrange(0, i as int).drop_last() =~= self.children().subrange(
                0,
                i - 1,
            ));
        }
        assert(self.children().subrange(0, i as int) =~= self.children());
        proof {
            if all_well_spanned(self.children()) {
                lemma_node_well_spanned(NodeKind::Exprs, old(self).span(), None, self.children());
            }
            if all_positioned(self.children()) && (old(self).span() is Some
                || self.exprs@.len() > 0) {
                lemma_node_positioned(NodeKind::Exprs, old(self).span(), None, self.children());
            }
        }
    }
}

impl View for AbsExprs {
    type V = Tree;

    open spec fn view(&self) -> Tree {
        self.tree()
    }
}

impl Positioner for AbsExprs {
    open spec fn span(&self) -> Option<Span> {
        self.abs_position@
    }

    fn get_position_ref(&self) -> (position: Option<&Position>) {
        self.abs_position.get_position_ref()
    }

    fn get_position_ref_mut(&mut self) -> (position: Option<&mut Position>)
        ensures
            final(self)@ == old(self)@.at(final(self).span()),
    {
        self.abs_position.get_position_ref_mut()
    }

    fn set_min(&mut self, position: &Position)
        ensures
            final(self)@ == old(self)@.at(with_min(old(self).span(), position@)),
            old(self)@.well_spanned() ==> final(self)@.well_spanned(),
    {
        self.abs_position.set_min(position);
        proof {
            if old(self)@.well_spanned() {
                lemma_extended_well_spanned(old(self)@, position@);
            }
        }
    }

    fn set_max(&mut self, position: &Position)
        ensures
            final(self)@ == old(self)@.at(with_max(old(self).span(), position@)),
            old(self)@.well_spanned() ==> final(self)@.well_spanned(),
    {
        self.abs_position.set_max(position);
        proof {
            if old(self)@.well_spanned() {
                lemma_extended_well_spanned(old(self)@, position@);
            }
        }
    }
}

impl AbsTree for AbsExprs {
    fn accept<V: Visitor>(&self, visitor: &mut V)
        ensures
            *final(visitor) == old(visitor).after(self@),
    {
        visitor.visit_abs_exprs(self);
    }
}

impl XMLable for AbsExprs {
    open spec fn xml(&self) -> Seq<char> {
        self@.xml()
    }

    fn to_xml(&self, xml: &mut String)
        decreases self,
    {
        NodeKind::Exprs.open_xml(xml);
        self.abs_position.to_xml(xml);
        let ghost start = xml@;
        let mut i: usize = 0;
        proof {
            lemma_children_appended(start, self.children().subrange(0, 0));
        }
        while i < self.exprs.len()
            invariant
                i <= self.exprs.len(),
                xml@ == start + xml_of_all(self.children().subrange(0, i as int)),
            decreases self.exprs.len() - i,
        {
            self.exprs[i].to_xml(xml);
            i += 1;
            proof {
                let so_far = self.children().subrange(0, i as int);
                assert(so_far.drop_last() =~= self.children().subrange(0, i - 1));
                assert(so_far.last() == self.exprs[i - 1]@);
                lemma_child_appended(start, so_far);
            }
        }
        assert(self.children().subrange(0, i as int) =~= self.children());
        push_text(xml, "</absnode>\n");
        proof {
            lemma_element_appended(old(xml)@, self@);
        }
    }
}

/// A literal of an atomic type, or the empty block, which holds no symbol.
pub struct AbsAtomExpr {
    pub abs_position: AbsPosition,
    /// The literal.
    pub expr: Option<Symbol>,
}

/// The kinds of symbols that are literals.
pub open spec fn is_literal(token: Token) -> bool {
    token == Token::BOOLCONST || token == Token::INTCONST || token == Token::REALCONST || token
        == Token::STRINGCONST
}

impl AbsAtomExpr {
    /// The models of the children: a literal has none.
    pub open spec fn children(&self) -> Seq<Tree> {
        Seq::empty()
    }

    /// The model of the node.
    pub open spec fn tree(&self) -> Tree {
        Tree {
            kind: NodeKind::AtomExpr,
            position: self.abs_position@,
            symbol: match self.expr {
                Some(s) => Some(s@),
                None => None,
            },
            children: Seq::empty(),
        }
    }

    pub fn is_const_type(token: Token) -> (yes: bool)
        ensures
            yes == is_literal(token),
    {
        token == Token::BOOLCONST || token == Token::INTCONST || token == Token::REALCONST || token
            == Token::STRINGCONST
    }

    /// The node of a literal, with the literal's span.
    pub fn new(expr: Symbol) -> (made: AbsAtomExpr)
        requires
            is_literal(expr@.token),
        ensures
            made.expr == Some(expr),
            made@ == node(NodeKind::AtomExpr, None, Some(expr@), Seq::empty()),
    {
        let mut made = AbsAtomExpr { abs_position: AbsPosition::new(), expr: Some(expr) };
        made.calculate_abs_position();
        made
    }

    /// Extends the span to cover the literal, if there is one.
    pub fn calculate_abs_position(&mut self)
        ensures
            final(self).expr == old(self).expr,
            final(self)@ == node(
                NodeKind::AtomExpr,
                old(self).span(),
                old(self)@.symbol,
                Seq::empty(),
            ),
    {
        match &self.expr {
            Some(symbol) => self.abs_position.cover(Some(symbol.get_ref_position())),
            None => {},
        }
    }

    /// The node of a literal, or of the empty block, which has no span.
    pub fn new_with_option(expr: Option<Symbol>) -> (made: AbsAtomExpr)
        requires
            expr matches Some(s) ==> is_literal(s@.token),
        ensures
            made.expr == expr,
            made@ == node(
                NodeKind::AtomExpr,
                None,
                match expr {
                    Some(s) => Some(s@),
                    None => None,
                },
                Seq::empty(),
            ),
    {
        let mut made = AbsAtomExpr { abs_position: AbsPosition::new(), expr };
        made.calculate_abs_position();
        made
    }
}

impl View for AbsAtomExpr {
    type V = Tree;

    open spec fn view(&self) -> Tree {
        self.tree()
    }
}

impl Positioner for AbsAtomExpr {
    open spec fn span(&self) -> Option<Span> {
        self.abs_position@
    }

    fn get_position_ref(&self) -> (position: Option<&Position>) {
        self.abs_position.get_position_ref()
    }

    fn get_position_ref_mut(&mut self) -> (position: Option<&mut Position>)
        ensures
            final(self)@ == old(self)@.at(final(self).span()),
    {
        self.abs_position.get_position_ref_mut()
    }

    fn set_min(&mut self, position: &Position)
        ensures
            final(self)@ == old(self)@.at(with_min(old(self).span(), position@)),
            old(self)@.well_spanned() ==> final(self)@.well_spanned(),
    {
        self.abs_position.set_min(position);
        proof {
            if old(self)@.well_spanned() {
                lemma_extended_well_spanned(old(self)@, position@);
            }
        }
    }

    fn set_max(&mut self, position: &Position)
        ensures
            final(self)@ == old(self)@.at(with_max(old(self).span(), position@)),
            old(self)@.well_spanned() ==> final(self)@.well_spanned(),
    {
        self.abs_position.set_max(position);
        proof {
            if old(self)@.well_spanned() {
                lemma_extended_well_spanned(old(self)@, position@);
            }
        }
    }
}

impl AbsTree for AbsAtomExpr {
    fn accept<V: Visitor>(&self, visitor: &mut V)
        ensures
            *final(visitor) == old(visitor).after(self@),
    {
        visitor.visit_abs_atom_expr(self);
    }
}

impl XMLable for AbsAtomExpr {
    open spec fn xml(&self) -> Seq<char> {
        self@.xml()
    }

    fn to_xml(&self, xml: &mut String) {
        NodeKind::AtomExpr.open_xml(xml);
        self.abs_position.to_xml(xml);
        match &self.expr {
            Some(symbol) => symbol.to_xml(xml),
            None => {},
        }
        proof {
            lemma_children_appended(xml@, self.children());
        }
        push_text(xml, "</absnode>\n");
        proof {
            lemma_element_appended(old(xml)@, self@);
        }
    }
}

/// The name of a variable or of a function.
pub struct AbsExprName {
    pub abs_position: AbsPosition,
    /// The identifier.
    pub identifier: Symbol,
}

impl AbsExprName {
    /// The models of the children, in the order in which they are traversed.
    pub open spec fn children(&self) -> Seq<Tree>
        decreases self, 0nat,
    {
        Seq::empty()
    }

    /// The model of the node.
    pub open spec fn tree(&self) -> Tree
        decreases self, 1nat,
    {
        Tree {
            kind: NodeKind::ExprName,
            position: self.abs_position@,
            symbol: Some(self.identifier@),
            children: self.children(),
        }
    }

    /// The node with the given parts, whose span covers all of them.
    pub fn new(identifier: Symbol) -> (made: AbsExprName)
        ensures
            made.identifier == identifier,
            made@ == node(NodeKind::ExprName, None, Some(identifier@), made.children()),
            made@.well_spanned(),
            made@.positioned(),
    {
        let mut made = AbsExprName {
            abs_position: AbsPosition::new(),
            identifier,
        };
        made.calculate_abs_position();
        made
    }

    /// Extends the span to cover all parts of the node.
    pub fn calculate_abs_position(&mut self)
        ensures
            final(self).identifier == old(self).identifier,
            final(self)@ == node(
                old(self)@.kind,
                old(self).span(),
                old(self)@.symbol,
                old(self).children(),
            ),
            final(self)@.well_spanned(),
            final(self)@.positioned(),
    {
        self.abs_position.cover(Some(self.identifier.get_ref_position()));
        proof {
            lemma_cover_all_unfold(self.children());
            let start = old(self).span();
            if all_well_spanned(self.children()) {
                lemma_node_well_spanned(self@.kind, start, self@.symbol, self.children());
            }
            if all_positioned(self.children()) {
                lemma_node_positioned(self@.kind, start, self@.symbol, self.children());
            }
        }
    }
}

impl View for AbsExprName {
    type V = Tree;

    open spec fn view(&self) -> Tree {
        self.tree()
    }
}

impl Positioner for AbsExprName {
    open spec fn span(&self) -> Option<Span> {
        self.abs_position@
    }

    fn get_position_ref(&self) -> (position: Option<&Position>) {
        self.abs_position.get_position_ref()
    }

    fn get_position_ref_mut(&mut self) -> (position: Option<&mut Position>)
        ensures
            final(self)@ == old(self)@.at(final(self).span()),
    {
        self.abs_position.get_position_ref_mut()
    }

    fn set_min(&mut self, position: &Position)
        ensures
            final(self)@ == old(self)@.at(with_min(old(self).span(), position@)),
            old(self)@.well_spanned() ==> final(self)@.well_spanned(),
    {
        self.abs_position.set_min(position);
        proof {
            if old(self)@.well_spanned() {
                lemma_extended_well_spanned(old(self)@, position@);
            }
        }
    }

    fn set_max(&mut self, position: &Position)
        ensures
            final(self)@ == old(self)@.at(with_max(old(self).span(), position@)),
            old(self)@.well_spanned() ==> final(self)@.well_spanned(),
    {
        self.abs_position.set_max(position);
        proof {
            if old(self)@.well_spanned() {
                lemma_extended_well_spanned(old(self)@, position@);
            }
        }
    }
}

impl AbsTree for AbsExprName {
    fn accept<V: Visitor>(&self, visitor: &mut V)
        ensures
            *final(visitor) == old(visitor).after(self@),
    {
        visitor.visit_abs_expr_name(self);
    }
}

impl XMLable for AbsExprName {
    open spec fn xml(&self) -> Seq<char> {
        self@.xml()
    }

    fn to_xml(&self, xml: &mut String)
        decreases self,
    {
        NodeKind::ExprName.open_xml(xml);
        self.abs_position.to_xml(xml);
        self.identifier.to_xml(xml);
        let ghost base = xml@;
        proof {
            lemma_children_appended(base, self.children());
        }
        push_text(xml, "</absnode>\n");
        proof {
            lemma_element_appended(old(xml)@, self@);
        }
    }
}

/// The binary operators. `ARR` is indexing, `REC` is component access.
#[derive(Debug, Clone, Copy, PartialEq, Eq, Structural)]
pub enum AbsBinOper {
    OR,
    AND,
    EQU,
    NEQ,
    LTH,
    GTH,
    LEQ,
    GEQ,
    ADD,
    SUB,
    MUL,
    DIV,
    MOD,
    ARR,
    REC,
}

impl AbsBinOper {
    /// The name of the operator.
    pub open spec fn name(self) -> Seq<char> {
        match self {
            AbsBinOper::OR => "OR"@,
            AbsBinOper::AND => "AND"@,
            AbsBinOper::EQU => "EQU"@,
            AbsBinOper::NEQ => "NEQ"@,
            AbsBinOper::LTH => "LTH"@,
            AbsBinOper::GTH => "GTH"@,
            AbsBinOper::LEQ => "LEQ"@,
            AbsBinOper::GEQ => "GEQ"@,
            AbsBinOper::ADD => "ADD"@,
            AbsBinOper::SUB => "SUB"@,
            AbsBinOper::MUL => "MUL"@,
            AbsBinOper::DIV => "DIV"@,
            AbsBinOper::MOD => "MOD"@,
            AbsBinOper::ARR => "ARR"@,
            AbsBinOper::REC => "REC"@,
        }
    }

    pub fn get_name(self) -> (name: &'static str)
        ensures
            name@ == self.name(),
    {
        match self {
            AbsBinOper::OR => "OR",
            AbsBinOper::AND => "AND",
            AbsBinOper::EQU => "EQU",
            AbsBinOper::NEQ => "NEQ",
            AbsBinOper::LTH => "LTH",
            AbsBinOper::GTH => "GTH",
            AbsBinOper::LEQ => "LEQ",
            AbsBinOper::GEQ => "GEQ",
            AbsBinOper::ADD => "ADD",
            AbsBinOper::SUB => "SUB",
            AbsBinOper::MUL => "MUL",
            AbsBinOper::DIV => "DIV",
            AbsBinOper::MOD => "MOD",
            AbsBinOper::ARR => "ARR",
            AbsBinOper::REC => "REC",
        }
    }
}

/// The unary operators.
#[derive(Debug, Clone, Copy, PartialEq, Eq, Structural)]
pub enum AbsUnOper {
    ADD,
    SUB,
    MUL,
    AND,
    NOT,
}

impl AbsUnOper {
    /// The name of the operator.
    pub open spec fn name(self) -> Seq<char> {
        match self {
            AbsUnOper::ADD => "ADD"@,
            AbsUnOper::SUB => "SUB"@,
            AbsUnOper::MUL => "MUL"@,
            AbsUnOper::AND => "AND"@,
            AbsUnOper::NOT => "NOT"@,
        }
    }

    pub fn get_name(self) -> (name: &'static str)
        ensures
            name@ == self.name(),
    {
        match self {
            AbsUnOper::ADD => "ADD",
            AbsUnOper::SUB => "SUB",
            AbsUnOper::MUL => "MUL",
            AbsUnOper::AND => "AND",
            AbsUnOper::NOT => "NOT",
        }
    }
}

/// An expression with a binary operator.
pub struct AbsBinExpr {
    pub abs_position: AbsPosition,
    /// The operator.
    pub operation: AbsBinOper,
    /// The left operand.
    pub left_sub_expr: Box<AbsExpr>,
    /// The right operand.
    pub right_sub_expr: Box<AbsExpr>,
}

impl AbsBinExpr {
    /// The models of the children, in the order in which they are traversed.
    pub open spec fn children(&self) -> Seq<Tree>
        decreases self, 0nat,
    {
        seq![self.left_sub_expr.tree(), self.right_sub_expr.tree()]
    }

    /// The model of the node.
    pub open spec fn tree(&self) -> Tree
        decreases self, 1nat,
    {
        Tree {
            kind: NodeKind::BinExpr(self.operation),
            position: self.abs_position@,
            symbol: None,
            children: self.children(),
        }
    }

    /// The node with the given parts, whose span covers all of them.
    pub fn new(
        operation: AbsBinOper,
        left_sub_expr: Box<AbsExpr>,
        right_sub_expr: Box<AbsExpr>,
    ) -> (made: AbsBinExpr)
        ensures
            made.operation == operation,
            made.left_sub_expr == left_sub_expr,
            made.right_sub_expr == right_sub_expr,
            made@ == node(NodeKind::BinExpr(operation), None, None, made.children()),
            left_sub_expr@.well_spanned() && right_sub_expr@.well_spanned()
                ==> made@.well_spanned(),
            left_sub_expr@.positioned() && right_sub_expr@.positioned() ==> made@.positioned(),
    {
        let mut made = AbsBinExpr {
            abs_position: AbsPosition::new(),
            operation,
            left_sub_expr,
            right_sub_expr,
        };
        made.calculate_abs_position();
        made
    }

    /// Extends the span to cover all parts of the node.
    pub fn calculate_abs_position(&mut self)
        ensures
            final(self).operation == old(self).operation,
            final(self).left_sub_expr == old(self).left_sub_expr,
            final(self).right_sub_expr == old(self).right_sub_expr,
            final(self)@ == node(
                old(self)@.kind,
                old(self).span(),
                old(self)@.symbol,
                old(self).children(),
            ),
            old(self).left_sub_expr@.well_spanned() && old(self).right_sub_expr@.well_spanned()
                ==> final(self)@.well_spanned(),
            old(self).left_sub_expr@.positioned() && old(self).right_sub_expr@.positioned()
                ==> final(self)@.positioned(),
    {
        self.abs_position.cover(self.left_sub_expr.get_position_ref());
        self.abs_position.cover(self.right_sub_expr.get_position_ref());
        proof {
            lemma_cover_all_unfold(self.children());
            let start = old(self).span();
            if all_well_spanned(self.children()) {
                lemma_node_well_spanned(self@.kind, start, self@.symbol, self.children());
            }
            if all_positioned(self.children()) {
                lemma_node_positioned(self@.kind, start, self@.symbol, self.children());
            }
        }
    }
}

impl View for AbsBinExpr {
    type V = Tree;

    open spec fn view(&self) -> Tree {
        self.tree()
    }
}

impl Positioner for AbsBinExpr {
    open spec fn span(&self) -> Option<Span> {
        self.abs_position@
    }

    fn get_position_ref(&self) -> (position: Option<&Position>) {
        self.abs_position.get_position_ref()
    }

    fn get_position_ref_mut(&mut self) -> (position: Option<&mut Position>)
        ensures
            final(self)@ == old(self)@.at(final(self).span()),
    {
        self.abs_position.get_position_ref_mut()
    }

    fn set_min(&mut self, position: &Position)
        ensures
            final(self)@ == old(self)@.at(with_min(old(self).span(), position@)),
            old(self)@.well_spanned() ==> final(self)@.well_spanned(),
    {
        self.abs_position.set_min(position);
        proof {
            if old(self)@.well_spanned() {
                lemma_extended_well_spanned(old(self)@, position@);
            }
        }
    }

    fn set_max(&mut self, position: &Position)
        ensures
            final(self)@ == old(self)@.at(with_max(old(self).span(), position@)),
            old(self)@.well_spanned() ==> final(self)@.well_spanned(),
    {
        self.abs_position.set_max(position);
        proof {
            if old(self)@.well_spanned() {
                lemma_extended_well_spanned(old(self)@, position@);
            }
        }
    }
}

impl AbsTree for AbsBinExpr {
    fn accept<V: Visitor>(&self, visitor: &mut V)
        ensures
            *final(visitor) == old(visitor).after(self@),
    {
        visitor.visit_abs_bin_expr(self);
    }
}

impl XMLable for AbsBinExpr {
    open spec fn xml(&self) -> Seq<char> {
        self@.xml()
    }

    fn to_xml(&self, xml: &mut String)
        decreases self,
    {
        NodeKind::BinExpr(self.operation).open_xml(xml);
        self.abs_position.to_xml(xml);
        let ghost base = xml@;
        self.left_sub_expr.to_xml(xml);
        self.right_sub_expr.to_xml(xml);
        proof {
            lemma_children_appended(base, self.children());
        }
        push_text(xml, "</absnode>\n");
        proof {
            lemma_element_appended(old(xml)@, self@);
        }
    }
}

/// An expression with a unary operator.
pub struct AbsUnExpr {
    pub abs_position: AbsPosition,
    /// The operator.
    pub operation: AbsUnOper,
    /// The operand.
    pub sub_expr: Box<AbsExpr>,
}

impl AbsUnExpr {
    /// The models of the children, in the order in which they are traversed.
    pub open spec fn children(&self) -> Seq<Tree>
        decreases self, 0nat,
    {
        seq![self.sub_expr.tree()]
    }

    /// The model of the node.
    pub open spec fn tree(&self) -> Tree
        decreases self, 1nat,
    {
        Tree {
            kind: NodeKind::UnExpr(self.operation),
            position: self.abs_position@,
            symbol: None,
            children: self.children(),
        }
    }

    /// The node with the given parts, whose span covers all of them.
    pub fn new(operation: AbsUnOper, sub_expr: Box<AbsExpr>) -> (made: AbsUnExpr)
        ensures
            made.operation == operation,
            made.sub_expr == sub_expr,
            made@ == node(NodeKind::UnExpr(operation), None, None, made.children()),
            sub_expr@.well_spanned() ==> made@.well_spanned(),
            sub_expr@.positioned() ==> made@.positioned(),
    {
        let mut made = AbsUnExpr {
            abs_position: AbsPosition::new(),
            operation,
            sub_expr,
        };
        made.calculate_abs_position();
        made
    }

    /// Extends the span to cover all parts of the node.
    pub fn calculate_abs_position(&mut self)
        ensures
            final(self).operation == old(self).operation,
            final(self).sub_expr == old(self).sub_expr,
            final(self)@ == node(
                old(self)@.kind,
                old(self).span(),
                old(self)@.symbol,
                old(self).children(),
            ),
            old(self).sub_expr@.well_spanned() ==> final(self)@.well_spanned(),
            old(self).sub_expr@.positioned() ==> final(self)@.positioned(),
    {
        self.abs_position.cover(self.sub_expr.get_position_ref());
        proof {
            lemma_cover_all_unfold(self.children());
            let start = old(self).span();
            if all_well_spanned(self.children()) {
                lemma_node_well_spanned(self@.kind, start, self@.symbol, self.children());
            }
            if all_positioned(self.children()) {
                lemma_node_positioned(self@.kind, start, self@.symbol, self.children());
            }
        }
    }
}

impl View for AbsUnExpr {
    type V = Tree;

    open spec fn view(&self) -> Tree {
        self.tree()
    }
}

impl Positioner for AbsUnExpr {
    open spec fn span(&self) -> Option<Span> {
        self.abs_position@
    }

    fn get_position_ref(&self) -> (position: Option<&Position>) {
        self.abs_position.get_position_ref()
    }

    fn get_position_ref_mut(&mut self) -> (position: Option<&mut Position>)
        ensures
            final(self)@ == old(self)@.at(final(self).span()),
    {
        self.abs_position.get_position_ref_mut()
    }

    fn set_min(&mut self, position: &Position)
        ensures
            final(self)@ == old(self)@.at(with_min(old(self).span(), position@)),
            old(self)@.well_spanned() ==> final(self)@.well_spanned(),
    {
        self.abs_position.set_min(position);
        proof {
            if old(self)@.well_spanned() {
                lemma_extended_well_spanned(old(self)@, position@);
            }
        }
    }

    fn set_max(&mut self, position: &Position)
        ensures
            final(self)@ == old(self)@.at(with_max(old(self).span(), position@)),
            old(self)@.well_spanned() ==> final(self)@.well_spanned(),
    {
        self.abs_position.set_max(position);
        proof {
            if old(self)@.well_spanned() {
                lemma_extended_well_spanned(old(self)@, position@);
            }
        }
    }
}

impl AbsTree for AbsUnExpr {
    fn accept<V: Visitor>(&self, visitor: &mut V)
        ensures
            *final(visitor) == old(visitor).after(self@),
    {
        visitor.visit_abs_abs_un_expr(self);
    }
}

impl XMLable for AbsUnExpr {
    open spec fn xml(&self) -> Seq<char> {
        self@.xml()
    }

    fn to_xml(&self, xml: &mut String)
        decreases self,
    {
        NodeKind::UnExpr(self.operation).open_xml(xml);
        self.abs_position.to_xml(xml);
        let ghost base = xml@;
        self.sub_expr.to_xml(xml);
        proof {
            lemma_children_appended(base, self.children());
        }
        push_text(xml, "</absnode>\n");
        proof {
            lemma_element_appended(old(xml)@, self@);
        }
    }
}

/// A function call.
pub struct AbsFunCall {
    pub abs_position: AbsPosition,
    /// The name of the function.
    pub name: AbsExprName,
    /// The arguments.
    pub args: AbsExprs,
}

impl AbsFunCall {
    /// The models of the children, in the order in which they are traversed.
    pub open spec fn children(&self) -> Seq<Tree>
        decreases self, 0nat,
    {
        seq![self.name.tree(), self.args.tree()]
    }

    /// The model of the node.
    pub open spec fn tree(&self) -> Tree
        decreases self, 1nat,
    {
        Tree {
            kind: NodeKind::FunCall,
            position: self.abs_position@,
            symbol: None,
            children: self.children(),
        }
    }

    /// The node with the given parts, whose span covers all of them.
    pub fn new(name: AbsExprName, args: AbsExprs) -> (made: AbsFunCall)
        ensures
            made.name == name,
            made.args == args,
            made@ == node(NodeKind::FunCall, None, None, made.children()),
            name@.well_spanned() && args@.well_spanned() ==> made@.well_spanned(),
            name@.positioned() && args@.positioned() ==> made@.positioned(),
    {
        let mut made = AbsFunCall {
            abs_position: AbsPosition::new(),
            name,
            args,
        };
        made.calculate_abs_position();
        made
    }

    /// Extends the span to cover all parts of the node.
    pub fn calculate_abs_position(&mut self)
        ensures
            final(self).name == old(self).name,
            final(self).args == old(self).args,
            final(self)@ == node(
                old(self)@.kind,
                old(self).span(),
                old(self)@.symbol,
                old(self).children(),
            ),
            old(self).name@.well_spanned() && old(self).args@.well_spanned()
                ==> final(self)@.well_spanned(),
            old(self).name@.positioned() && old(self).args@.positioned()
                ==> final(self)@.positioned(),
    {
        self.abs_position.cover(self.name.get_position_ref());
        self.abs_position.cover(self.args.get_position_ref());
        proof {
            lemma_cover_all_unfold(self.children());
            let start = old(self).span();
            if all_well_spanned(self.children()) {
                lemma_node_well_spanned(self@.kind, start, self@.symbol, self.children());
            }
            if all_positioned(self.children()) {
                lemma_node_positioned(self@.kind, start, self@.symbol, self.children());
            }
        }
    }
}

impl View for AbsFunCall {
    type V = Tree;

    open spec fn view(&self) -> Tree {
        self.tree()
    }
}

impl Positioner for AbsFunCall {
    open spec fn span(&self) -> Option<Span> {
        self.abs_position@
    }

    fn get_position_ref(&self) -> (position: Option<&Position>) {
        self.abs_position.get_position_ref()
    }

    fn get_position_ref_mut(&mut self) -> (position: Option<&mut Position>)
        ensures
            final(self)@ == old(self)@.at(final(self).span()),
    {
        self.abs_position.get_position_ref_mut()
    }

    fn set_min(&mut self, position: &Position)
        ensures
            final(self)@ == old(self)@.at(with_min(old(self).span(), position@)),
            old(self)@.well_spanned() ==> final(self)@.well_spanned(),
    {
        self.abs_position.set_min(position);
        proof {
            if old(self)@.well_spanned() {
                lemma_extended_well_spanned(old(self)@, position@);
            }
        }
    }

    fn set_max(&mut self, position: &Position)
        ensures
            final(self)@ == old(self)@.at(with_max(old(self).span(), position@)),
            old(self)@.well_spanned() ==> final(self)@.well_spanned(),
    {
        self.abs_position.set_max(position);
        proof {
            if old(self)@.well_spanned() {
                lemma_extended_well_spanned(old(self)@, position@);
            }
        }
    }
}

impl AbsTree for AbsFunCall {
    fn accept<V: Visitor>(&self, visitor: &mut V)
        ensures
            *final(visitor) == old(visitor).after(self@),
    {
        visitor.visit_abs_fun_call(self);
    }
}

impl XMLable for AbsFunCall {
    open spec fn xml(&self) -> Seq<char> {
        self@.xml()
    }

    fn to_xml(&self, xml: &mut String)
        decreases self,
    {
        NodeKind::FunCall.open_xml(xml);
        self.abs_position.to_xml(xml);
        let ghost base = xml@;
        self.name.to_xml(xml);
        self.args.to_xml(xml);
        proof {
            lemma_children_appended(base, self.children());
        }
        push_text(xml, "</absnode>\n");
        proof {
            lemma_element_appended(old(xml)@, self@);
        }
    }
}

/// An expression with the declarations that hold in it.
pub struct AbsWhereExpr {
    pub abs_position: AbsPosition,
    /// The expression.
    pub sub_expr: Box<AbsExpr>,
    /// The declarations.
    pub decls: AbsDecls,
}

impl AbsWhereExpr {
    /// The models of the children, in the order in which they are traversed.
    pub open spec fn children(&self) -> Seq<Tree>
        decreases self, 0nat,
    {
        seq![self.sub_expr.tree(), self.decls.tree()]
    }

    /// The model of the node.
    pub open spec fn tree(&self) -> Tree
        decreases self, 1nat,
    {
        Tree {
            kind: NodeKind::WhereExpr,
            position: self.abs_position@,
            symbol: None,
            children: self.children(),
        }
    }

    /// The node with the given parts, whose span covers all of them.
    pub fn new(sub_expr: Box<AbsExpr>, decls: AbsDecls) -> (made: AbsWhereExpr)
        ensures
            made.sub_expr == sub_expr,
            made.decls == decls,
            made@ == node(NodeKind::WhereExpr, None, None, made.children()),
            sub_expr@.well_spanned() && decls@.well_spanned() ==> made@.well_spanned(),
            sub_expr@.positioned() && decls@.positioned() ==> made@.positioned(),
    {
        let mut made = AbsWhereExpr {
            abs_position: AbsPosition::new(),
            sub_expr,
            decls,
        };
        made.calculate_abs_position();
        made
    }

    /// Extends the span to cover all parts of the node.
    pub fn calculate_abs_position(&mut self)
        ensures
            final(self).sub_expr == old(self).sub_expr,
            final(self).decls == old(self).decls,
            final(self)@ == node(
                old(self)@.kind,
                old(self).span(),
                old(self)@.symbol,
                old(self).children(),
            ),
            old(self).sub_expr@.well_spanned() && old(self).decls@.well_spanned()
                ==> final(self)@.well_spanned(),
            old(self).sub_expr@.positioned() && old(self).decls@.positioned()
                ==> final(self)@.positioned(),
    {
        self.abs_position.cover(self.sub_expr.get_position_ref());
        self.abs_position.cover(self.decls.get_position_ref());
        proof {
            lemma_cover_all_unfold(self.children());
            let start = old(self).span();
            if all_well_spanned(self.children()) {
                lemma_node_well_spanned(self@.kind, start, self@.symbol, self.children());
            }
            if all_positioned(self.children()) {
                lemma_node_positioned(self@.kind, start, self@.symbol, self.children());
            }
        }
    }
}

impl View for AbsWhereExpr {
    type V = Tree;

    open spec fn view(&self) -> Tree {
        self.tree()
    }
}

impl Positioner for AbsWhereExpr {
    open spec fn span(&self) -> Option<Span> {
        self.abs_position@
    }

    fn get_position_ref(&self) -> (position: Option<&Position>) {
        self.abs_position.get_position_ref()
    }

    fn get_position_ref_mut(&mut self) -> (position: Option<&mut Position>)
        ensures
            final(self)@ == old(self)@.at(final(self).span()),
    {
        self.abs_position.get_position_ref_mut()
    }

    fn set_min(&mut self, position: &Position)
        ensures
            final(self)@ == old(self)@.at(with_min(old(self).span(), position@)),
            old(self)@.well_spanned() ==> final(self)@.well_spanned(),
    {
        self.abs_position.set_min(position);
        proof {
            if old(self)@.well_spanned() {
                lemma_extended_well_spanned(old(self)@, position@);
            }
        }
    }

    fn set_max(&mut self, position: &Position)
        ensures
            final(self)@ == old(self)@.at(with_max(old(self).span(), position@)),
            old(self)@.well_spanned() ==> final(self)@.well_spanned(),
    {
        self.abs_position.set_max(position);
        proof {
            if old(self)@.well_spanned() {
                lemma_extended_well_spanned(old(self)@, position@);
            }
        }
    }
}

impl AbsTree for AbsWhereExpr {
    fn accept<V: Visitor>(&self, visitor: &mut V)
        ensures
            *final(visitor) == old(visitor).after(self@),
    {
        visitor.visit_abs_where_expr(self);
    }
}

impl XMLable for AbsWhereExpr {
    open spec fn xml(&self) -> Seq<char> {
        self@.xml()
    }

    fn to_xml(&self, xml: &mut String)
        decreases self,
    {
        NodeKind::WhereExpr.open_xml(xml);
        self.abs_position.to_xml(xml);
        let ghost base = xml@;
        self.sub_expr.to_xml(xml);
        self.decls.to_xml(xml);
        proof {
            lemma_children_appended(base, self.children());
        }
        push_text(xml, "</absnode>\n");
        proof {
            lemma_element_appended(old(xml)@, self@);
        }
    }
}

} // verus!
