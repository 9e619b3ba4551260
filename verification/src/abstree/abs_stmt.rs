//! Statements, which are expressions of their own kinds.

use crate::abstree::AbsTree;
use crate::abstree::abs_expr::{AbsExpr, AbsExprName};
use crate::abstree::abs_position::AbsPosition;
use crate::abstree::positioner::Positioner;
use crate::abstree::tree::{
    all_positioned, all_well_spanned, lemma_children_appended, lemma_cover_all_unfold,
    lemma_element_appended, lemma_extended_well_spanned, lemma_node_positioned,
    lemma_node_well_spanned, node, with_max, with_min, NodeKind, Tree,
};
use crate::abstree::visitor::Visitor;
use crate::lexanal::position::{Position, Span};
use crate::text::push_text;
use crate::xml::XMLable;
use vstd::prelude::*;

verus! {

/// A statement of any kind.
pub enum AbsStmt {
    AssignStmt(AbsAssignStmt),
    IfStmt(AbsIfStmt),
    ForStmt(AbsForStmt),
    WhileStmt(AbsWhileStmt),
}

impl AbsStmt {
    /// The model of the node.
    pub open spec fn tree(&self) -> Tree
        decreases self, 2nat,
    {
        match self {
            AbsStmt::AssignStmt(n) => n.tree(),
            AbsStmt::IfStmt(n) => n.tree(),
            AbsStmt::ForStmt(n) => n.tree(),
            AbsStmt::WhileStmt(n) => n.tree(),
        }
    }
}

impl View for AbsStmt {
    type V = Tree;

    open spec fn view(&self) -> Tree {
        self.tree()
    }
}

impl Positioner for AbsStmt {
    open spec fn span(&self) -> Option<Span> {
        self.tree().position
    }

    fn get_position_ref(&self) -> (position: Option<&Position>) {
        match self {
            AbsStmt::AssignStmt(n) => n.get_position_ref(),
            AbsStmt::IfStmt(n) => n.get_position_ref(),
            AbsStmt::ForStmt(n) => n.get_position_ref(),
            AbsStmt::WhileStmt(n) => n.get_position_ref(),
        }
    }

    fn get_position_ref_mut(&mut self) -> (position: Option<&mut Position>)
        ensures
            final(self)@ == old(self)@.at(final(self).span()),
    {
        match self {
            AbsStmt::AssignStmt(n) => n.get_position_ref_mut(),
            AbsStmt::IfStmt(n) => n.get_position_ref_mut(),
            AbsStmt::ForStmt(n) => n.get_position_ref_mut(),
            AbsStmt::WhileStmt(n) => n.get_position_ref_mut(),
        }
    }

    fn set_min(&mut self, position: &Position)
        ensures
            final(self)@ == old(self)@.at(with_min(old(self).span(), position@)),
            old(self)@.well_spanned() ==> final(self)@.well_spanned(),
    {
        match self {
            AbsStmt::AssignStmt(n) => n.set_min(position),
            AbsStmt::IfStmt(n) => n.set_min(position),
            AbsStmt::ForStmt(n) => n.set_min(position),
            AbsStmt::WhileStmt(n) => n.set_min(position),
        }
    }

    fn set_max(&mut self, position: &Position)
        ensures
            final(self)@ == old(self)@.at(with_max(old(self).span(), position@)),
            old(self)@.well_spanned() ==> final(self)@.well_spanned(),
    {
        match self {
            AbsStmt::AssignStmt(n) => n.set_max(position),
            AbsStmt::IfStmt(n) => n.set_max(position),
            AbsStmt::ForStmt(n) => n.set_max(position),
            AbsStmt::WhileStmt(n) => n.set_max(position),
        }
    }
}

impl AbsTree for AbsStmt {
    /// Hands the node to the method that the visitor has for its kind.
    fn accept<V: Visitor>(&self, visitor: &mut V)
        ensures
            *final(visitor) == old(visitor).after(self@),
    {
        match self {
            AbsStmt::AssignStmt(n) => n.accept(visitor),
            AbsStmt::IfStmt(n) => n.accept(visitor),
            AbsStmt::ForStmt(n) => n.accept(visitor),
            AbsStmt::WhileStmt(n) => n.accept(visitor),
        }
    }
}

impl XMLable for AbsStmt {
    open spec fn xml(&self) -> Seq<char> {
        self@.xml()
    }

    fn to_xml(&self, xml: &mut String)
        decreases self,
    {
        match self {
            AbsStmt::AssignStmt(n) => n.to_xml(xml),
            AbsStmt::IfStmt(n) => n.to_xml(xml),
            AbsStmt::ForStmt(n) => n.to_xml(xml),
            AbsStmt::WhileStmt(n) => n.to_xml(xml),
        }
    }
}

/// An assignment.
pub struct AbsAssignStmt {
    pub abs_position: AbsPosition,
    /// What is assigned to.
    pub left_sub_expr: Box<AbsExpr>,
    /// What is assigned.
    pub right_sub_expr: Box<AbsExpr>,
}

impl AbsAssignStmt {
    /// The models of the children, in the order in which they are traversed.
    pub open spec fn children(&self) -> Seq<Tree>
        decreases self, 0nat,
    {
        seq![self.left_sub_expr.tree(), self.right_sub_expr.tree()]
    }

    /// The model of the node.
    pub open spec fn tree(&self) -> Tree
        decreases self, 1nat,
    {
        Tree {
            kind: NodeKind::AssignStmt,
            position: self.abs_position@,
            symbol: None,
            children: self.children(),
        }
    }

    /// The node with the given parts, whose span covers all of them.
    pub fn new(left_sub_expr: Box<AbsExpr>, right_sub_expr: Box<AbsExpr>) -> (made: AbsAssignStmt)
        ensures
            made.left_sub_expr == left_sub_expr,
            made.right_sub_expr == right_sub_expr,
            made@ == node(NodeKind::AssignStmt, None, None, made.children()),
            left_sub_expr@.well_spanned() && right_sub_expr@.well_spanned()
                ==> made@.well_spanned(),
            left_sub_expr@.positioned() && right_sub_expr@.positioned() ==> made@.positioned(),
    {
        let mut made = AbsAssignStmt {
            abs_position: AbsPosition::new(),
            left_sub_expr,
            right_sub_expr,
        };
        made.calculate_abs_position();
        made
    }

    /// Extends the span to cover all parts of the node.
    pub fn calculate_abs_position(&mut self)
        ensures
            final(self).left_sub_expr == old(self).left_sub_expr,
            final(self).right_sub_expr == old(self).right_sub_expr,
            final(self)@ == node(
                old(self)@.kind,
                old(self).span(),
                old(self)@.symbol,
                old(self).children(),
            ),
            old(self).left_sub_expr@.well_spanned() && old(self).right_sub_expr@.well_spanned()
                ==> final(self)@.well_spanned(),
            old(self).left_sub_expr@.positioned() && old(self).right_sub_expr@.positioned()
                ==> final(self)@.positioned(),
    {
        self.abs_position.cover(self.left_sub_expr.get_position_ref());
        self.abs_position.cover(self.right_sub_expr.get_position_ref());
        proof {
            lemma_cover_all_unfold(self.children());
            let start = old(self).span();
            if all_well_spanned(self.children()) {
                lemma_node_well_spanned(self@.kind, start, self@.symbol, self.children());
            }
            if all_positioned(self.children()) {
                lemma_node_positioned(self@.kind, start, self@.symbol, self.children());
            }
        }
    }
}

impl View for AbsAssignStmt {
    type V = Tree;

    open spec fn view(&self) -> Tree {
        self.tree()
    }
}

impl Positioner for AbsAssignStmt {
    open spec fn span(&self) -> Option<Span> {
        self.abs_position@
    }

    fn get_position_ref(&self) -> (position: Option<&Position>) {
        self.abs_position.get_position_ref()
    }

    fn get_position_ref_mut(&mut self) -> (position: Option<&mut Position>)
        ensures
            final(self)@ == old(self)@.at(final(self).span()),
    {
        self.abs_position.get_position_ref_mut()
    }

    fn set_min(&mut self, position: &Position)
        ensures
            final(self)@ == old(self)@.at(with_min(old(self).span(), position@)),
            old(self)@.well_spanned() ==> final(self)@.well_spanned(),
    {
        self.abs_position.set_min(position);
        proof {
            if old(self)@.well_spanned() {
                lemma_extended_well_spanned(old(self)@, position@);
            }
        }
    }

    fn set_max(&mut self, position: &Position)
        ensures
            final(self)@ == old(self)@.at(with_max(old(self).span(), position@)),
            old(self)@.well_spanned() ==> final(self)@.well_spanned(),
    {
        self.abs_position.set_max(position);
        proof {
            if old(self)@.well_spanned() {
                lemma_extended_well_spanned(old(self)@, position@);
            }
        }
    }
}

impl AbsTree for AbsAssignStmt {
    fn accept<V: Visitor>(&self, visitor: &mut V)
        ensures
            *final(visitor) == old(visitor).after(self@),
    {
        visitor.visit_abs_assign_stmt(self);
    }
}

impl XMLable for AbsAssignStmt {
    open spec fn xml(&self) -> Seq<char> {
        self@.xml()
    }

    fn to_xml(&self, xml: &mut String)
        decreases self,
    {
        NodeKind::AssignStmt.open_xml(xml);
        self.abs_position.to_xml(xml);
        let ghost base = xml@;
        self.left_sub_expr.to_xml(xml);
        self.right_sub_expr.to_xml(xml);
        proof {
            lemma_children_appended(base, self.children());
        }
        push_text(xml, "</absnode>\n");
        proof {
            lemma_element_appended(old(xml)@, self@);
        }
    }
}

/// A conditional.
pub struct AbsIfStmt {
    pub abs_position: AbsPosition,
    /// The condition.
    pub cond_expr: Box<AbsExpr>,
    /// What is evaluated if it holds.
    pub then_expr: Box<AbsExpr>,
    /// What is evaluated if it does not hold.
    pub else_expr: Option<Box<AbsExpr>>,
}

impl AbsIfStmt {
    /// The models of the children, in the order in which they are traversed.
    pub open spec fn children(&self) -> Seq<Tree>
        decreases self, 0nat,
    {
        match self.else_expr {
            Some(e) => seq![self.cond_expr.tree(), self.then_expr.tree()].push(e.tree()),
            None => seq![self.cond_expr.tree(), self.then_expr.tree()],
        }
    }

    /// The model of the node.
    pub open spec fn tree(&self) -> Tree
        decreases self, 1nat,
    {
        Tree {
            kind: NodeKind::IfStmt,
            position: self.abs_position@,
            symbol: None,
            children: self.children(),
        }
    }

    /// The node with the given parts, whose span covers all of them.
    pub fn new(
        cond_expr: Box<AbsExpr>,
        then_expr: Box<AbsExpr>,
        else_expr: Option<Box<AbsExpr>>,
    ) -> (made: AbsIfStmt)
        ensures
            made.cond_expr == cond_expr,
            made.then_expr == then_expr,
            made.else_expr == else_expr,
            made@ == node(NodeKind::IfStmt, None, None, made.children()),
            cond_expr@.well_spanned() && then_expr@.well_spanned()
                && (else_expr matches Some(e) ==> e@.well_spanned()) ==> made@.well_spanned(),
            cond_expr@.positioned() && then_expr@.positioned()
                && (else_expr matches Some(e) ==> e@.positioned()) ==> made@.positioned(),
    {
        let mut made = AbsIfStmt {
            abs_position: AbsPosition::new(),
            cond_expr,
            then_expr,
            else_expr,
        };
        made.calculate_abs_position();
        made
    }

    /// Extends the span to cover all parts of the node.
    pub fn calculate_abs_position(&mut self)
        ensures
            final(self).cond_expr == old(self).cond_expr,
            final(self).then_expr == old(self).then_expr,
            final(self).else_expr == old(self).else_expr,
            final(self)@ == node(
                old(self)@.kind,
                old(self).span(),
                old(self)@.symbol,
                old(self).children(),
            ),
            old(self).cond_expr@.well_spanned() && old(self).then_expr@.well_spanned()
                && (old(self).else_expr matches Some(e) ==> e@.well_spanned())
                ==> final(self)@.well_spanned(),
            old(self).cond_expr@.positioned() && old(self).then_expr@.positioned()
                && (old(self).else_expr matches Some(e) ==> e@.positioned())
                ==> final(self)@.positioned(),
    {
        self.abs_position.cover(self.cond_expr.get_position_ref());
        self.abs_position.cover(self.then_expr.get_position_ref());
        match &self.else_expr {
            Some(e) => self.abs_position.cover(e.get_position_ref()),
            None => {},
        }
        proof {
            lemma_cover_all_unfold(self.children());
            let start = old(self).span();
            if all_well_spanned(self.children()) {
                lemma_node_well_spanned(self@.kind, start, self@.symbol, self.children());
            }
            if all_positioned(self.children()) {
                lemma_node_positioned(self@.kind, start, self@.symbol, self.children());
            }
        }
    }
}

impl View for AbsIfStmt {
    type V = Tree;

    open spec fn view(&self) -> Tree {
        self.tree()
    }
}

impl Positioner for AbsIfStmt {
    open spec fn span(&self) -> Option<Span> {
        self.abs_position@
    }

    fn get_position_ref(&self) -> (position: Option<&Position>) {
        self.abs_position.get_position_ref()
    }

    fn get_position_ref_mut(&mut self) -> (position: Option<&mut Position>)
        ensures
            final(self)@ == old(self)@.at(final(self).span()),
    {
        self.abs_position.get_position_ref_mut()
    }

    fn set_min(&mut self, position: &Position)
        ensures
            final(self)@ == old(self)@.at(with_min(old(self).span(), position@)),
            old(self)@.well_spanned() ==> final(self)@.well_spanned(),
    {
        self.abs_position.set_min(position);
        proof {
            if old(self)@.well_spanned() {
                lemma_extended_well_spanned(old(self)@, position@);
            }
        }
    }

    fn set_max(&mut self, position: &Position)
        ensures
            final(self)@ == old(self)@.at(with_max(old(self).span(), position@)),
            old(self)@.well_spanned() ==> final(self)@.well_spanned(),
    {
        self.abs_position.set_max(position);
        proof {
            if old(self)@.well_spanned() {
                lemma_extended_well_spanned(old(self)@, position@);
            }
        }
    }
}

impl AbsTree for AbsIfStmt {
    fn accept<V: Visitor>(&self, visitor: &mut V)
        ensures
            *final(visitor) == old(visitor).after(self@),
    {
        visitor.visit_abs_if_stmt(self);
    }
}

impl XMLable for AbsIfStmt {
    open spec fn xml(&self) -> Seq<char> {
        self@.xml()
    }

    fn to_xml(&self, xml: &mut String)
        decreases self,
    {
        NodeKind::IfStmt.open_xml(xml);
        self.abs_position.to_xml(xml);
        let ghost base = xml@;
        self.cond_expr.to_xml(xml);
        self.then_expr.to_xml(xml);
        match &self.else_expr {
            Some(e) => e.to_xml(xml),
            None => {},
        }
        proof {
            lemma_children_appended(base, self.children());
        }
        push_text(xml, "</absnode>\n");
        proof {
            lemma_element_appended(old(xml)@, self@);
        }
    }
}

/// A counting loop.
pub struct AbsForStmt {
    pub abs_position: AbsPosition,
    /// The loop variable.
    pub var_name: AbsExprName,
    /// The lower bound.
    pub lower_bound: Box<AbsExpr>,
    /// The upper bound.
    pub higher_bound: Box<AbsExpr>,
    /// The body.
    pub loop_exprs: Box<AbsExpr>,
}

impl AbsForStmt {
    /// The models of the children, in the order in which they are traversed.
    pub open spec fn children(&self) -> Seq<Tree>
        decreases self, 0nat,
    {
        seq![
            self.var_name.tree(),
            self.lower_bound.tree(),
            self.higher_bound.tree(),
            self.loop_exprs.tree(),
        ]
    }

    /// The model of the node.
    pub open spec fn tree(&self) -> Tree
        decreases self, 1nat,
    {
        Tree {
            kind: NodeKind::ForStmt,
            position: self.abs_position@,
            symbol: None,
            children: self.children(),
        }
    }

    /// The node with the given parts, whose span covers all of them.
    pub fn new(
        var_name: AbsExprName,
        lower_bound: Box<AbsExpr>,
        higher_bound: Box<AbsExpr>,
        loop_exprs: Box<AbsExpr>,
    ) -> (made: AbsForStmt)
        ensures
            made.var_name == var_name,
            made.lower_bound == lower_bound,
            made.higher_bound == higher_bound,
            made.loop_exprs == loop_exprs,
            made@ == node(NodeKind::ForStmt, None, None, made.children()),
            var_name@.well_spanned() && lower_bound@.well_spanned() && higher_bound@.well_spanned()
                && loop_exprs@.well_spanned() ==> made@.well_spanned(),
            var_name@.positioned() && lower_bound@.positioned() && higher_bound@.positioned()
                && loop_exprs@.positioned() ==> made@.positioned(),
    {
        let mut made = AbsForStmt {
            abs_position: AbsPosition::new(),
            var_name,
            lower_bound,
            higher_bound,
            loop_exprs,
        };
        made.calculate_abs_position();
        made
    }

    /// Extends the span to cover all parts of the node.
    pub fn calculate_abs_position(&mut self)
        ensures
            final(self).var_name == old(self).var_name,
            final(self).lower_bound == old(self).lower_bound,
            final(self).higher_bound == old(self).higher_bound,
            final(self).loop_exprs == old(self).loop_exprs,
            final(self)@ == node(
                old(self)@.kind,
                old(self).span(),
                old(self)@.symbol,
                old(self).children(),
            ),
            old(self).var_name@.well_spanned() && old(self).lower_bound@.well_spanned()
                && old(self).higher_bound@.well_spanned() && old(self).loop_exprs@.well_spanned()
                ==> final(self)@.well_spanned(),
            old(self).var_name@.positioned() && old(self).lower_bound@.positioned()
                && old(self).higher_bound@.positioned() && old(self).loop_exprs@.positioned()
                ==> final(self)@.positioned(),
    {
        self.abs_position.cover(self.var_name.get_position_ref());
        self.abs_position.cover(self.lower_bound.get_position_ref());
        self.abs_position.cover(self.higher_bound.get_position_ref());
        self.abs_position.cover(self.loop_exprs.get_position_ref());
        proof {
            lemma_cover_all_unfold(self.children());
            let start = old(self).span();
            if all_well_spanned(self.children()) {
                lemma_node_well_spanned(self@.kind, start, self@.symbol, self.children());
            }
            if all_positioned(self.children()) {
                lemma_node_positioned(self@.kind, start, self@.symbol, self.children());
            }
        }
    }
}

impl View for AbsForStmt {
    type V = Tree;

    open spec fn view(&self) -> Tree {
        self.tree()
    }
}

impl Positioner for AbsForStmt {
    open spec fn span(&self) -> Option<Span> {
        self.abs_position@
    }

    fn get_position_ref(&self) -> (position: Option<&Position>) {
        self.abs_position.get_position_ref()
    }

    fn get_position_ref_mut(&mut self) -> (position: Option<&mut Position>)
        ensures
            final(self)@ == old(self)@.at(final(self).span()),
    {
        self.abs_position.get_position_ref_mut()
    }

    fn set_min(&mut self, position: &Position)
        ensures
            final(self)@ == old(self)@.at(with_min(old(self).span(), position@)),
            old(self)@.well_spanned() ==> final(self)@.well_spanned(),
    {
        self.abs_position.set_min(position);
        proof {
            if old(self)@.well_spanned() {
                lemma_extended_well_spanned(old(self)@, position@);
            }
        }
    }

    fn set_max(&mut self, position: &Position)
        ensures
            final(self)@ == old(self)@.at(with_max(old(self).span(), position@)),
            old(self)@.well_spanned() ==> final(self)@.well_spanned(),
    {
        self.abs_position.set_max(position);
        proof {
            if old(self)@.well_spanned() {
                lemma_extended_well_spanned(old(self)@, position@);
            }
        }
    }
}

impl AbsTree for AbsForStmt {
    fn accept<V: Visitor>(&self, visitor: &mut V)
        ensures
            *final(visitor) == old(visitor).after(self@),
    {
        visitor.visit_abs_for_stmt(self);
    }
}

impl XMLable for AbsForStmt {
    open spec fn xml(&self) -> Seq<char> {
        self@.xml()
    }

    fn to_xml(&self, xml: &mut String)
        decreases self,
    {
        NodeKind::ForStmt.open_xml(xml);
        self.abs_position.to_xml(xml);
        let ghost base = xml@;
        self.var_name.to_xml(xml);
        self.lower_bound.to_xml(xml);
        self.higher_bound.to_xml(xml);
        self.loop_exprs.to_xml(xml);
        proof {
            lemma_children_appended(base, self.children());
        }
        push_text(xml, "</absnode>\n");
        proof {
            lemma_element_appended(old(xml)@, self@);
        }
    }
}

/// A loop with a condition.
pub struct AbsWhileStmt {
    pub abs_position: AbsPosition,
    /// The condition.
    pub cond_expr: Box<AbsExpr>,
    /// The body.
    pub loop_expr: Box<AbsExpr>,
}

impl AbsWhileStmt {
    /// The models of the children, in the order in which they are traversed.
    pub open spec fn children(&self) -> Seq<Tree>
        decreases self, 0nat,
    {
        seq![self.cond_expr.tree(), self.loop_expr.tree()]
    }

    /// The model of the node.
    pub open spec fn tree(&self) -> Tree
        decreases self, 1nat,
    {
        Tree {
            kind: NodeKind::WhileStmt,
            position: self.abs_position@,
            symbol: None,
            children: self.children(),
        }
    }

    /// The node with the given parts, whose span covers all of them.
    pub fn new(cond_expr: Box<AbsExpr>, loop_expr: Box<AbsExpr>) -> (made: AbsWhileStmt)
        ensures
            made.cond_expr == cond_expr,
            made.loop_expr == loop_expr,
            made@ == node(NodeKind::WhileStmt, None, None, made.children()),
            cond_expr@.well_spanned() && loop_expr@.well_spanned() ==> made@.well_spanned(),
            cond_expr@.positioned() && loop_expr@.positioned() ==> made@.positioned(),
    {
        let mut made = AbsWhileStmt {
            abs_position: AbsPosition::new(),
            cond_expr,
            loop_expr,
        };
        made.calculate_abs_position();
        made
    }

    /// Extends the span to cover all parts of the node.
    pub fn calculate_abs_position(&mut self)
        ensures
            final(self).cond_expr == old(self).cond_expr,
            final(self).loop_expr == old(self).loop_expr,
            final(self)@ == node(
                old(self)@.kind,
                old(self).span(),
                old(self)@.symbol,
                old(self).children(),
            ),
            old(self).cond_expr@.well_spanned() && old(self).loop_expr@.well_spanned()
                ==> final(self)@.well_spanned(),
            old(self).cond_expr@.positioned() && old(self).loop_expr@.positioned()
                ==> final(self)@.positioned(),
    {
        self.abs_position.cover(self.cond_expr.get_position_ref());
        self.abs_position.cover(self.loop_expr.get_position_ref());
        proof {
            lemma_cover_all_unfold(self.children());
            let start = old(self).span();
            if all_well_spanned(self.children()) {
                lemma_node_well_spanned(self@.kind, start, self@.symbol, self.children());
            }
            if all_positioned(self.children()) {
                lemma_node_positioned(self@.kind, start, self@.symbol, self.children());
            }
        }
    }
}

impl View for AbsWhileStmt {
    type V = Tree;

    open spec fn view(&self) -> Tree {
        self.tree()
    }
}

impl Positioner for AbsWhileStmt {
    open spec fn span(&self) -> Option<Span> {
        self.abs_position@
    }

    fn get_position_ref(&self) -> (position: Option<&Position>) {
        self.abs_position.get_position_ref()
    }

    fn get_position_ref_mut(&mut self) -> (position: Option<&mut Position>)
        ensures
            final(self)@ == old(self)@.at(final(self).span()),
    {
        self.abs_position.get_position_ref_mut()
    }

    fn set_min(&mut self, position: &Position)
        ensures
            final(self)@ == old(self)@.at(with_min(old(self).span(), position@)),
            old(self)@.well_spanned() ==> final(self)@.well_spanned(),
    {
        self.abs_position.set_min(position);
        proof {
            if old(self)@.well_spanned() {
                lemma_extended_well_spanned(old(self)@, position@);
            }
        }
    }

    fn set_max(&mut self, position: &Position)
        ensures
            final(self)@ == old(self)@.at(with_max(old(self).span(), position@)),
            old(self)@.well_spanned() ==> final(self)@.well_spanned(),
    {
        self.abs_position.set_max(position);
        proof {
            if old(self)@.well_spanned() {
                lemma_extended_well_spanned(old(self)@, position@);
            }
        }
    }
}

impl AbsTree for AbsWhileStmt {
    fn accept<V: Visitor>(&self, visitor: &mut V)
        ensures
            *final(visitor) == old(visitor).after(self@),
    {
        visitor.visit_abs_while_stmt(self);
    }
}

impl XMLable for AbsWhileStmt {
    open spec fn xml(&self) -> Seq<char> {
        self@.xml()
    }

    fn to_xml(&self, xml: &mut String)
        decreases self,
    {
        NodeKind::WhileStmt.open_xml(xml);
        self.abs_position.to_xml(xml);
        let ghost base = xml@;
        self.cond_expr.to_xml(xml);
        self.loop_expr.to_xml(xml);
        proof {
            lemma_children_appended(base, self.children());
        }
        push_text(xml, "</absnode>\n");
        proof {
            lemma_element_appended(old(xml)@, self@);
        }
    }
}

} // verus!
