//! Declarations.

use crate::abstree::AbsTree;
use crate::abstree::abs_expr::{AbsExpr, AbsExprName};
use crate::abstree::abs_position::AbsPosition;
use crate::abstree::abs_type::{AbsType, AbsTypeName};
use crate::abstree::positioner::Positioner;
use crate::abstree::tree::{
    all_positioned, all_well_spanned, cover_all, lemma_child_appended, lemma_children_appended,
    lemma_cover_all_unfold, lemma_element_appended, lemma_extended_well_spanned,
    lemma_node_positioned, lemma_node_well_spanned, node, with_max, with_min, xml_of_all, NodeKind,
    Tree,
};
use crate::abstree::visitor::Visitor;
use crate::lexanal::position::{Position, Span};
use crate::text::push_text;
use crate::xml::XMLable;
use vstd::prelude::*;

verus! {

/// A declaration of any kind.
pub enum AbsDecl {
    Decls(AbsDecls),
    VarDecl(AbsVarDecl),
    FunDecl(AbsFunDecl),
    TypeDecl(AbsTypeDecl),
}

impl AbsDecl {
    /// The model of the node.
    pub open spec fn tree(&self) -> Tree
        decreases self, 2nat,
    {
        match self {
            AbsDecl::Decls(n) => n.tree(),
            AbsDecl::VarDecl(n) => n.tree(),
            AbsDecl::FunDecl(n) => n.tree(),
            AbsDecl::TypeDecl(n) => n.tree(),
        }
    }
}

impl View for AbsDecl {
    type V = Tree;

    open spec fn view(&self) -> Tree {
        self.tree()
    }
}

impl Positioner for AbsDecl {
    open spec fn span(&self) -> Option<Span> {
        self.tree().position
    }

    fn get_position_ref(&self) -> (position: Option<&Position>) {
        match self {
            AbsDecl::Decls(n) => n.get_position_ref(),
            AbsDecl::VarDecl(n) => n.get_position_ref(),
            AbsDecl::FunDecl(n) => n.get_position_ref(),
            AbsDecl::TypeDecl(n) => n.get_position_ref(),
        }
    }

    fn get_position_ref_mut(&mut self) -> (position: Option<&mut Position>)
        ensures
            final(self)@ == old(self)@.at(final(self).span()),
    {
        match self {
            AbsDecl::Decls(n) => n.get_position_ref_mut(),
            AbsDecl::VarDecl(n) => n.get_position_ref_mut(),
            AbsDecl::FunDecl(n) => n.get_position_ref_mut(),
            AbsDecl::TypeDecl(n) => n.get_position_ref_mut(),
        }
    }

    fn set_min(&mut self, position: &Position)
        ensures
            final(self)@ == old(self)@.at(with_min(old(self).span(), position@)),
            old(self)@.well_spanned() ==> final(self)@.well_spanned(),
    {
        match self {
            AbsDecl::Decls(n) => n.set_min(position),
            AbsDecl::VarDecl(n) => n.set_min(position),
            AbsDecl::FunDecl(n) => n.set_min(position),
            AbsDecl::TypeDecl(n) => n.set_min(position),
        }
    }

    fn set_max(&mut self, position: &Position)
        ensures
            final(self)@ == old(self)@.at(with_max(old(self).span(), position@)),
            old(self)@.well_spanned() ==> final(self)@.well_spanned(),
    {
        match self {
            AbsDecl::Decls(n) => n.set_max(position),
            AbsDecl::VarDecl(n) => n.set_max(position),
            AbsDecl::FunDecl(n) => n.set_max(position),
            AbsDecl::TypeDecl(n) => n.set_max(position),
        }
    }
}

impl AbsTree for AbsDecl {
    /// Hands the node to the method that the visitor has for its kind.
    fn accept<V: Visitor>(&self, visitor: &mut V)
        ensures
            *final(visitor) == old(visitor).after(self@),
    {
        match self {
            AbsDecl::Decls(n) => n.accept(visitor),
            AbsDecl::VarDecl(n) => n.accept(visitor),
            AbsDecl::FunDecl(n) => n.accept(visitor),
            AbsDecl::TypeDecl(n) => n.accept(visitor),
        }
    }
}

impl XMLable for AbsDecl {
    open spec fn xml(&self) -> Seq<char> {
        self@.xml()
    }

    fn to_xml(&self, xml: &mut String)
        decreases self,
    {
        match self {
            AbsDecl::Decls(n) => n.to_xml(xml),
            AbsDecl::VarDecl(n) => n.to_xml(xml),
            AbsDecl::FunDecl(n) => n.to_xml(xml),
            AbsDecl::TypeDecl(n) => n.to_xml(xml),
        }
    }
}

/// A list of declarations, in the order of the source.
pub struct AbsDecls {
    pub abs_position: AbsPosition,
    pub decls: Vec<AbsDecl>,
}

impl AbsDecls {
    /// The models of the children, in the order in which they are traversed.
    pub open spec fn children(&self) -> Seq<Tree>
        decreases self, 0nat,
    {
        Seq::new(
            self.decls@.len(),
            |i: int|
                if 0 <= i < self.decls@.len() {
                    self.decls@[i].tree()
                } else {
                    arbitrary()
                },
        )
    }

    /// The model of the node.
    pub open spec fn tree(&self) -> Tree
        decreases self, 1nat,
    {
        Tree {
            kind: NodeKind::Decls,
            position: self.abs_position@,
            symbol: None,
            children: self.children(),
        }
    }

    /// The empty list, which has no span.
    pub fn new() -> (made: AbsDecls)
        ensures
            made.decls@.len() == 0,
            made@ == node(NodeKind::Decls, None, None, Seq::empty()),
    {
        let made = AbsDecls { abs_position: AbsPosition::new(), decls: Vec::new() };
        assert(made.children() =~= Seq::empty());
        made
    }

    /// Appends `decl` to the list and extends the span to cover the list.
    pub fn add_decl(&mut self, decl: AbsDecl)
        ensures
            final(self).decls@ == old(self).decls@.push(decl),
            final(self)@ == node(
                NodeKind::Decls,
                old(self).span(),
                None,
                old(self).children().push(decl@),
            ),
            all_well_spanned(old(self).children()) && decl@.well_spanned()
                ==> final(self)@.well_spanned(),
    {
        self.decls.push(decl);
        assert(self.children() =~= old(self).children().push(decl@));
        self.calculate_abs_position();
    }

    /// Extends the span to cover all members of the list.
    pub fn calculate_abs_position(&mut self)
        ensures
            final(self).decls == old(self).decls,
            final(self)@ == node(NodeKind::Decls, old(self).span(), None, old(self).children()),
            all_well_spanned(old(self).children()) ==> final(self)@.well_spanned(),
            all_positioned(old(self).children()) && (old(self).span() is Some
                || old(self).decls@.len() > 0) ==> final(self)@.positioned(),
    {
        let mut i: usize = 0;
        while i < self.decls.len()
            invariant
                i <= self.decls.len(),
                self.decls == old(self).decls,
                self.abs_position@ == cover_all(
                    old(self).span(),
                    self.children().subrange(0, i as int),
                ),
            decreases self.decls.len() - i,
        {
            self.abs_position.cover(self.decls[i].get_position_ref());
            i += 1;
            assert(self.children().subrange(0, i as int).drop_last() =~= self.children().subrange(
                0,
                i - 1,
            ));
        }
        assert(self.children().subrange(0, i as int) =~= self.children());
        proof {
            if all_well_spanned(self.children()) {
                lemma_node_well_spanned(NodeKind::Decls, old(self).span(), None, self.children());
            }
            if all_positioned(self.children()) && (old(self).span() is Some
                || self.decls@.len() > 0) {
                lemma_node_positioned(NodeKind::Decls, old(self).span(), None, self.children());
            }
        }
    }
}

impl View for AbsDecls {
    type V = Tree;

    open spec fn view(&self) -> Tree {
        self.tree()
    }
}

impl Positioner for AbsDecls {
    open spec fn span(&self) -> Option<Span> {
        self.abs_position@
    }

    fn get_position_ref(&self) -> (position: Option<&Position>) {
        self.abs_position.get_position_ref()
    }

    fn get_position_ref_mut(&mut self) -> (position: Option<&mut Position>)
        ensures
            final(self)@ == old(self)@.at(final(self).span()),
    {
        self.abs_position.get_position_ref_mut()
    }

    fn set_min(&mut self, position: &Position)
        ensures
            final(self)@ == old(self)@.at(with_min(old(self).span(), position@)),
            old(self)@.well_spanned() ==> final(self)@.well_spanned(),
    {
        self.abs_position.set_min(position);
        proof {
            if old(self)@.well_spanned() {
                lemma_extended_well_spanned(old(self)@, position@);
            }
        }
    }

    fn set_max(&mut self, position: &Position)
        ensures
            final(self)@ == old(self)@.at(with_max(old(self).span(), position@)),
            old(self)@.well_spanned() ==> final(self)@.well_spanned(),
    {
        self.abs_position.set_max(position);
        proof {
            if old(self)@.well_spanned() {
                lemma_extended_well_spanned(old(self)@, position@);
            }
        }
    }
}

impl AbsTree for AbsDecls {
    fn accept<V: Visitor>(&self, visitor: &mut V)
        ensures
            *final(visitor) == old(visitor).after(self@),
    {
        visitor.visit_abs_decls(self);
    }
}

impl XMLable for AbsDecls {
    open spec fn xml(&self) -> Seq<char> {
        self@.xml()
    }

    fn to_xml(&self, xml: &mut String)
        decreases self,
    {
        NodeKind::Decls.open_xml(xml);
        self.abs_position.to_xml(xml);
        let ghost start = xml@;
        let mut i: usize = 0;
        proof {
            lemma_children_appended(start, self.children().subrange(0, 0));
        }
        while i < self.decls.len()
            invariant
                i <= self.decls.len(),
                xml@ == start + xml_of_all(self.children().subrange(0, i as int)),
            decreases self.decls.len() - i,
        {
            self.decls[i].to_xml(xml);
            i += 1;
            proof {
                let so_far = self.children().subrange(0, i as int);
                assert(so_far.drop_last() =~= self.children().subrange(0, i - 1));
                assert(so_far.last() == self.decls[i - 1]@);
                lemma_child_appended(start, so_far);
            }
        }
        assert(self.children().subrange(0, i as int) =~= self.children());
        push_text(xml, "</absnode>\n");
        proof {
            lemma_element_appended(old(xml)@, self@);
        }
    }
}

/// The declaration of a variable, a parameter or a record component.
pub struct AbsVarDecl {
    pub abs_position: AbsPosition,
    /// The name.
    pub var_name: AbsExprName,
    /// The type.
    pub var_type: Box<AbsType>,
}

impl AbsVarDecl {
    /// The models of the children, in the order in which they are traversed.
    pub open spec fn children(&self) -> Seq<Tree>
        decreases self, 0nat,
    {
        seq![self.var_name.tree(), self.var_type.tree()]
    }

    /// The model of the node.
    pub open spec fn tree(&self) -> Tree
        decreases self, 1nat,
    {
        Tree {
            kind: NodeKind::VarDecl,
            position: self.abs_position@,
            symbol: None,
            children: self.children(),
        }
    }

    /// The node with the given parts, whose span covers all of them.
    pub fn new(var_name: AbsExprName, var_type: Box<AbsType>) -> (made: AbsVarDecl)
        ensures
            made.var_name == var_name,
            made.var_type == var_type,
            made@ == node(NodeKind::VarDecl, None, None, made.children()),
            var_name@.well_spanned() && var_type@.well_spanned() ==> made@.well_spanned(),
            var_name@.positioned() && var_type@.positioned() ==> made@.positioned(),
    {
        let mut made = AbsVarDecl {
            abs_position: AbsPosition::new(),
            var_name,
            var_type,
        };
        made.calculate_abs_position();
        made
    }

    /// Extends the span to cover all parts of the node.
    pub fn calculate_abs_position(&mut self)
        ensures
            final(self).var_name == old(self).var_name,
            final(self).var_type == old(self).var_type,
            final(self)@ == node(
                old(self)@.kind,
                old(self).span(),
                old(self)@.symbol,
                old(self).children(),
            ),
            old(self).var_name@.well_spanned() && old(self).var_type@.well_spanned()
                ==> final(self)@.well_spanned(),
            old(self).var_name@.positioned() && old(self).var_type@.positioned()
                ==> final(self)@.positioned(),
    {
        self.abs_position.cover(self.var_name.get_position_ref());
        self.abs_position.cover(self.var_type.get_position_ref());
        proof {
            lemma_cover_all_unfold(self.children());
            let start = old(self).span();
            if all_well_spanned(self.children()) {
                lemma_node_well_spanned(self@.kind, start, self@.symbol, self.children());
            }
            if all_positioned(self.children()) {
                lemma_node_positioned(self@.kind, start, self@.symbol, self.children());
            }
        }
    }
}

impl View for AbsVarDecl {
    type V = Tree;

    open spec fn view(&self) -> Tree {
        self.tree()
    }
}

impl Positioner for AbsVarDecl {
    open spec fn span(&self) -> Option<Span> {
        self.abs_position@
    }

    fn get_position_ref(&self) -> (position: Option<&Position>) {
        self.abs_position.get_position_ref()
    }

    fn get_position_ref_mut(&mut self) -> (position: Option<&mut Position>)
        ensures
            final(self)@ == old(self)@.at(final(self).span()),
    {
        self.abs_position.get_position_ref_mut()
    }

    fn set_min(&mut self, position: &Position)
        ensures
            final(self)@ == old(self)@.at(with_min(old(self).span(), position@)),
            old(self)@.well_spanned() ==> final(self)@.well_spanned(),
    {
        self.abs_position.set_min(position);
        proof {
            if old(self)@.well_spanned() {
                lemma_extended_well_spanned(old(self)@, position@);
            }
        }
    }

    fn set_max(&mut self, position: &Position)
        ensures
            final(self)@ == old(self)@.at(with_max(old(self).span(), position@)),
            old(self)@.well_spanned() ==> final(self)@.well_spanned(),
    {
        self.abs_position.set_max(position);
        proof {
            if old(self)@.well_spanned() {
                lemma_extended_well_spanned(old(self)@, position@);
            }
        }
    }
}

impl AbsTree for AbsVarDecl {
    fn accept<V: Visitor>(&self, visitor: &mut V)
        ensures
            *final(visitor) == old(visitor).after(self@),
    {
        visitor.visit_abs_var_decl(self);
    }
}

impl XMLable for AbsVarDecl {
    open spec fn xml(&self) -> Seq<char> {
        self@.xml()
    }

    fn to_xml(&self, xml: &mut String)
        decreases self,
    {
        NodeKind::VarDecl.open_xml(xml);
        self.abs_position.to_xml(xml);
        let ghost base = xml@;
        self.var_name.to_xml(xml);
        self.var_type.to_xml(xml);
        proof {
            lemma_children_appended(base, self.children());
        }
        push_text(xml, "</absnode>\n");
        proof {
            lemma_element_appended(old(xml)@, self@);
        }
    }
}

/// The declaration of a function.
pub struct AbsFunDecl {
    pub abs_position: AbsPosition,
    /// The name.
    pub name: AbsExprName,
    /// The parameters.
    pub params: AbsDecls,
    /// The type of the result.
    pub return_type: Box<AbsType>,
    /// The body.
    pub exprs: Box<AbsExpr>,
}

impl AbsFunDecl {
    /// The models of the children, in the order in which they are traversed.
    pub open spec fn children(&self) -> Seq<Tree>
        decreases self, 0nat,
    {
        seq![self.name.tree(), self.params.tree(), self.return_type.tree(), self.exprs.tree()]
    }

    /// The model of the node.
    pub open spec fn tree(&self) -> Tree
        decreases self, 1nat,
    {
        Tree {
            kind: NodeKind::FunDecl,
            position: self.abs_position@,
            symbol: None,
            children: self.children(),
        }
    }

    /// The node with the given parts, whose span covers all of them.
    pub fn new(
        name: AbsExprName,
        params: AbsDecls,
        return_type: Box<AbsType>,
        exprs: Box<AbsExpr>,
    ) -> (made: AbsFunDecl)
        ensures
            made.name == name,
            made.params == params,
            made.return_type == return_type,
            made.exprs == exprs,
            made@ == node(NodeKind::FunDecl, None, None, made.children()),
            name@.well_spanned() && params@.well_spanned() && return_type@.well_spanned()
                && exprs@.well_spanned() ==> made@.well_spanned(),
            name@.positioned() && params@.positioned() && return_type@.positioned()
                && exprs@.positioned() ==> made@.positioned(),
    {
        let mut made = AbsFunDecl {
            abs_position: AbsPosition::new(),
            name,
            params,
            return_type,
            exprs,
        };
        made.calculate_abs_position();
        made
    }

    /// Extends the span to cover all parts of the node.
    pub fn calculate_abs_position(&mut self)
        ensures
            final(self).name == old(self).name,
            final(self).params == old(self).params,
            final(self).return_type == old(self).return_type,
            final(self).exprs == old(self).exprs,
            final(self)@ == node(
                old(self)@.kind,
                old(self).span(),
                old(self)@.symbol,
                old(self).children(),
            ),
            old(self).name@.well_spanned() && old(self).params@.well_spanned()
                && old(self).return_type@.well_spanned() && old(self).exprs@.well_spanned()
                ==> final(self)@.well_spanned(),
            old(self).name@.positioned() && old(self).params@.positioned()
                && old(self).return_type@.positioned() && old(self).exprs@.positioned()
                ==> final(self)@.positioned(),
    {
        self.abs_position.cover(self.name.get_position_ref());
        self.abs_position.cover(self.params.get_position_ref());
        self.abs_position.cover(self.return_type.get_position_ref());
        self.abs_position.cover(self.exprs.get_position_ref());
        proof {
            lemma_cover_all_unfold(self.children());
            let start = old(self).span();
            if all_well_spanned(self.children()) {
                lemma_node_well_spanned(self@.kind, start, self@.symbol, self.children());
            }
            if all_positioned(self.children()) {
                lemma_node_positioned(self@.kind, start, self@.symbol, self.children());
            }
        }
    }
}

impl View for AbsFunDecl {
    type V = Tree;

    open spec fn view(&self) -> Tree {
        self.tree()
    }
}

impl Positioner for AbsFunDecl {
    open spec fn span(&self) -> Option<Span> {
        self.abs_position@
    }

    fn get_position_ref(&self) -> (position: Option<&Position>) {
        self.abs_position.get_position_ref()
    }

    fn get_position_ref_mut(&mut self) -> (position: Option<&mut Position>)
        ensures
            final(self)@ == old(self)@.at(final(self).span()),
    {
        self.abs_position.get_position_ref_mut()
    }

    fn set_min(&mut self, position: &Position)
        ensures
            final(self)@ == old(self)@.at(with_min(old(self).span(), position@)),
            old(self)@.well_spanned() ==> final(self)@.well_spanned(),
    {
        self.abs_position.set_min(position);
        proof {
            if old(self)@.well_spanned() {
                lemma_extended_well_spanned(old(self)@, position@);
            }
        }
    }

    fn set_max(&mut self, position: &Position)
        ensures
            final(self)@ == old(self)@.at(with_max(old(self).span(), position@)),
            old(self)@.well_spanned() ==> final(self)@.well_spanned(),
    {
        self.abs_position.set_max(position);
        proof {
            if old(self)@.well_spanned() {
                lemma_extended_well_spanned(old(self)@, position@);
            }
        }
    }
}

impl AbsTree for AbsFunDecl {
    fn accept<V: Visitor>(&self, visitor: &mut V)
        ensures
            *final(visitor) == old(visitor).after(self@),
    {
        visitor.visit_abs_fun_decl(self);
    }
}

impl XMLable for AbsFunDecl {
    open spec fn xml(&self) -> Seq<char> {
        self@.xml()
    }

    fn to_xml(&self, xml: &mut String)
        decreases self,
    {
        NodeKind::FunDecl.open_xml(xml);
        self.abs_position.to_xml(xml);
        let ghost base = xml@;
        self.name.to_xml(xml);
        self.params.to_xml(xml);
        self.return_type.to_xml(xml);
        self.exprs.to_xml(xml);
        proof {
            lemma_children_appended(base, self.children());
        }
        push_text(xml, "</absnode>\n");
        proof {
            lemma_element_appended(old(xml)@, self@);
        }
    }
}

/// The declaration of a type name.
pub struct AbsTypeDecl {
    pub abs_position: AbsPosition,
    /// The name.
    pub name: AbsTypeName,
    /// The type that it names.
    pub source_type: Box<AbsType>,
}

impl AbsTypeDecl {
    /// The models of the children, in the order in which they are traversed.
    pub open spec fn children(&self) -> Seq<Tree>
        decreases self, 0nat,
    {
        seq![self.name.tree(), self.source_type.tree()]
    }

    /// The model of the node.
    pub open spec fn tree(&self) -> Tree
        decreases self, 1nat,
    {
        Tree {
            kind: NodeKind::TypeDecl,
            position: self.abs_position@,
            symbol: None,
            children: self.children(),
        }
    }

    /// The node with the given parts, whose span covers all of them.
    pub fn new(name: AbsTypeName, source_type: Box<AbsType>) -> (made: AbsTypeDecl)
        ensures
            made.name == name,
            made.source_type == source_type,
            made@ == node(NodeKind::TypeDecl, None, None, made.children()),
            name@.well_spanned() && source_type@.well_spanned() ==> made@.well_spanned(),
            name@.positioned() && source_type@.positioned() ==> made@.positioned(),
    {
        let mut made = AbsTypeDecl {
            abs_position: AbsPosition::new(),
            name,
            source_type,
        };
        made.calculate_abs_position();
        made
    }

    /// Extends the span to cover all parts of the node.
    pub fn calculate_abs_position(&mut self)
        ensures
            final(self).name == old(self).name,
            final(self).source_type == old(self).source_type,
            final(self)@ == node(
                old(self)@.kind,
                old(self).span(),
                old(self)@.symbol,
                old(self).children(),
            ),
            old(self).name@.well_spanned() && old(self).source_type@.well_spanned()
                ==> final(self)@.well_spanned(),
            old(self).name@.positioned() && old(self).source_type@.positioned()
                ==> final(self)@.positioned(),
    {
        self.abs_position.cover(self.name.get_position_ref());
        self.abs_position.cover(self.source_type.get_position_ref());
        proof {
            lemma_cover_all_unfold(self.children());
            let start = old(self).span();
            if all_well_spanned(self.children()) {
                lemma_node_well_spanned(self@.kind, start, self@.symbol, self.children());
            }
            if all_positioned(self.children()) {
                lemma_node_positioned(self@.kind, start, self@.symbol, self.children());
            }
        }
    }
}

impl View for AbsTypeDecl {
    type V = Tree;

    open spec fn view(&self) -> Tree {
        self.tree()
    }
}

impl Positioner for AbsTypeDecl {
    open spec fn span(&self) -> Option<Span> {
        self.abs_position@
    }

    fn get_position_ref(&self) -> (position: Option<&Position>) {
        self.abs_position.get_position_ref()
    }

    fn get_position_ref_mut(&mut self) -> (position: Option<&mut Position>)
        ensures
            final(self)@ == old(self)@.at(final(self).span()),
    {
        self.abs_position.get_position_ref_mut()
    }

    fn set_min(&mut self, position: &Position)
        ensures
            final(self)@ == old(self)@.at(with_min(old(self).span(), position@)),
            old(self)@.well_spanned() ==> final(self)@.well_spanned(),
    {
        self.abs_position.set_min(position);
        proof {
            if old(self)@.well_spanned() {
                lemma_extended_well_spanned(old(self)@, position@);
            }
        }
    }

    fn set_max(&mut self, position: &Position)
        ensures
            final(self)@ == old(self)@.at(with_max(old(self).span(), position@)),
            old(self)@.well_spanned() ==> final(self)@.well_spanned(),
    {
        self.abs_position.set_max(position);
        proof {
            if old(self)@.well_spanned() {
                lemma_extended_well_spanned(old(self)@, position@);
            }
        }
    }
}

impl AbsTree for AbsTypeDecl {
    fn accept<V: Visitor>(&self, visitor: &mut V)
        ensures
            *final(visitor) == old(visitor).after(self@),
    {
        visitor.visit_abs_type_decl(self);
    }
}

impl XMLable for AbsTypeDecl {
    open spec fn xml(&self) -> Seq<char> {
        self@.xml()
    }

    fn to_xml(&self, xml: &mut String)
        decreases self,
    {
        NodeKind::TypeDecl.open_xml(xml);
        self.abs_position.to_xml(xml);
        let ghost base = xml@;
        self.name.to_xml(xml);
        self.source_type.to_xml(xml);
        proof {
            lemma_children_appended(base, self.children());
        }
        push_text(xml, "</absnode>\n");
        proof {
            lemma_element_appended(old(xml)@, self@);
        }
    }
}

} // verus!
