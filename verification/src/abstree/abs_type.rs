//! Types.

use crate::abstree::AbsTree;
use crate::abstree::abs_decl::AbsDecls;
use crate::abstree::abs_expr::AbsExpr;
use crate::abstree::abs_position::AbsPosition;
use crate::abstree::positioner::Positioner;
use crate::abstree::tree::{
    all_positioned, all_well_spanned, cover, lemma_children_appended, lemma_cover_all_unfold,
    lemma_element_appended, lemma_extended_well_spanned, lemma_node_positioned,
    lemma_node_well_spanned, node, with_max, with_min, NodeKind, Tree,
};
use crate::abstree::visitor::Visitor;
use crate::lexanal::position::{Position, Span};
use crate::lexanal::symbol::Symbol;
use crate::text::push_text;
use crate::xml::XMLable;
use vstd::prelude::*;

verus! {

/// A type of any kind.
pub enum AbsType {
    ArrType(AbsArrType),
    AtomType(AbsAtomType),
    PointerType(AbsPointerType),
    RecType(AbsRecType),
    TypeName(AbsTypeName),
}

impl AbsType {
    /// The model of the node.
    pub open spec fn tree(&self) -> Tree
        decreases self, 2nat,
    {
        match self {
            AbsType::ArrType(n) => n.tree(),
            AbsType::AtomType(n) => n.tree(),
            AbsType::PointerType(n) => n.tree(),
            AbsType::RecType(n) => n.tree(),
            AbsType::TypeName(n) => n.tree(),
        }
    }
}

impl View for AbsType {
    type V = Tree;

    open spec fn view(&self) -> Tree {
        self.tree()
    }
}

impl Positioner for AbsType {
    open spec fn span(&self) -> Option<Span> {
        self.tree().position
    }

    fn get_position_ref(&self) -> (position: Option<&Position>) {
        match self {
            AbsType::ArrType(n) => n.get_position_ref(),
            AbsType::AtomType(n) => n.get_position_ref(),
            AbsType::PointerType(n) => n.get_position_ref(),
            AbsType::RecType(n) => n.get_position_ref(),
            AbsType::TypeName(n) => n.get_position_ref(),
        }
    }

    fn get_position_ref_mut(&mut self) -> (position: Option<&mut Position>)
        ensures
            final(self)@ == old(self)@.at(final(self).span()),
    {
        match self {
            AbsType::ArrType(n) => n.get_position_ref_mut(),
            AbsType::AtomType(n) => n.get_position_ref_mut(),
            AbsType::PointerType(n) => n.get_position_ref_mut(),
            AbsType::RecType(n) => n.get_position_ref_mut(),
            AbsType::TypeName(n) => n.get_position_ref_mut(),
        }
    }

    fn set_min(&mut self, position: &Position)
        ensures
            final(self)@ == old(self)@.at(with_min(old(self).span(), position@)),
            old(self)@.well_spanned() ==> final(self)@.well_spanned(),
    {
        match self {
            AbsType::ArrType(n) => n.set_min(position),
            AbsType::AtomType(n) => n.set_min(position),
            AbsType::PointerType(n) => n.set_min(position),
            AbsType::RecType(n) => n.set_min(position),
            AbsType::TypeName(n) => n.set_min(position),
        }
    }

    fn set_max(&mut self, position: &Position)
        ensures
            final(self)@ == old(self)@.at(with_max(old(self).span(), position@)),
            old(self)@.well_spanned() ==> final(self)@.well_spanned(),
    {
        match self {
            AbsType::ArrType(n) => n.set_max(position),
            AbsType::AtomType(n) => n.set_max(position),
            AbsType::PointerType(n) => n.set_max(position),
            AbsType::RecType(n) => n.set_max(position),
            AbsType::TypeName(n) => n.set_max(position),
        }
    }
}

impl AbsTree for AbsType {
    /// Hands the node to the method that the visitor has for its kind.
    fn accept<V: Visitor>(&self, visitor: &mut V)
        ensures
            *final(visitor) == old(visitor).after(self@),
    {
        match self {
            AbsType::ArrType(n) => n.accept(visitor),
            AbsType::AtomType(n) => n.accept(visitor),
            AbsType::PointerType(n) => n.accept(visitor),
            AbsType::RecType(n) => n.accept(visitor),
            AbsType::TypeName(n) => n.accept(visitor),
        }
    }
}

impl XMLable for AbsType {
    open spec fn xml(&self) -> Seq<char> {
        self@.xml()
    }

    fn to_xml(&self, xml: &mut String)
        decreases self,
    {
        match self {
            AbsType::ArrType(n) => n.to_xml(xml),
            AbsType::AtomType(n) => n.to_xml(xml),
            AbsType::PointerType(n) => n.to_xml(xml),
            AbsType::RecType(n) => n.to_xml(xml),
            AbsType::TypeName(n) => n.to_xml(xml),
        }
    }
}

/// The atomic types.
#[derive(Debug, Clone, Copy, PartialEq, Eq, Structural)]
pub enum AtomType {
    INT,
    REAL,
    BOOL,
    STRING,
    VOID,
}

impl AtomType {
    /// The name of the type.
    pub open spec fn name(self) -> Seq<char> {
        match self {
            AtomType::INT => "INT"@,
            AtomType::REAL => "REAL"@,
            AtomType::BOOL => "BOOL"@,
            AtomType::STRING => "STRING"@,
            AtomType::VOID => "VOID"@,
        }
    }

    pub fn get_name(self) -> (name: &'static str)
        ensures
            name@ == self.name(),
    {
        match self {
            AtomType::INT => "INT",
            AtomType::REAL => "REAL",
            AtomType::BOOL => "BOOL",
            AtomType::STRING => "STRING",
            AtomType::VOID => "VOID",
        }
    }
}

/// An atomic type.
pub struct AbsAtomType {
    pub abs_position: AbsPosition,
    /// Which one.
    pub atom_type: AtomType,
}

impl AbsAtomType {
    /// The models of the children: an atomic type has none.
    pub open spec fn children(&self) -> Seq<Tree> {
        Seq::empty()
    }

    /// The model of the node.
    pub open spec fn tree(&self) -> Tree {
        Tree {
            kind: NodeKind::AtomType(self.atom_type),
            position: self.abs_position@,
            symbol: None,
            children: Seq::empty(),
        }
    }

    /// The node of the atomic type that `symbol` names, with the symbol's
    /// span.
    pub fn new(atom_type: AtomType, symbol: &Symbol) -> (made: AbsAtomType)
        ensures
            made.atom_type == atom_type,
            made@ == node(
                NodeKind::AtomType(atom_type),
                Some(symbol@.position),
                None,
                Seq::empty(),
            ),
    {
        let mut made = AbsAtomType { abs_position: AbsPosition::new(), atom_type };
        made.calculate_abs_position(symbol);
        made
    }

    /// The node of the type of the empty block, which has no span.
    pub fn new_void_type() -> (made: AbsAtomType)
        ensures
            made.atom_type == AtomType::VOID,
            made@ == node(NodeKind::AtomType(AtomType::VOID), None, None, Seq::empty()),
    {
        AbsAtomType { atom_type: AtomType::VOID, abs_position: AbsPosition::new() }
    }

    /// Extends the span to cover `symbol`.
    pub fn calculate_abs_position(&mut self, symbol: &Symbol)
        ensures
            final(self).atom_type == old(self).atom_type,
            final(self)@ == node(
                old(self)@.kind,
                cover(old(self).span(), Some(symbol@.position)),
                None,
                Seq::empty(),
            ),
    {
        self.abs_position.cover(Some(symbol.get_ref_position()));
    }
}

impl View for AbsAtomType {
    type V = Tree;

    open spec fn view(&self) -> Tree {
        self.tree()
    }
}

impl Positioner for AbsAtomType {
    open spec fn span(&self) -> Option<Span> {
        self.abs_position@
    }

    fn get_position_ref(&self) -> (position: Option<&Position>) {
        self.abs_position.get_position_ref()
    }

    fn get_position_ref_mut(&mut self) -> (position: Option<&mut Position>)
        ensures
            final(self)@ == old(self)@.at(final(self).span()),
    {
        self.abs_position.get_position_ref_mut()
    }

    fn set_min(&mut self, position: &Position)
        ensures
            final(self)@ == old(self)@.at(with_min(old(self).span(), position@)),
            old(self)@.well_spanned() ==> final(self)@.well_spanned(),
    {
        self.abs_position.set_min(position);
        proof {
            if old(self)@.well_spanned() {
                lemma_extended_well_spanned(old(self)@, position@);
            }
        }
    }

    fn set_max(&mut self, position: &Position)
        ensures
            final(self)@ == old(self)@.at(with_max(old(self).span(), position@)),
            old(self)@.well_spanned() ==> final(self)@.well_spanned(),
    {
        self.abs_position.set_max(position);
        proof {
            if old(self)@.well_spanned() {
                lemma_extended_well_spanned(old(self)@, position@);
            }
        }
    }
}

impl AbsTree for AbsAtomType {
    fn accept<V: Visitor>(&self, visitor: &mut V)
        ensures
            *final(visitor) == old(visitor).after(self@),
    {
        visitor.visit_abs_atom_type(self);
    }
}

impl XMLable for AbsAtomType {
    open spec fn xml(&self) -> Seq<char> {
        self@.xml()
    }

    fn to_xml(&self, xml: &mut String) {
        NodeKind::AtomType(self.atom_type).open_xml(xml);
        self.abs_position.to_xml(xml);
        proof {
            lemma_children_appended(xml@, self.children());
        }
        push_text(xml, "</absnode>\n");
        proof {
            lemma_element_appended(old(xml)@, self@);
        }
    }
}

/// An array type.
pub struct AbsArrType {
    pub abs_position: AbsPosition,
    /// The number of elements.
    pub size: Box<AbsExpr>,
    /// The type of the elements.
    pub arr_type: Box<AbsType>,
}

impl AbsArrType {
    /// The models of the children, in the order in which they are traversed.
    pub open spec fn children(&self) -> Seq<Tree>
        decreases self, 0nat,
    {
        seq![self.size.tree(), self.arr_type.tree()]
    }

    /// The model of the node.
    pub open spec fn tree(&self) -> Tree
        decreases self, 1nat,
    {
        Tree {
            kind: NodeKind::ArrType,
            position: self.abs_position@,
            symbol: None,
            children: self.children(),
        }
    }

    /// The node with the given parts, whose span covers the introducing symbol and all of them.
    pub fn new(
        arr_type: Box<AbsType>,
        size: Box<AbsExpr>,
        arr_symbol: &Symbol,
    ) -> (made: AbsArrType)
        ensures
            made.size == size,
            made.arr_type == arr_type,
            made@ == node(NodeKind::ArrType, Some(arr_symbol@.position), None, made.children()),
            size@.well_spanned() && arr_type@.well_spanned() ==> made@.well_spanned(),
            size@.positioned() && arr_type@.positioned() ==> made@.positioned(),
    {
        let mut made = AbsArrType {
            abs_position: AbsPosition::new(),
            size,
            arr_type,
        };
        made.calculate_abs_position(arr_symbol);
        made
    }

    /// Extends the span to cover the introducing symbol and all parts of the node.
    pub fn calculate_abs_position(&mut self, arr_symbol: &Symbol)
        ensures
            final(self).size == old(self).size,
            final(self).arr_type == old(self).arr_type,
            final(self)@ == node(
                old(self)@.kind,
                cover(old(self).span(), Some(arr_symbol@.position)),
                old(self)@.symbol,
                old(self).children(),
            ),
            old(self).size@.well_spanned() && old(self).arr_type@.well_spanned()
                ==> final(self)@.well_spanned(),
            old(self).size@.positioned() && old(self).arr_type@.positioned()
                ==> final(self)@.positioned(),
    {
        self.abs_position.cover(Some(arr_symbol.get_ref_position()));
        self.abs_position.cover(self.size.get_position_ref());
        self.abs_position.cover(self.arr_type.get_position_ref());
        proof {
            lemma_cover_all_unfold(self.children());
            let start = cover(old(self).span(), Some(arr_symbol@.position));
            if all_well_spanned(self.children()) {
                lemma_node_well_spanned(self@.kind, start, self@.symbol, self.children());
            }
            if all_positioned(self.children()) {
                lemma_node_positioned(self@.kind, start, self@.symbol, self.children());
            }
        }
    }
}

impl View for AbsArrType {
    type V = Tree;

    open spec fn view(&self) -> Tree {
        self.tree()
    }
}

impl Positioner for AbsArrType {
    open spec fn span(&self) -> Option<Span> {
        self.abs_position@
    }

    fn get_position_ref(&self) -> (position: Option<&Position>) {
        self.abs_position.get_position_ref()
    }

    fn get_position_ref_mut(&mut self) -> (position: Option<&mut Position>)
        ensures
            final(self)@ == old(self)@.at(final(self).span()),
    {
        self.abs_position.get_position_ref_mut()
    }

    fn set_min(&mut self, position: &Position)
        ensures
            final(self)@ == old(self)@.at(with_min(old(self).span(), position@)),
            old(self)@.well_spanned() ==> final(self)@.well_spanned(),
    {
        self.abs_position.set_min(position);
        proof {
            if old(self)@.well_spanned() {
                lemma_extended_well_spanned(old(self)@, position@);
            }
        }
    }

    fn set_max(&mut self, position: &Position)
        ensures
            final(self)@ == old(self)@.at(with_max(old(self).span(), position@)),
            old(self)@.well_spanned() ==> final(self)@.well_spanned(),
    {
        self.abs_position.set_max(position);
        proof {
            if old(self)@.well_spanned() {
                lemma_extended_well_spanned(old(self)@, position@);
            }
        }
    }
}

impl AbsTree for AbsArrType {
    fn accept<V: Visitor>(&self, visitor: &mut V)
        ensures
            *final(visitor) == old(visitor).after(self@),
    {
        visitor.visit_abs_arr_type(self);
    }
}

impl XMLable for AbsArrType {
    open spec fn xml(&self) -> Seq<char> {
        self@.xml()
    }

    fn to_xml(&self, xml: &mut String)
        decreases self,
    {
        NodeKind::ArrType.open_xml(xml);
        self.abs_position.to_xml(xml);
        let ghost base = xml@;
        self.size.to_xml(xml);
        self.arr_type.to_xml(xml);
        proof {
            lemma_children_appended(base, self.children());
        }
        push_text(xml, "</absnode>\n");
        proof {
            lemma_element_appended(old(xml)@, self@);
        }
    }
}

/// A pointer type.
pub struct AbsPointerType {
    pub abs_position: AbsPosition,
    /// The type pointed to.
    pub ptype: Box<AbsType>,
}

impl AbsPointerType {
    /// The models of the children, in the order in which they are traversed.
    pub open spec fn children(&self) -> Seq<Tree>
        decreases self, 0nat,
    {
        seq![self.ptype.tree()]
    }

    /// The model of the node.
    pub open spec fn tree(&self) -> Tree
        decreases self, 1nat,
    {
        Tree {
            kind: NodeKind::PointerType,
            position: self.abs_position@,
            symbol: None,
            children: self.children(),
        }
    }

    /// The node with the given parts, whose span covers the introducing symbol and all of them.
    pub fn new(ptype: Box<AbsType>, pointer_symbol: &Symbol) -> (made: AbsPointerType)
        ensures
            made.ptype == ptype,
            made@ == node(
                NodeKind::PointerType,
                Some(pointer_symbol@.position),
                None,
                made.children(),
            ),
            ptype@.well_spanned() ==> made@.well_spanned(),
            ptype@.positioned() ==> made@.positioned(),
    {
        let mut made = AbsPointerType {
            abs_position: AbsPosition::new(),
            ptype,
        };
        made.calculate_abs_position(pointer_symbol);
        made
    }

    /// Extends the span to cover the introducing symbol and all parts of the node.
    pub fn calculate_abs_position(&mut self, pointer_symbol: &Symbol)
        ensures
            final(self).ptype == old(self).ptype,
            final(self)@ == node(
                old(self)@.kind,
                cover(old(self).span(), Some(pointer_symbol@.position)),
                old(self)@.symbol,
                old(self).children(),
            ),
            old(self).ptype@.well_spanned() ==> final(self)@.well_spanned(),
            old(self).ptype@.positioned() ==> final(self)@.positioned(),
    {
        self.abs_position.cover(Some(pointer_symbol.get_ref_position()));
        self.abs_position.cover(self.ptype.get_position_ref());
        proof {
            lemma_cover_all_unfold(self.children());
            let start = cover(old(self).span(), Some(pointer_symbol@.position));
            if all_well_spanned(self.children()) {
                lemma_node_well_spanned(self@.kind, start, self@.symbol, self.children());
            }
            if all_positioned(self.children()) {
                lemma_node_positioned(self@.kind, start, self@.symbol, self.children());
            }
        }
    }
}

impl View for AbsPointerType {
    type V = Tree;

    open spec fn view(&self) -> Tree {
        self.tree()
    }
}

impl Positioner for AbsPointerType {
    open spec fn span(&self) -> Option<Span> {
        self.abs_position@
    }

    fn get_position_ref(&self) -> (position: Option<&Position>) {
        self.abs_position.get_position_ref()
    }

    fn get_position_ref_mut(&mut self) -> (position: Option<&mut Position>)
        ensures
            final(self)@ == old(self)@.at(final(self).span()),
    {
        self.abs_position.get_position_ref_mut()
    }

    fn set_min(&mut self, position: &Position)
        ensures
            final(self)@ == old(self)@.at(with_min(old(self).span(), position@)),
            old(self)@.well_spanned() ==> final(self)@.well_spanned(),
    {
        self.abs_position.set_min(position);
        proof {
            if old(self)@.well_spanned() {
                lemma_extended_well_spanned(old(self)@, position@);
            }
        }
    }

    fn set_max(&mut self, position: &Position)
        ensures
            final(self)@ == old(self)@.at(with_max(old(self).span(), position@)),
            old(self)@.well_spanned() ==> final(self)@.well_spanned(),
    {
        self.abs_position.set_max(position);
        proof {
            if old(self)@.well_spanned() {
                lemma_extended_well_spanned(old(self)@, position@);
            }
        }
    }
}

impl AbsTree for AbsPointerType {
    fn accept<V: Visitor>(&self, visitor: &mut V)
        ensures
            *final(visitor) == old(visitor).after(self@),
    {
        visitor.visit_abs_pointer_type(self);
    }
}

impl XMLable for AbsPointerType {
    open spec fn xml(&self) -> Seq<char> {
        self@.xml()
    }

    fn to_xml(&self, xml: &mut String)
        decreases self,
    {
        NodeKind::PointerType.open_xml(xml);
        self.abs_position.to_xml(xml);
        let ghost base = xml@;
        self.ptype.to_xml(xml);
        proof {
            lemma_children_appended(base, self.children());
        }
        push_text(xml, "</absnode>\n");
        proof {
            lemma_element_appended(old(xml)@, self@);
        }
    }
}

/// A record type.
pub struct AbsRecType {
    pub abs_position: AbsPosition,
    /// The components.
    pub compoments: AbsDecls,
}

impl AbsRecType {
    /// The models of the children, in the order in which they are traversed.
    pub open spec fn children(&self) -> Seq<Tree>
        decreases self, 0nat,
    {
        seq![self.compoments.tree()]
    }

    /// The model of the node.
    pub open spec fn tree(&self) -> Tree
        decreases self, 1nat,
    {
        Tree {
            kind: NodeKind::RecType,
            position: self.abs_position@,
            symbol: None,
            children: self.children(),
        }
    }

    /// The node with the given parts, whose span covers the introducing symbol and all of them.
    pub fn new(compoments: AbsDecls, rec_symbol: &Symbol) -> (made: AbsRecType)
        ensures
            made.compoments == compoments,
            made@ == node(NodeKind::RecType, Some(rec_symbol@.position), None, made.children()),
            compoments@.well_spanned() ==> made@.well_spanned(),
            compoments@.positioned() ==> made@.positioned(),
    {
        let mut made = AbsRecType {
            abs_position: AbsPosition::new(),
            compoments,
        };
        made.calculate_abs_position(rec_symbol);
        made
    }

    /// Extends the span to cover the introducing symbol and all parts of the node.
    pub fn calculate_abs_position(&mut self, rec_symbol: &Symbol)
        ensures
            final(self).compoments == old(self).compoments,
            final(self)@ == node(
                old(self)@.kind,
                cover(old(self).span(), Some(rec_symbol@.position)),
                old(self)@.symbol,
                old(self).children(),
            ),
            old(self).compoments@.well_spanned() ==> final(self)@.well_spanned(),
            old(self).compoments@.positioned() ==> final(self)@.positioned(),
    {
        self.abs_position.cover(Some(rec_symbol.get_ref_position()));
        self.abs_position.cover(self.compoments.get_position_ref());
        proof {
            lemma_cover_all_unfold(self.children());
            let start = cover(old(self).span(), Some(rec_symbol@.position));
            if all_well_spanned(self.children()) {
                lemma_node_well_spanned(self@.kind, start, self@.symbol, self.children());
            }
            if all_positioned(self.children()) {
                lemma_node_positioned(self@.kind, start, self@.symbol, self.children());
            }
        }
    }
}

impl View for AbsRecType {
    type V = Tree;

    open spec fn view(&self) -> Tree {
        self.tree()
    }
}

impl Positioner for AbsRecType {
    open spec fn span(&self) -> Option<Span> {
        self.abs_position@
    }

    fn get_position_ref(&self) -> (position: Option<&Position>) {
        self.abs_position.get_position_ref()
    }

    fn get_position_ref_mut(&mut self) -> (position: Option<&mut Position>)
        ensures
            final(self)@ == old(self)@.at(final(self).span()),
    {
        self.abs_position.get_position_ref_mut()
    }

    fn set_min(&mut self, position: &Position)
        ensures
            final(self)@ == old(self)@.at(with_min(old(self).span(), position@)),
            old(self)@.well_spanned() ==> final(self)@.well_spanned(),
    {
        self.abs_position.set_min(position);
        proof {
            if old(self)@.well_spanned() {
                lemma_extended_well_spanned(old(self)@, position@);
            }
        }
    }

    fn set_max(&mut self, position: &Position)
        ensures
            final(self)@ == old(self)@.at(with_max(old(self).span(), position@)),
            old(self)@.well_spanned() ==> final(self)@.well_spanned(),
    {
        self.abs_position.set_max(position);
        proof {
            if old(self)@.well_spanned() {
                lemma_extended_well_spanned(old(self)@, position@);
            }
        }
    }
}

impl AbsTree for AbsRecType {
    fn accept<V: Visitor>(&self, visitor: &mut V)
        ensures
            *final(visitor) == old(visitor).after(self@),
    {
        visitor.visit_abs_rec_type(self);
    }
}

impl XMLable for AbsRecType {
    open spec fn xml(&self) -> Seq<char> {
        self@.xml()
    }

    fn to_xml(&self, xml: &mut String)
        decreases self,
    {
        NodeKind::RecType.open_xml(xml);
        self.abs_position.to_xml(xml);
        let ghost base = xml@;
        self.compoments.to_xml(xml);
        proof {
            lemma_children_appended(base, self.children());
        }
        push_text(xml, "</absnode>\n");
        proof {
            lemma_element_appended(old(xml)@, self@);
        }
    }
}

/// The name of a declared type.
pub struct AbsTypeName {
    pub abs_position: AbsPosition,
    /// The identifier.
    pub identifier: Symbol,
}

impl AbsTypeName {
    /// The models of the children, in the order in which they are traversed.
    pub open spec fn children(&self) -> Seq<Tree>
        decreases self, 0nat,
    {
        Seq::empty()
    }

    /// The model of the node.
    pub open spec fn tree(&self) -> Tree
        decreases self, 1nat,
    {
        Tree {
            kind: NodeKind::TypeName,
            position: self.abs_position@,
            symbol: Some(self.identifier@),
            children: self.children(),
        }
    }

    /// The node with the given parts, whose span covers all of them.
    pub fn new(identifier: Symbol) -> (made: AbsTypeName)
        ensures
            made.identifier == identifier,
            made@ == node(NodeKind::TypeName, None, Some(identifier@), made.children()),
            made@.well_spanned(),
            made@.positioned(),
    {
        let mut made = AbsTypeName {
            abs_position: AbsPosition::new(),
            identifier,
        };
        made.calculate_abs_position();
        made
    }

    /// Extends the span to cover all parts of the node.
    pub fn calculate_abs_position(&mut self)
        ensures
            final(self).identifier == old(self).identifier,
            final(self)@ == node(
                old(self)@.kind,
                old(self).span(),
                old(self)@.symbol,
                old(self).children(),
            ),
            final(self)@.well_spanned(),
            final(self)@.positioned(),
    {
        self.abs_position.cover(Some(self.identifier.get_ref_position()));
        proof {
            lemma_cover_all_unfold(self.children());
            let start = old(self).span();
            if all_well_spanned(self.children()) {
                lemma_node_well_spanned(self@.kind, start, self@.symbol, self.children());
            }
            if all_positioned(self.children()) {
                lemma_node_positioned(self@.kind, start, self@.symbol, self.children());
            }
        }
    }
}

impl View for AbsTypeName {
    type V = Tree;

    open spec fn view(&self) -> Tree {
        self.tree()
    }
}

impl Positioner for AbsTypeName {
    open spec fn span(&self) -> Option<Span> {
        self.abs_position@
    }

    fn get_position_ref(&self) -> (position: Option<&Position>) {
        self.abs_position.get_position_ref()
    }

    fn get_position_ref_mut(&mut self) -> (position: Option<&mut Position>)
        ensures
            final(self)@ == old(self)@.at(final(self).span()),
    {
        self.abs_position.get_position_ref_mut()
    }

    fn set_min(&mut self, position: &Position)
        ensures
            final(self)@ == old(self)@.at(with_min(old(self).span(), position@)),
            old(self)@.well_spanned() ==> final(self)@.well_spanned(),
    {
        self.abs_position.set_min(position);
        proof {
            if old(self)@.well_spanned() {
                lemma_extended_well_spanned(old(self)@, position@);
            }
        }
    }

    fn set_max(&mut self, position: &Position)
        ensures
            final(self)@ == old(self)@.at(with_max(old(self).span(), position@)),
            old(self)@.well_spanned() ==> final(self)@.well_spanned(),
    {
        self.abs_position.set_max(position);
        proof {
            if old(self)@.well_spanned() {
                lemma_extended_well_spanned(old(self)@, position@);
            }
        }
    }
}

impl AbsTree for AbsTypeName {
    fn accept<V: Visitor>(&self, visitor: &mut V)
        ensures
            *final(visitor) == old(visitor).after(self@),
    {
        visitor.visit_abs_type_name(self);
    }
}

impl XMLable for AbsTypeName {
    open spec fn xml(&self) -> Seq<char> {
        self@.xml()
    }

    fn to_xml(&self, xml: &mut String)
        decreases self,
    {
        NodeKind::TypeName.open_xml(xml);
        self.abs_position.to_xml(xml);
        self.identifier.to_xml(xml);
        let ghost base = xml@;
        proof {
            lemma_children_appended(base, self.children());
        }
        push_text(xml, "</absnode>\n");
        proof {
            lemma_element_appended(old(xml)@, self@);
        }
    }
}

} // verus!
