//! The mathematical model of the abstract syntax tree.
//!
//! Every node of the tree, whatever its kind, is modelled by a [`Tree`]: its
//! kind, its span, the symbol it holds if it is a leaf made of one, and the
//! models of its children in the order in which they are traversed.

use crate::abstree::abs_expr::{AbsBinOper, AbsUnOper};
use crate::abstree::abs_type::AtomType;
use crate::lexanal::position::Span;
use crate::lexanal::symbol::SymbolView;
use crate::text::push_text;
use vstd::prelude::*;

verus! {

/// The kinds of nodes.
#[derive(Debug, Clone, Copy, PartialEq, Eq)]
pub enum NodeKind {
    Decls,
    VarDecl,
    FunDecl,
    TypeDecl,
    Exprs,
    AtomExpr,
    ExprName,
    BinExpr(AbsBinOper),
    UnExpr(AbsUnOper),
    FunCall,
    WhereExpr,
    AssignStmt,
    IfStmt,
    ForStmt,
    WhileStmt,
    ArrType,
    AtomType(AtomType),
    PointerType,
    RecType,
    TypeName,
}

impl NodeKind {
    /// The name of the kind.
    pub open spec fn name(self) -> Seq<char> {
        match self {
            NodeKind::Decls => "Decls"@,
            NodeKind::VarDecl => "VarDecl"@,
            NodeKind::FunDecl => "FunDecl"@,
            NodeKind::TypeDecl => "TypeDecl"@,
            NodeKind::Exprs => "AbsExprs"@,
            NodeKind::AtomExpr => "AtomExpr"@,
            NodeKind::ExprName => "ExprName"@,
            NodeKind::BinExpr(operation) => "BinExpr"@,
            NodeKind::UnExpr(operation) => "UnExpr"@,
            NodeKind::FunCall => "FunCall"@,
            NodeKind::WhereExpr => "WhereExpr"@,
            NodeKind::AssignStmt => "AssignStmt"@,
            NodeKind::IfStmt => "IfStmt"@,
            NodeKind::ForStmt => "ForStmt"@,
            NodeKind::WhileStmt => "WhileStmt"@,
            NodeKind::ArrType => "ArrType"@,
            NodeKind::AtomType(atom) => "AtomType"@,
            NodeKind::PointerType => "PointerType"@,
            NodeKind::RecType => "RecType"@,
            NodeKind::TypeName => "TypeName"@,
        }
    }

    /// What tells the nodes of the kind apart: the operator of an
    /// expression, or the atomic type.
    pub open spec fn value(self) -> Option<Seq<char>> {
        match self {
            NodeKind::BinExpr(operation) => Some(operation.name()),
            NodeKind::UnExpr(operation) => Some(operation.name()),
            NodeKind::AtomType(atom) => Some(atom.name()),
            _ => None,
        }
    }

    pub fn get_name(self) -> (name: &'static str)
        ensures
            name@ == self.name(),
    {
        match self {
            NodeKind::Decls => "Decls",
            NodeKind::VarDecl => "VarDecl",
            NodeKind::FunDecl => "FunDecl",
            NodeKind::TypeDecl => "TypeDecl",
            NodeKind::Exprs => "AbsExprs",
            NodeKind::AtomExpr => "AtomExpr",
            NodeKind::ExprName => "ExprName",
            NodeKind::BinExpr(operation) => "BinExpr",
            NodeKind::UnExpr(operation) => "UnExpr",
            NodeKind::FunCall => "FunCall",
            NodeKind::WhereExpr => "WhereExpr",
            NodeKind::AssignStmt => "AssignStmt",
            NodeKind::IfStmt => "IfStmt",
            NodeKind::ForStmt => "ForStmt",
            NodeKind::WhileStmt => "WhileStmt",
            NodeKind::ArrType => "ArrType",
            NodeKind::AtomType(atom) => "AtomType",
            NodeKind::PointerType => "PointerType",
            NodeKind::RecType => "RecType",
            NodeKind::TypeName => "TypeName",
        }
    }

    /// Appends the tag that opens the XML element of a node of the kind.
    pub fn open_xml(self, xml: &mut String)
        ensures
            final(xml)@ == old(xml)@ + self.opening(),
    {
        let mut tag = String::new();
        push_text(&mut tag, "<absnode node=\"");
        push_text(&mut tag, self.get_name());
        match self {
            NodeKind::BinExpr(operation) => {
                push_text(&mut tag, "\" value=\"");
                push_text(&mut tag, operation.get_name());
            },
            NodeKind::UnExpr(operation) => {
                push_text(&mut tag, "\" value=\"");
                push_text(&mut tag, operation.get_name());
            },
            NodeKind::AtomType(atom) => {
                push_text(&mut tag, "\" value=\"");
                push_text(&mut tag, atom.get_name());
            },
            _ => {},
        }
        push_text(&mut tag, "\">\n");
        assert(tag@ =~= self.opening());
        push_text(xml, tag.as_str());
    }

    /// The tag that opens the XML element of a node of the kind.
    pub open spec fn opening(self) -> Seq<char> {
        match self.value() {
            Some(value) => "<absnode node=\""@ + self.name() + "\" value=\""@ + value + "\">\n"@,
            None => "<absnode node=\""@ + self.name() + "\">\n"@,
        }
    }
}

/// The XML form of a span, if there is one.
pub open spec fn position_xml(position: Option<Span>) -> Seq<char> {
    match position {
        Some(span) => span.xml(),
        None => Seq::empty(),
    }
}

/// The XML form of a symbol, if there is one.
pub open spec fn symbol_xml(symbol: Option<SymbolView>) -> Seq<char> {
    match symbol {
        Some(s) => s.xml(),
        None => Seq::empty(),
    }
}

/// The XML forms of the given trees, one behind the other.
pub open spec fn xml_of_all(trees: Seq<Tree>) -> Seq<char>
    decreases trees,
{
    if trees.len() == 0 {
        Seq::empty()
    } else {
        xml_of_all(trees.drop_last()) + trees.last().xml()
    }
}

/// What the XML forms of up to four trees come to, tree by tree.
pub proof fn lemma_xml_of_all_unfold(trees: Seq<Tree>)
    ensures
        trees.len() == 0 ==> xml_of_all(trees) == Seq::<char>::empty(),
        trees.len() == 1 ==> xml_of_all(trees) == trees[0].xml(),
        trees.len() == 2 ==> xml_of_all(trees) == trees[0].xml() + trees[1].xml(),
        trees.len() == 3 ==> xml_of_all(trees) == trees[0].xml() + trees[1].xml()
            + trees[2].xml(),
        trees.len() == 4 ==> xml_of_all(trees) == trees[0].xml() + trees[1].xml()
            + trees[2].xml() + trees[3].xml(),
{
    reveal_with_fuel(xml_of_all, 5);
    let t1 = trees.drop_last();
    let t2 = t1.drop_last();
    let t3 = t2.drop_last();
    if trees.len() >= 1 {
        assert(trees.last() == trees[trees.len() - 1]);
        assert(Seq::<char>::empty() + trees[0].xml() =~= trees[0].xml());
    }
    if trees.len() >= 2 {
        assert(t1.last() == trees[trees.len() - 2]);
    }
    if trees.len() >= 3 {
        assert(t2.last() == trees[trees.len() - 3]);
    }
    if trees.len() >= 4 {
        assert(t3.last() == trees[trees.len() - 4]);
    }
}

/// Concatenation is associative.
pub proof fn lemma_concat_assoc(a: Seq<char>, b: Seq<char>, c: Seq<char>)
    ensures
        (a + b) + c == a + (b + c),
{
    assert((a + b) + c =~= a + (b + c));
}

/// Appending the XML forms of up to four trees one by one appends the XML
/// form of them all.
pub proof fn lemma_children_appended(base: Seq<char>, trees: Seq<Tree>)
    ensures
        trees.len() == 0 ==> base == base + xml_of_all(trees),
        trees.len() == 1 ==> base + trees[0].xml() == base + xml_of_all(trees),
        trees.len() == 2 ==> base + trees[0].xml() + trees[1].xml() == base + xml_of_all(trees),
        trees.len() == 3 ==> base + trees[0].xml() + trees[1].xml() + trees[2].xml() == base
            + xml_of_all(trees),
        trees.len() == 4 ==> base + trees[0].xml() + trees[1].xml() + trees[2].xml()
            + trees[3].xml() == base + xml_of_all(trees),
{
    lemma_xml_of_all_unfold(trees);
    if trees.len() == 0 {
        assert(base =~= base + Seq::<char>::empty());
    }
    if trees.len() >= 2 {
        lemma_concat_assoc(base, trees[0].xml(), trees[1].xml());
    }
    if trees.len() >= 3 {
        lemma_concat_assoc(base, trees[0].xml() + trees[1].xml(), trees[2].xml());
    }
    if trees.len() >= 4 {
        lemma_concat_assoc(
            base,
            trees[0].xml() + trees[1].xml() + trees[2].xml(),
            trees[3].xml(),
        );
    }
}

/// Appending the XML form of one more tree appends the XML form of the list
/// that is longer by that tree.
pub proof fn lemma_child_appended(base: Seq<char>, trees: Seq<Tree>)
    requires
        trees.len() > 0,
    ensures
        base + xml_of_all(trees.drop_last()) + trees.last().xml() == base + xml_of_all(trees),
{
    lemma_concat_assoc(base, xml_of_all(trees.drop_last()), trees.last().xml());
}

/// Appending the parts of an XML element one by one appends the element.
pub proof fn lemma_element_appended(before: Seq<char>, tree: Tree)
    ensures
        before + tree.kind.opening() + position_xml(tree.position) + symbol_xml(tree.symbol)
            + xml_of_all(tree.children) + "</absnode>\n"@ == before + tree.xml(),
        tree.symbol is None ==> before + tree.kind.opening() + position_xml(tree.position)
            + xml_of_all(tree.children) + "</absnode>\n"@ == before + tree.xml(),
{
    let a = tree.kind.opening();
    let b = position_xml(tree.position);
    let c = symbol_xml(tree.symbol);
    let d = xml_of_all(tree.children);
    let e = "</absnode>\n"@;
    lemma_concat_assoc(before, a, b);
    lemma_concat_assoc(before, a + b, c);
    lemma_concat_assoc(before, a + b + c, d);
    lemma_concat_assoc(before, a + b + c + d, e);
    if tree.symbol is None {
        assert(before + a + b + c =~= before + a + b);
    }
}

/// The model of a node.
pub struct Tree {
    pub kind: NodeKind,
    pub position: Option<Span>,
    pub symbol: Option<SymbolView>,
    pub children: Seq<Tree>,
}

/// `position` with its begin endpoint moved to include `other`; `other`
/// itself where there was no position yet.
pub open spec fn with_min(position: Option<Span>, other: Span) -> Option<Span> {
    match position {
        Some(span) => Some(span.extend_min(other)),
        None => Some(other),
    }
}

/// `position` with its end endpoint moved to include `other`; `other` itself
/// where there was no position yet.
pub open spec fn with_max(position: Option<Span>, other: Span) -> Option<Span> {
    match position {
        Some(span) => Some(span.extend_max(other)),
        None => Some(other),
    }
}

/// `position` extended to include `other`, if there is one.
pub open spec fn cover(position: Option<Span>, other: Option<Span>) -> Option<Span> {
    match other {
        Some(span) => with_max(with_min(position, span), span),
        None => position,
    }
}

/// `position` extended to include the spans of all `children`, from left to
/// right.
pub open spec fn cover_all(position: Option<Span>, children: Seq<Tree>) -> Option<Span>
    decreases children.len(),
{
    if children.len() == 0 {
        position
    } else {
        cover(cover_all(position, children.drop_last()), children.last().position)
    }
}

/// What extending a position over up to four children comes to, child by
/// child.
pub proof fn lemma_cover_all_unfold(children: Seq<Tree>)
    ensures
        forall|p: Option<Span>| children.len() == 0 ==> #[trigger] cover_all(p, children) == p,
        forall|p: Option<Span>|
            children.len() == 1 ==> #[trigger] cover_all(p, children) == cover(
                p,
                children[0].position,
            ),
        forall|p: Option<Span>|
            children.len() == 2 ==> #[trigger] cover_all(p, children) == cover(
                cover(p, children[0].position),
                children[1].position,
            ),
        forall|p: Option<Span>|
            children.len() == 3 ==> #[trigger] cover_all(p, children) == cover(
                cover(cover(p, children[0].position), children[1].position),
                children[2].position,
            ),
        forall|p: Option<Span>|
            children.len() == 4 ==> #[trigger] cover_all(p, children) == cover(
                cover(
                    cover(cover(p, children[0].position), children[1].position),
                    children[2].position,
                ),
                children[3].position,
            ),
{
    reveal_with_fuel(cover_all, 5);
    let c1 = children.drop_last();
    let c2 = c1.drop_last();
    let c3 = c2.drop_last();
    if children.len() >= 1 {
        assert(children.last() == children[children.len() - 1]);
    }
    if children.len() >= 2 {
        assert(c1.last() == children[children.len() - 2]);
    }
    if children.len() >= 3 {
        assert(c2.last() == children[children.len() - 3]);
    }
    if children.len() >= 4 {
        assert(c3.last() == children[children.len() - 4]);
    }
}

/// `inner`, if there is one, lies within `outer`.
pub open spec fn encloses(outer: Option<Span>, inner: Option<Span>) -> bool {
    match inner {
        Some(span) => outer matches Some(around) && around.contains(span),
        None => true,
    }
}

/// The node of the given kind, symbol and children whose span is `position`
/// extended to include the symbol and all children.
pub open spec fn node(
    kind: NodeKind,
    position: Option<Span>,
    symbol: Option<SymbolView>,
    children: Seq<Tree>,
) -> Tree {
    Tree {
        kind,
        position: cover_all(
            cover(
                position,
                match symbol {
                    Some(s) => Some(s.position),
                    None => None,
                },
            ),
            children,
        ),
        symbol,
        children,
    }
}

impl Tree {
    /// The tree as an XML element: the kind of the node, its span, its
    /// symbol, and the elements of its children in their order.
    pub open spec fn xml(self) -> Seq<char>
        decreases self,
    {
        self.kind.opening() + position_xml(self.position) + symbol_xml(self.symbol) + xml_of_all(
            self.children,
        ) + "</absnode>\n"@
    }

    /// The same node with another span.
    pub open spec fn at(self, position: Option<Span>) -> Tree {
        Tree { position, ..self }
    }

    /// The span of every node of the tree contains the spans of its symbol
    /// and of its children.
    pub open spec fn well_spanned(self) -> bool
        decreases self,
    {
        &&& self.symbol matches Some(s) ==> encloses(self.position, Some(s.position))
        &&& forall|i: int|
            0 <= i < self.children.len() ==> encloses(
                self.position,
                (#[trigger] self.children[i]).position,
            ) && self.children[i].well_spanned()
    }

    /// Every node of the tree has a span.
    pub open spec fn positioned(self) -> bool
        decreases self,
    {
        &&& self.position is Some
        &&& forall|i: int|
            0 <= i < self.children.len() ==> (#[trigger] self.children[i]).positioned()
    }

    /// `other` is this node or one of the nodes below it.
    pub open spec fn reaches(self, other: Tree) -> bool
        decreases self,
    {
        self == other || exists|i: int|
            0 <= i < self.children.len() && (#[trigger] self.children[i]).reaches(other)
    }
}

/// All of the given children are well spanned.
pub open spec fn all_well_spanned(children: Seq<Tree>) -> bool {
    forall|i: int| 0 <= i < children.len() ==> (#[trigger] children[i]).well_spanned()
}

/// All of the given children have spans through and through.
pub open spec fn all_positioned(children: Seq<Tree>) -> bool {
    forall|i: int| 0 <= i < children.len() ==> (#[trigger] children[i]).positioned()
}

/// Enclosure is transitive.
pub proof fn lemma_encloses_transitive(a: Option<Span>, b: Option<Span>, c: Option<Span>)
    requires
        encloses(a, b),
        encloses(b, c),
        b is None ==> c is None,
    ensures
        encloses(a, c),
{
}

/// Extending a position keeps what it enclosed and encloses what it was
/// extended by.
pub proof fn lemma_cover_encloses(position: Option<Span>, other: Option<Span>, inner: Option<Span>)
    ensures
        encloses(cover(position, other), position),
        encloses(cover(position, other), other),
        encloses(position, inner) ==> encloses(cover(position, other), inner),
        position is Some ==> cover(position, other) is Some,
{
}

/// A position extended over children encloses what it enclosed before and
/// every one of the children.
pub proof fn lemma_cover_all_encloses(
    position: Option<Span>,
    children: Seq<Tree>,
    inner: Option<Span>,
)
    ensures
        encloses(position, inner) ==> encloses(cover_all(position, children), inner),
        position is Some ==> cover_all(position, children) is Some,
        forall|i: int|
            0 <= i < children.len() ==> encloses(
                cover_all(position, children),
                (#[trigger] children[i]).position,
            ),
    decreases children.len(),
{
    if children.len() > 0 {
        let front = children.drop_last();
        lemma_cover_all_encloses(position, front, inner);
        let before = cover_all(position, front);
        lemma_cover_encloses(before, children.last().position, inner);
        assert forall|i: int| 0 <= i < children.len() implies encloses(
            cover_all(position, children),
            (#[trigger] children[i]).position,
        ) by {
            if i < children.len() - 1 {
                assert(front[i] == children[i]);
                lemma_cover_encloses(before, children.last().position, children[i].position);
            }
        }
    }
}

/// Span containment: the span of a node contains the span of each of its
/// children, whatever the children are.
pub proof fn lemma_node_contains_children(
    kind: NodeKind,
    position: Option<Span>,
    symbol: Option<SymbolView>,
    children: Seq<Tree>,
    i: int,
)
    requires
        0 <= i < children.len(),
    ensures
        encloses(node(kind, position, symbol, children).position, children[i].position),
{
    let at_symbol = match symbol {
        Some(s) => Some(s.position),
        None => None,
    };
    lemma_cover_all_encloses(cover(position, at_symbol), children, None);
}

/// A node built from well-spanned children is well spanned: its span
/// contains that of its symbol and of each child, and so on below.
pub proof fn lemma_node_well_spanned(
    kind: NodeKind,
    position: Option<Span>,
    symbol: Option<SymbolView>,
    children: Seq<Tree>,
)
    requires
        forall|i: int| 0 <= i < children.len() ==> (#[trigger] children[i]).well_spanned(),
    ensures
        node(kind, position, symbol, children).well_spanned(),
        encloses(node(kind, position, symbol, children).position, position),
{
    let at_symbol = match symbol {
        Some(s) => Some(s.position),
        None => None,
    };
    let start = cover(position, at_symbol);
    lemma_cover_encloses(position, at_symbol, None);
    lemma_cover_all_encloses(start, children, at_symbol);
    lemma_cover_all_encloses(start, children, position);
}

/// A node built from children that all have spans through and through has
/// spans through and through, if it has anything to take its own span from.
pub proof fn lemma_node_positioned(
    kind: NodeKind,
    position: Option<Span>,
    symbol: Option<SymbolView>,
    children: Seq<Tree>,
)
    requires
        forall|i: int| 0 <= i < children.len() ==> (#[trigger] children[i]).positioned(),
        position is Some || symbol is Some || children.len() > 0,
    ensures
        node(kind, position, symbol, children).positioned(),
{
    let at_symbol = match symbol {
        Some(s) => Some(s.position),
        None => None,
    };
    let start = cover(position, at_symbol);
    lemma_cover_all_encloses(start, children, None);
    if children.len() > 0 {
        assert(children[0].positioned());
        assert(encloses(cover_all(start, children), children[0].position));
    }
}

/// Moving an endpoint of a node's span outwards keeps the tree well spanned.
pub proof fn lemma_extended_well_spanned(tree: Tree, other: Span)
    requires
        tree.well_spanned(),
    ensures
        tree.at(with_min(tree.position, other)).well_spanned(),
        tree.at(with_max(tree.position, other)).well_spanned(),
        tree.at(cover(tree.position, Some(other))).well_spanned(),
{
    let low = tree.at(with_min(tree.position, other));
    let high = tree.at(with_max(tree.position, other));
    let both = tree.at(cover(tree.position, Some(other)));
    assert forall|i: int| 0 <= i < tree.children.len() implies encloses(
        low.position,
        (#[trigger] low.children[i]).position,
    ) && encloses(high.position, high.children[i].position) && encloses(
        both.position,
        both.children[i].position,
    ) by {
        assert(encloses(tree.position, tree.children[i].position));
    }
}

/// Span containment through the whole tree: in a well-spanned tree whose
/// nodes all have a span, the span of a node contains the span of every node
/// below it.
pub proof fn lemma_span_contains_descendants(tree: Tree, below: Tree)
    requires
        tree.well_spanned(),
        tree.positioned(),
        tree.reaches(below),
    ensures
        encloses(tree.position, below.position),
        below.well_spanned(),
        below.positioned(),
    decreases tree,
{
    if tree != below {
        let i = choose|i: int|
            0 <= i < tree.children.len() && (#[trigger] tree.children[i]).reaches(below);
        lemma_span_contains_descendants(tree.children[i], below);
        lemma_encloses_transitive(tree.position, tree.children[i].position, below.position);
    }
}

} // verus!
