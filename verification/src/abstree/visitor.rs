//! The visitor's side of the traversal interface.
//!
//! A visitor has one method for each kind of node. A node's `accept` hands
//! the node to the method for its kind, so that code which walks the tree
//! needs no knowledge of the kinds of nodes that it meets.

use crate::abstree::abs_decl::{AbsDecls, AbsFunDecl, AbsTypeDecl, AbsVarDecl};
use crate::abstree::abs_expr::{
    AbsAtomExpr, AbsBinExpr, AbsExprName, AbsExprs, AbsFunCall, AbsUnExpr, AbsWhereExpr,
};
use crate::abstree::abs_stmt::{AbsAssignStmt, AbsForStmt, AbsIfStmt, AbsWhileStmt};
use crate::abstree::abs_type::{AbsArrType, AbsAtomType, AbsPointerType, AbsRecType, AbsTypeName};
use crate::abstree::tree::Tree;
use vstd::prelude::*;

verus! {

pub trait Visitor: Sized {
    /// What the visitor becomes when it is handed a node: a function of the
    /// visitor before and of the node's model, which holds the node's kind.
    /// It is the visitor's own statement of what its methods do, and every
    /// method is held to it. A visitor that says nothing claims to stay as
    /// it is.
    open spec fn after(self, node: Tree) -> Self {
        self
    }

    fn visit_abs_arr_type(&mut self, acceptor: &AbsArrType)
        ensures
            *final(self) == old(self).after(acceptor@),
    ;

    fn visit_abs_assign_stmt(&mut self, acceptor: &AbsAssignStmt)
        ensures
            *final(self) == old(self).after(acceptor@),
    ;

    fn visit_abs_atom_expr(&mut self, acceptor: &AbsAtomExpr)
        ensures
            *final(self) == old(self).after(acceptor@),
    ;

    fn visit_abs_atom_type(&mut self, acceptor: &AbsAtomType)
        ensures
            *final(self) == old(self).after(acceptor@),
    ;

    fn visit_abs_bin_expr(&mut self, acceptor: &AbsBinExpr)
        ensures
            *final(self) == old(self).after(acceptor@),
    ;

    fn visit_abs_decls(&mut self, acceptor: &AbsDecls)
        ensures
            *final(self) == old(self).after(acceptor@),
    ;

    fn visit_abs_expr_name(&mut self, acceptor: &AbsExprName)
        ensures
            *final(self) == old(self).after(acceptor@),
    ;

    fn visit_abs_exprs(&mut self, acceptor: &AbsExprs)
        ensures
            *final(self) == old(self).after(acceptor@),
    ;

    fn visit_abs_for_stmt(&mut self, acceptor: &AbsForStmt)
        ensures
            *final(self) == old(self).after(acceptor@),
    ;

    fn visit_abs_fun_call(&mut self, acceptor: &AbsFunCall)
        ensures
            *final(self) == old(self).after(acceptor@),
    ;

    fn visit_abs_fun_decl(&mut self, acceptor: &AbsFunDecl)
        ensures
            *final(self) == old(self).after(acceptor@),
    ;

    fn visit_abs_if_stmt(&mut self, acceptor: &AbsIfStmt)
        ensures
            *final(self) == old(self).after(acceptor@),
    ;

    fn visit_abs_pointer_type(&mut self, acceptor: &AbsPointerType)
        ensures
            *final(self) == old(self).after(acceptor@),
    ;

    fn visit_abs_rec_type(&mut self, acceptor: &AbsRecType)
        ensures
            *final(self) == old(self).after(acceptor@),
    ;

    fn visit_abs_type_decl(&mut self, acceptor: &AbsTypeDecl)
        ensures
            *final(self) == old(self).after(acceptor@),
    ;

    fn visit_abs_type_name(&mut self, acceptor: &AbsTypeName)
        ensures
            *final(self) == old(self).after(acceptor@),
    ;

    fn visit_abs_abs_un_expr(&mut self, acceptor: &AbsUnExpr)
        ensures
            *final(self) == old(self).after(acceptor@),
    ;

    fn visit_abs_var_decl(&mut self, acceptor: &AbsVarDecl)
        ensures
            *final(self) == old(self).after(acceptor@),
    ;

    fn visit_abs_where_expr(&mut self, acceptor: &AbsWhereExpr)
        ensures
            *final(self) == old(self).after(acceptor@),
    ;

    fn visit_abs_while_stmt(&mut self, acceptor: &AbsWhileStmt)
        ensures
            *final(self) == old(self).after(acceptor@),
    ;
}

} // verus!
