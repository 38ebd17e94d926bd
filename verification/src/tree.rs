//! A shape-level model of the parsed source tree.
//!
//! The extraction engine reads only a little of the syntax tree: which nodes
//! are binding sets, local-binding constructs, functions and bindings, the
//! names they bind, and where each node's first token sits in the file's
//! token stream (for comment lookup).  This module models exactly that.
//! Nodes the engine never inspects appear as [`NixExpr::Node`] with their
//! child nodes kept in source order, so a preorder search still visits them.

use vstd::prelude::*;

verus! {

/// One entry of a destructuring pattern parameter: the bound name and the
/// token index of the entry's first token.
pub struct PatEntry {
    pub name: String,
    pub start: usize,
}

/// One formal parameter position of a function node.
pub enum LambdaParam {
    /// A plain identifier parameter.
    Ident { name: String, start: usize },
    /// A destructuring pattern parameter, entries in source order.
    Pattern { entries: Vec<PatEntry> },
}

/// A syntax node, reduced to the shapes the engine distinguishes.
pub enum NixExpr {
    /// A binding set: the record literal construct.
    AttrSet { children: Vec<SetChild> },
    /// A local-binding construct: its own bindings, then the trailing body
    /// expression.
    LetIn { children: Vec<SetChild>, body: Box<NixExpr> },
    /// A single-parameter function.
    Lambda { param: LambdaParam, body: Box<NixExpr> },
    /// Any other node, child nodes in source order.
    Node { children: Vec<NixExpr> },
}

/// A direct child of a binding set or of a local-binding header.
pub enum SetChild {
    /// A plain `name = value` binding; `start` is the token index of the
    /// binding node's first token.
    Binding { name: String, start: usize, value: NixExpr },
    /// A re-export clause; `has_from` marks an explicit source namespace,
    /// and `names` holds the re-exported plain identifiers in source order
    /// (non-identifier keys carry no name and are left out).
    Inherit { has_from: bool, names: Vec<String> },
    /// Any other child node.
    Other { node: NixExpr },
}

/// Every token index of the parameter stays within a token stream of length
/// `n`.
pub open spec fn wf_param(p: LambdaParam, n: int) -> bool {
    match p {
        LambdaParam::Ident { start, .. } => start <= n,
        LambdaParam::Pattern { entries } => forall|i: int|
            0 <= i < entries@.len() ==> (#[trigger] entries@[i]).start <= n,
    }
}

/// Every token index of the subtree stays within a token stream of length
/// `n`.
pub open spec fn wf_expr(e: NixExpr, n: int) -> bool
    decreases e,
{
    match e {
        NixExpr::AttrSet { children } => forall|i: int|
            0 <= i < children@.len() ==> wf_child(#[trigger] children@[i], n),
        NixExpr::LetIn { children, body } => (forall|i: int|
            0 <= i < children@.len() ==> wf_child(#[trigger] children@[i], n)) && wf_expr(
            *body,
            n,
        ),
        NixExpr::Lambda { param, body } => wf_param(param, n) && wf_expr(*body, n),
        NixExpr::Node { children } => forall|i: int|
            0 <= i < children@.len() ==> wf_expr(#[trigger] children@[i], n),
    }
}

/// Every token index of the child stays within a token stream of length `n`.
pub open spec fn wf_child(c: SetChild, n: int) -> bool
    decreases c,
{
    match c {
        SetChild::Binding { start, value, .. } => start <= n && wf_expr(value, n),
        SetChild::Inherit { .. } => true,
        SetChild::Other { node } => wf_expr(node, n),
    }
}

/// The first binding set in a preorder walk of `e`, descending into binding
/// values and function bodies.
pub open spec fn find_attrset(e: NixExpr) -> Option<NixExpr>
    decreases e,
{
    match e {
        NixExpr::AttrSet { .. } => Some(e),
        NixExpr::LetIn { children, body } => match find_attrset_in_children(children@) {
            Some(a) => Some(a),
            None => find_attrset(*body),
        },
        NixExpr::Lambda { body, .. } => find_attrset(*body),
        NixExpr::Node { children } => find_attrset_in_list(children@),
    }
}

/// The first binding set found under any of the children, in order.
pub open spec fn find_attrset_in_children(cs: Seq<SetChild>) -> Option<NixExpr>
    decreases cs,
{
    if cs.len() == 0 {
        None
    } else {
        let head: Option<NixExpr> = match cs[0] {
            SetChild::Binding { value, .. } => find_attrset(value),
            SetChild::Inherit { .. } => None,
            SetChild::Other { node } => find_attrset(node),
        };
        match head {
            Some(a) => Some(a),
            None => find_attrset_in_children(cs.subrange(1, cs.len() as int)),
        }
    }
}

/// The first binding set found under any of the expressions, in order.
pub open spec fn find_attrset_in_list(es: Seq<NixExpr>) -> Option<NixExpr>
    decreases es,
{
    if es.len() == 0 {
        None
    } else {
        match find_attrset(es[0]) {
            Some(a) => Some(a),
            None => find_attrset_in_list(es.subrange(1, es.len() as int)),
        }
    }
}

/// The first local-binding construct or binding set in a preorder walk of
/// `e`, whichever comes first.
pub open spec fn find_target(e: NixExpr) -> Option<NixExpr>
    decreases e,
{
    match e {
        NixExpr::AttrSet { .. } => Some(e),
        NixExpr::LetIn { .. } => Some(e),
        NixExpr::Lambda { body, .. } => find_target(*body),
        NixExpr::Node { children } => find_target_in_list(children@),
    }
}

/// The first target found under any of the expressions, in order.
pub open spec fn find_target_in_list(es: Seq<NixExpr>) -> Option<NixExpr>
    decreases es,
{
    if es.len() == 0 {
        None
    } else {
        match find_target(es[0]) {
            Some(a) => Some(a),
            None => find_target_in_list(es.subrange(1, es.len() as int)),
        }
    }
}

/// What a preorder search finds is a subtree, so it inherits
/// well-formedness.
pub proof fn lemma_find_attrset_wf(e: NixExpr, n: int)
    requires
        wf_expr(e, n),
    ensures
        match find_attrset(e) {
            Some(a) => wf_expr(a, n),
            None => true,
        },
    decreases e,
{
    match e {
        NixExpr::AttrSet { .. } => {},
        NixExpr::LetIn { children, body } => {
            lemma_find_attrset_in_children_wf(children@, n);
            lemma_find_attrset_wf(*body, n);
        },
        NixExpr::Lambda { body, .. } => {
            lemma_find_attrset_wf(*body, n);
        },
        NixExpr::Node { children } => {
            lemma_find_attrset_in_list_wf(children@, n);
        },
    }
}

proof fn lemma_find_attrset_in_children_wf(cs: Seq<SetChild>, n: int)
    requires
        forall|i: int| 0 <= i < cs.len() ==> wf_child(#[trigger] cs[i], n),
    ensures
        match find_attrset_in_children(cs) {
            Some(a) => wf_expr(a, n),
            None => true,
        },
    decreases cs,
{
    if cs.len() > 0 {
        match cs[0] {
            SetChild::Binding { value, .. } => lemma_find_attrset_wf(value, n),
            SetChild::Inherit { .. } => {},
            SetChild::Other { node } => lemma_find_attrset_wf(node, n),
        }
        lemma_find_attrset_in_children_wf(cs.subrange(1, cs.len() as int), n);
    }
}

proof fn lemma_find_attrset_in_list_wf(es: Seq<NixExpr>, n: int)
    requires
        forall|i: int| 0 <= i < es.len() ==> wf_expr(#[trigger] es[i], n),
    ensures
        match find_attrset_in_list(es) {
            Some(a) => wf_expr(a, n),
            None => true,
        },
    decreases es,
{
    if es.len() > 0 {
        lemma_find_attrset_wf(es[0], n);
        lemma_find_attrset_in_list_wf(es.subrange(1, es.len() as int), n);
    }
}

/// The first local-binding construct or binding set is a subtree too.
pub proof fn lemma_find_target_wf(e: NixExpr, n: int)
    requires
        wf_expr(e, n),
    ensures
        match find_target(e) {
            Some(a) => wf_expr(a, n),
            None => true,
        },
    decreases e,
{
    match e {
        NixExpr::AttrSet { .. } => {},
        NixExpr::LetIn { .. } => {},
        NixExpr::Lambda { body, .. } => {
            lemma_find_target_wf(*body, n);
        },
        NixExpr::Node { children } => {
            lemma_find_target_in_list_wf(children@, n);
        },
    }
}

proof fn lemma_find_target_in_list_wf(es: Seq<NixExpr>, n: int)
    requires
        forall|i: int| 0 <= i < es.len() ==> wf_expr(#[trigger] es[i], n),
    ensures
        match find_target_in_list(es) {
            Some(a) => wf_expr(a, n),
            None => true,
        },
    decreases es,
{
    if es.len() > 0 {
        lemma_find_target_wf(es[0], n);
        lemma_find_target_in_list_wf(es.subrange(1, es.len() as int), n);
    }
}

} // verus!
