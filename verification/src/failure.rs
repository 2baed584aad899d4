use crate::laws::{
    grows, lemma_classify, lemma_walk_block, lemma_walk_expr, lemma_walk_exprs, lemma_walk_node,
    lemma_walk_nodes,
};
use crate::program::{Block, Crate, Expr, ExprKind, Function, Node};
use crate::registry::{ascending, has_id, Entries};
use crate::walk::{
    block_entry, fn_entry, walk_block, walk_crate, walk_expr, walk_exprs, walk_fn, walk_node,
    walk_nodes, Failure, State,
};
use vstd::prelude::*;

verus! {

impl State {
    /// What holds where a walk from this state stops with `failure`: the
    /// registry still holds, untouched and in order, every region that was
    /// finished before the walk, and it holds a region under the identity
    /// that the walk stopped at.
    pub open spec fn stops_with(self, failure: Failure) -> bool {
        &&& grows(self.registry, failure.state.registry)
        &&& ascending(failure.state.registry)
        &&& has_id(failure.state.registry, failure.id)
    }
}

proof fn lemma_grows_trans(a: Entries, b: Entries, c: Entries)
    requires
        grows(a, b),
        grows(b, c),
    ensures
        grows(a, c),
{
    assert forall|k: int| 0 <= k < a.len() implies c.contains(#[trigger] a[k]) by {
        assert(b.contains(a[k]));
        let m = choose|m: int| 0 <= m < b.len() && b[m] == a[k];
        assert(c.contains(b[m]));
    }
}

/// A walk over an expression that stops has lost no finished region, and
/// the identity it stops at has a region.
pub proof fn lemma_stopped_expr(e: Expr, st: State)
    requires
        ascending(st.registry),
        walk_expr(e, st) is Err,
    ensures
        st.stops_with(walk_expr(e, st)->Err_0),
    decreases e,
{
    let first = st.classify(e);
    lemma_classify(e, st);
    match e.node {
        ExprKind::MethodCall { args, .. } => {
            lemma_stopped_exprs(args@, first);
        },
        ExprKind::Call { callee, args } => {
            if walk_expr(*callee, first) is Err {
                lemma_stopped_expr(*callee, first);
            } else {
                let mid = walk_expr(*callee, first)->Ok_0;
                lemma_walk_expr(*callee, first);
                lemma_stopped_exprs(args@, mid);
                lemma_grows_trans(
                    first.registry,
                    mid.registry,
                    (walk_exprs(args@, mid)->Err_0).state.registry,
                );
            }
        },
        ExprKind::Path { .. } => {},
        ExprKind::Deref { operand } => {
            lemma_stopped_expr(*operand, first);
        },
        ExprKind::InlineAsm { operands } => {
            lemma_stopped_exprs(operands@, first);
        },
        ExprKind::Cast { operand } => {
            lemma_stopped_expr(*operand, first);
        },
        ExprKind::Closure { function } => {
            lemma_stopped_fn(*function, first);
        },
        ExprKind::Other { children } => {
            lemma_stopped_nodes(children@, first);
        },
    }
}

/// The same, for expressions that stand side by side.
pub proof fn lemma_stopped_exprs(es: Seq<Expr>, st: State)
    requires
        ascending(st.registry),
        walk_exprs(es, st) is Err,
    ensures
        st.stops_with(walk_exprs(es, st)->Err_0),
    decreases es,
{
    if walk_expr(es[0], st) is Err {
        lemma_stopped_expr(es[0], st);
    } else {
        let mid = walk_expr(es[0], st)->Ok_0;
        lemma_walk_expr(es[0], st);
        lemma_stopped_exprs(es.drop_first(), mid);
        lemma_grows_trans(
            st.registry,
            mid.registry,
            (walk_exprs(es, st)->Err_0).state.registry,
        );
    }
}

/// The same, for one node.
pub proof fn lemma_stopped_node(n: Node, st: State)
    requires
        ascending(st.registry),
        walk_node(n, st) is Err,
    ensures
        st.stops_with(walk_node(n, st)->Err_0),
    decreases n,
{
    match n {
        Node::Expr(e) => lemma_stopped_expr(e, st),
        Node::Block(b) => lemma_stopped_block(b, st),
        Node::Function(f) => lemma_stopped_fn(f, st),
    }
}

/// The same, for nodes that stand side by side.
pub proof fn lemma_stopped_nodes(ns: Seq<Node>, st: State)
    requires
        ascending(st.registry),
        walk_nodes(ns, st) is Err,
    ensures
        st.stops_with(walk_nodes(ns, st)->Err_0),
    decreases ns,
{
    if walk_node(ns[0], st) is Err {
        lemma_stopped_node(ns[0], st);
    } else {
        let mid = walk_node(ns[0], st)->Ok_0;
        lemma_walk_node(ns[0], st);
        lemma_stopped_nodes(ns.drop_first(), mid);
        lemma_grows_trans(
            st.registry,
            mid.registry,
            (walk_nodes(ns, st)->Err_0).state.registry,
        );
    }
}

/// The same, for a block.
pub proof fn lemma_stopped_block(b: Block, st: State)
    requires
        ascending(st.registry),
        walk_block(b, st) is Err,
    ensures
        st.stops_with(walk_block(b, st)->Err_0),
    decreases b,
{
    let start = st.enter(block_entry(b, st.cursor is Some));
    if walk_nodes(b.stmts@, start) is Err {
        lemma_stopped_nodes(b.stmts@, start);
    } else {
        lemma_walk_nodes(b.stmts@, start);
    }
}

/// The same, for a function.
pub proof fn lemma_stopped_fn(f: Function, st: State)
    requires
        ascending(st.registry),
        walk_fn(f, st) is Err,
    ensures
        st.stops_with(walk_fn(f, st)->Err_0),
    decreases f,
{
    let start = st.enter(fn_entry(f));
    if walk_block(f.body, start) is Err {
        lemma_stopped_block(f.body, start);
    } else {
        lemma_walk_block(f.body, start);
    }
}

/// A second region under one identity is always detected, and costs
/// nothing that was there: where the walk of a whole program stops, the
/// identity it reports has a region in the registry, and every region that
/// was finished before the walk is still there as it was.
pub proof fn lemma_stopped_crate(krate: Crate, st: State)
    requires
        ascending(st.registry),
        walk_crate(krate, st) is Err,
    ensures
        st.stops_with(walk_crate(krate, st)->Err_0),
{
    lemma_stopped_nodes(krate.items@, st);
}

} // verus!
