use crate::classify::hazard_of;
use crate::info::NodeInfoView;
use crate::laws::{lemma_walk_block, lemma_walk_fn};
use crate::program::{Block, Expr, ExprKind, FnKind, Function, Node};
use crate::registry::{ascending, lemma_rank_bound, rank};
use crate::report::Filter;
use crate::span::Span;
use crate::walk::{
    block_entry, fn_entry, walk_block, walk_expr, walk_exprs, walk_fn, walk_node, walk_nodes,
    State,
};
use vstd::prelude::*;

verus! {

/// Whether neither `e` nor anything below it is a hazard.
pub open spec fn quiet_expr(e: Expr) -> bool
    decreases e,
{
    &&& hazard_of(e) is None
    &&& match e.node {
        ExprKind::MethodCall { args, .. } => quiet_exprs(args@),
        ExprKind::Call { callee, args } => quiet_expr(*callee) && quiet_exprs(args@),
        ExprKind::Path { .. } => true,
        ExprKind::Deref { operand } => quiet_expr(*operand),
        ExprKind::InlineAsm { operands } => quiet_exprs(operands@),
        ExprKind::Cast { operand } => quiet_expr(*operand),
        ExprKind::Closure { function } => quiet_fn(*function),
        ExprKind::Other { children } => quiet_nodes(children@),
    }
}

/// Whether nothing in `es` is a hazard.
pub open spec fn quiet_exprs(es: Seq<Expr>) -> bool
    decreases es,
{
    es.len() == 0 || (quiet_expr(es[0]) && quiet_exprs(es.drop_first()))
}

/// Whether nothing in `n` is a hazard.
pub open spec fn quiet_node(n: Node) -> bool
    decreases n,
{
    match n {
        Node::Expr(e) => quiet_expr(e),
        Node::Block(b) => quiet_block(b),
        Node::Function(f) => quiet_fn(f),
    }
}

/// Whether nothing in `ns` is a hazard.
pub open spec fn quiet_nodes(ns: Seq<Node>) -> bool
    decreases ns,
{
    ns.len() == 0 || (quiet_node(ns[0]) && quiet_nodes(ns.drop_first()))
}

/// Whether nothing in `b` is a hazard.
pub open spec fn quiet_block(b: Block) -> bool
    decreases b,
{
    quiet_nodes(b.stmts@)
}

/// Whether nothing in `f` is a hazard.
pub open spec fn quiet_fn(f: Function) -> bool
    decreases f,
{
    quiet_block(f.body)
}

/// The walk over an expression without hazards leaves the open region
/// exactly as it was.
pub proof fn lemma_quiet_expr(e: Expr, st: State)
    requires
        ascending(st.registry),
        quiet_expr(e),
        walk_expr(e, st) is Ok,
    ensures
        (walk_expr(e, st)->Ok_0).cursor == st.cursor,
        ascending((walk_expr(e, st)->Ok_0).registry),
    decreases e,
{
    assert(st.classify(e) == st);
    match e.node {
        ExprKind::MethodCall { args, .. } => {
            lemma_quiet_exprs(args@, st);
        },
        ExprKind::Call { callee, args } => {
            lemma_quiet_expr(*callee, st);
            lemma_quiet_exprs(args@, walk_expr(*callee, st)->Ok_0);
        },
        ExprKind::Path { .. } => {},
        ExprKind::Deref { operand } => {
            lemma_quiet_expr(*operand, st);
        },
        ExprKind::InlineAsm { operands } => {
            lemma_quiet_exprs(operands@, st);
        },
        ExprKind::Cast { operand } => {
            lemma_quiet_expr(*operand, st);
        },
        ExprKind::Closure { function } => {
            lemma_quiet_fn(*function, st);
        },
        ExprKind::Other { children } => {
            lemma_quiet_nodes(children@, st);
        },
    }
}

/// The same, for expressions that stand side by side.
pub proof fn lemma_quiet_exprs(es: Seq<Expr>, st: State)
    requires
        ascending(st.registry),
        quiet_exprs(es),
        walk_exprs(es, st) is Ok,
    ensures
        (walk_exprs(es, st)->Ok_0).cursor == st.cursor,
        ascending((walk_exprs(es, st)->Ok_0).registry),
    decreases es,
{
    if es.len() > 0 {
        lemma_quiet_expr(es[0], st);
        lemma_quiet_exprs(es.drop_first(), walk_expr(es[0], st)->Ok_0);
    }
}

/// The same, for one node.
pub proof fn lemma_quiet_node(n: Node, st: State)
    requires
        ascending(st.registry),
        quiet_node(n),
        walk_node(n, st) is Ok,
    ensures
        (walk_node(n, st)->Ok_0).cursor == st.cursor,
        ascending((walk_node(n, st)->Ok_0).registry),
    decreases n,
{
    match n {
        Node::Expr(e) => lemma_quiet_expr(e, st),
        Node::Block(b) => lemma_quiet_block(b, st),
        Node::Function(f) => lemma_quiet_fn(f, st),
    }
}

/// The same, for nodes that stand side by side.
pub proof fn lemma_quiet_nodes(ns: Seq<Node>, st: State)
    requires
        ascending(st.registry),
        quiet_nodes(ns),
        walk_nodes(ns, st) is Ok,
    ensures
        (walk_nodes(ns, st)->Ok_0).cursor == st.cursor,
        ascending((walk_nodes(ns, st)->Ok_0).registry),
    decreases ns,
{
    if ns.len() > 0 {
        lemma_quiet_node(ns[0], st);
        lemma_quiet_nodes(ns.drop_first(), walk_node(ns[0], st)->Ok_0);
    }
}

/// The same, for a block.
pub proof fn lemma_quiet_block(b: Block, st: State)
    requires
        ascending(st.registry),
        quiet_block(b),
        walk_block(b, st) is Ok,
    ensures
        (walk_block(b, st)->Ok_0).cursor == st.cursor,
        ascending((walk_block(b, st)->Ok_0).registry),
    decreases b,
{
    let start = st.enter(block_entry(b, st.cursor is Some));
    lemma_quiet_nodes(b.stmts@, start);
    lemma_walk_block(b, st);
}

/// The same, for a function.
pub proof fn lemma_quiet_fn(f: Function, st: State)
    requires
        ascending(st.registry),
        quiet_fn(f),
        walk_fn(f, st) is Ok,
    ensures
        (walk_fn(f, st)->Ok_0).cursor == st.cursor,
        ascending((walk_fn(f, st)->Ok_0).registry),
    decreases f,
{
    let start = st.enter(fn_entry(f));
    lemma_quiet_block(f.body, start);
    lemma_walk_fn(f, st);
}

/// An unsafe named function without hazards is tracked all the same: after
/// its walk the registry holds, under its identity, a region with every
/// bucket empty.
pub proof fn lemma_quiet_unsafe_fn(f: Function, st: State)
    requires
        ascending(st.registry),
        f.kind != FnKind::Closure,
        f.is_unsafe,
        quiet_fn(f),
        walk_fn(f, st) is Ok,
    ensures
        (walk_fn(f, st)->Ok_0).registry.contains((f.id, NodeInfoView::fresh(f.span, true, false))),
{
    let start = st.enter(fn_entry(f));
    lemma_quiet_block(f.body, start);
    let inner = walk_block(f.body, start)->Ok_0;
    let after = walk_fn(f, st)->Ok_0;
    lemma_rank_bound(inner.registry, f.id);
    let p = rank(inner.registry, f.id) as int;
    assert(after.registry[p] == (f.id, NodeInfoView::fresh(f.span, true, false)));
}

/// An unsafe block without hazards that opens a region is tracked all the
/// same: after its walk the registry holds, under its identity, a region
/// with every bucket empty.
pub proof fn lemma_quiet_unsafe_block(b: Block, st: State)
    requires
        ascending(st.registry),
        block_entry(b, st.cursor is Some) is Some,
        quiet_block(b),
        walk_block(b, st) is Ok,
    ensures
        (walk_block(b, st)->Ok_0).registry.contains(
            (block_entry(b, st.cursor is Some)->Some_0)->Some_0,
        ),
{
    let start = st.enter(block_entry(b, st.cursor is Some));
    lemma_quiet_nodes(b.stmts@, start);
    let inner = walk_nodes(b.stmts@, start)->Ok_0;
    let after = walk_block(b, st)->Ok_0;
    lemma_rank_bound(inner.registry, b.id);
    let p = rank(inner.registry, b.id) as int;
    assert(after.registry[p] == (block_entry(b, st.cursor is Some)->Some_0)->Some_0);
}

/// A region without hazards is reported under no choice of flags.
pub proof fn lemma_clean_never_reported(filter: Filter, info: NodeInfoView)
    requires
        info.is_clean(),
    ensures
        !filter.reports(info),
{
}

/// A region that has only just been opened holds no hazard.
pub proof fn lemma_fresh_is_clean(span: Span, is_fn: bool, compiler: bool)
    ensures
        NodeInfoView::fresh(span, is_fn, compiler).is_clean(),
{
}

/// A region that the compiler wrote is reported under no choice of flags,
/// whatever it holds.
pub proof fn lemma_compiler_never_reported(filter: Filter, info: NodeInfoView)
    requires
        info.compiler,
    ensures
        !filter.reports(info),
{
}

} // verus!
