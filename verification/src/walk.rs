use crate::classify::classified;
use crate::info::NodeInfoView;
use crate::program::{Block, BlockRules, Crate, Expr, ExprKind, FnKind, Function, Node, UnsafeSource};
use crate::registry::{has_id, with_region, Entries};
use crate::span::NodeId;
use vstd::prelude::*;

verus! {

/// The region that is open, if one is: its identity and what it has
/// recorded so far.
pub type Cursor = Option<(NodeId, NodeInfoView)>;

/// What a walk over a program carries along: the open region and the regions
/// that are finished.
pub ghost struct State {
    pub cursor: Cursor,
    pub registry: Entries,
}

/// A walk that stopped: the identity of the region that was about to be
/// finished a second time, and the state the walk stopped in.
pub ghost struct Failure {
    pub id: NodeId,
    pub state: State,
}

/// What entering a function does to the open region. A named function sets
/// it, to a new region where the function is unsafe and to none where it is
/// safe; a closure leaves it alone.
pub open spec fn fn_entry(f: Function) -> Option<Cursor> {
    if f.kind == FnKind::Closure {
        None
    } else if f.is_unsafe {
        Some(Some((f.id, NodeInfoView::fresh(f.span, true, false))))
    } else {
        Some(None)
    }
}

/// What entering a block does to the open region: an unsafe block opens a
/// region of its own where none is open (`active` says that one is) or
/// where the compiler wrote the block. Every other block leaves it alone.
pub open spec fn block_entry(b: Block, active: bool) -> Option<Cursor> {
    match b.rules {
        BlockRules::Default => None,
        BlockRules::Unsafe(source) => {
            let compiler = source == UnsafeSource::CompilerGenerated;
            if !active || compiler {
                Some(Some((b.id, NodeInfoView::fresh(b.span, false, compiler))))
            } else {
                None
            }
        },
    }
}

impl State {
    /// The state of a walk that has seen nothing.
    pub open spec fn initial() -> State {
        State { cursor: None, registry: Entries::empty() }
    }

    /// The state after `e` itself was looked at: its hazard, if it is one,
    /// is recorded in the open region, if there is one.
    pub open spec fn classify(self, e: Expr) -> State {
        match self.cursor {
            Some((id, info)) => State { cursor: Some((id, classified(info, e))), ..self },
            None => self,
        }
    }

    /// The state after a node was entered whose entry is `entry`.
    pub open spec fn enter(self, entry: Option<Cursor>) -> State {
        match entry {
            Some(cursor) => State { cursor, ..self },
            None => self,
        }
    }

    /// What has to be put back when the node is left: the region that was
    /// open before, where the entry set another.
    pub open spec fn saved(self, entry: Option<Cursor>) -> Option<Cursor> {
        match entry {
            Some(_) => Some(self.cursor),
            None => None,
        }
    }

    /// The state after a node was left that had saved `saved` on entry. Where
    /// the entry had set the open region, the saved one is open again and the
    /// region that was open is finished; this fails, with the registry as it
    /// was, if the identity of that region has a region already.
    pub open spec fn leave(self, saved: Option<Cursor>) -> Result<State, Failure> {
        match saved {
            None => Ok(self),
            Some(before) => match self.cursor {
                None => Ok(State { cursor: before, ..self }),
                Some((id, info)) => if has_id(self.registry, id) {
                    Err(Failure { id, state: State { cursor: before, ..self } })
                } else {
                    Ok(State { cursor: before, registry: with_region(self.registry, id, info) })
                },
            },
        }
    }
}

/// The walk over one expression: the expression itself, then what stands
/// below it, in source order. It stops at the first region that would be
/// finished a second time.
pub open spec fn walk_expr(e: Expr, st: State) -> Result<State, Failure>
    decreases e,
{
    let st = st.classify(e);
    match e.node {
        ExprKind::MethodCall { args, .. } => walk_exprs(args@, st),
        ExprKind::Call { callee, args } => match walk_expr(*callee, st) {
            Ok(next) => walk_exprs(args@, next),
            Err(failure) => Err(failure),
        },
        ExprKind::Path { .. } => Ok(st),
        ExprKind::Deref { operand } => walk_expr(*operand, st),
        ExprKind::InlineAsm { operands } => walk_exprs(operands@, st),
        ExprKind::Cast { operand } => walk_expr(*operand, st),
        ExprKind::Closure { function } => walk_fn(*function, st),
        ExprKind::Other { children } => walk_nodes(children@, st),
    }
}

/// The walk over expressions that stand side by side, first to last.
pub open spec fn walk_exprs(es: Seq<Expr>, st: State) -> Result<State, Failure>
    decreases es,
{
    if es.len() == 0 {
        Ok(st)
    } else {
        match walk_expr(es[0], st) {
            Ok(next) => walk_exprs(es.drop_first(), next),
            Err(failure) => Err(failure),
        }
    }
}

/// The walk over one node.
pub open spec fn walk_node(n: Node, st: State) -> Result<State, Failure>
    decreases n,
{
    match n {
        Node::Expr(e) => walk_expr(e, st),
        Node::Block(b) => walk_block(b, st),
        Node::Function(f) => walk_fn(f, st),
    }
}

/// The walk over nodes that stand side by side, first to last.
pub open spec fn walk_nodes(ns: Seq<Node>, st: State) -> Result<State, Failure>
    decreases ns,
{
    if ns.len() == 0 {
        Ok(st)
    } else {
        match walk_node(ns[0], st) {
            Ok(next) => walk_nodes(ns.drop_first(), next),
            Err(failure) => Err(failure),
        }
    }
}

/// The walk over a block: enter it, walk its statements, leave it.
pub open spec fn walk_block(b: Block, st: State) -> Result<State, Failure>
    decreases b,
{
    let entry = block_entry(b, st.cursor is Some);
    match walk_nodes(b.stmts@, st.enter(entry)) {
        Ok(inner) => inner.leave(st.saved(entry)),
        Err(failure) => Err(failure),
    }
}

/// The walk over a function: enter it, walk its body, leave it.
pub open spec fn walk_fn(f: Function, st: State) -> Result<State, Failure>
    decreases f,
{
    let entry = fn_entry(f);
    match walk_block(f.body, st.enter(entry)) {
        Ok(inner) => inner.leave(st.saved(entry)),
        Err(failure) => Err(failure),
    }
}

/// The walk over a whole program.
pub open spec fn walk_crate(krate: Crate, st: State) -> Result<State, Failure> {
    walk_nodes(krate.items@, st)
}

} // verus!
