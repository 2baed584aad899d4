use crate::classify::hazard_of;
use crate::info::{Hazard, NodeInfoView};
use crate::program::{Block, BlockRules, Crate, Expr, ExprKind, FnKind, Function, Node, UnsafeSource};
use crate::registry::{ascending, lemma_rank_bound, lemma_with_region, rank, Entries};
use crate::span::Span;
use crate::walk::{
    block_entry, fn_entry, walk_block, walk_crate, walk_expr, walk_exprs, walk_fn, walk_node,
    walk_nodes, Cursor, State,
};
use vstd::prelude::*;

verus! {

/// Whether `b` is the region `a` with more recorded: the same span and kind,
/// and each bucket of `a` at the head of that bucket of `b`.
pub open spec fn extends(a: NodeInfoView, b: NodeInfoView) -> bool {
    &&& a.span == b.span
    &&& a.is_fn == b.is_fn
    &&& a.compiler == b.compiler
    &&& a.ffi.is_prefix_of(b.ffi)
    &&& a.raw_deref.is_prefix_of(b.raw_deref)
    &&& a.static_mut.is_prefix_of(b.static_mut)
    &&& a.unsafe_call.is_prefix_of(b.unsafe_call)
    &&& a.transmute.is_prefix_of(b.transmute)
    &&& a.transmute_imm_to_mut.is_prefix_of(b.transmute_imm_to_mut)
    &&& a.cast_raw_ptr_const_to_mut.is_prefix_of(b.cast_raw_ptr_const_to_mut)
    &&& a.inline_asm.is_prefix_of(b.inline_asm)
}

/// Whether the open region `d` is the open region `c` with more recorded,
/// or both are none.
pub open spec fn cursor_kept(c: Cursor, d: Cursor) -> bool {
    match (c, d) {
        (None, None) => true,
        (Some((i, a)), Some((j, b))) => i == j && extends(a, b),
        _ => false,
    }
}

/// Whether every region of `r` stands in `s` as it is.
pub open spec fn grows(r: Entries, s: Entries) -> bool {
    forall|k: int| 0 <= k < r.len() ==> s.contains(#[trigger] r[k])
}

impl State {
    /// What a walk keeps between the state it starts in and the state
    /// `after` it ends in: the same region is open, with more recorded at
    /// most; the finished regions are all still there, untouched; and they
    /// are still in order.
    pub open spec fn leads_to(self, after: State) -> bool {
        &&& cursor_kept(self.cursor, after.cursor)
        &&& grows(self.registry, after.registry)
        &&& ascending(after.registry)
    }
}

proof fn lemma_prefix_trans(a: Seq<Span>, b: Seq<Span>, c: Seq<Span>)
    requires
        a.is_prefix_of(b),
        b.is_prefix_of(c),
    ensures
        a.is_prefix_of(c),
{
    assert(a =~= c.subrange(0, a.len() as int)) by {
        assert(a == b.subrange(0, a.len() as int));
        assert(b == c.subrange(0, b.len() as int));
    }
}

proof fn lemma_extends_trans(a: NodeInfoView, b: NodeInfoView, c: NodeInfoView)
    requires
        extends(a, b),
        extends(b, c),
    ensures
        extends(a, c),
{
    lemma_prefix_trans(a.ffi, b.ffi, c.ffi);
    lemma_prefix_trans(a.raw_deref, b.raw_deref, c.raw_deref);
    lemma_prefix_trans(a.static_mut, b.static_mut, c.static_mut);
    lemma_prefix_trans(a.unsafe_call, b.unsafe_call, c.unsafe_call);
    lemma_prefix_trans(a.transmute, b.transmute, c.transmute);
    lemma_prefix_trans(a.transmute_imm_to_mut, b.transmute_imm_to_mut, c.transmute_imm_to_mut);
    lemma_prefix_trans(
        a.cast_raw_ptr_const_to_mut,
        b.cast_raw_ptr_const_to_mut,
        c.cast_raw_ptr_const_to_mut,
    );
    lemma_prefix_trans(a.inline_asm, b.inline_asm, c.inline_asm);
}

proof fn lemma_prefix_refl(a: Seq<Span>)
    ensures
        a.is_prefix_of(a),
{
    assert(a =~= a.subrange(0, a.len() as int));
}

proof fn lemma_prefix_push(a: Seq<Span>, x: Span)
    ensures
        a.is_prefix_of(a.push(x)),
{
    assert(a =~= a.push(x).subrange(0, a.len() as int));
}

/// A region is itself with nothing more recorded.
pub proof fn lemma_extends_refl(a: NodeInfoView)
    ensures
        extends(a, a),
{
    lemma_prefix_refl(a.ffi);
    lemma_prefix_refl(a.raw_deref);
    lemma_prefix_refl(a.static_mut);
    lemma_prefix_refl(a.unsafe_call);
    lemma_prefix_refl(a.transmute);
    lemma_prefix_refl(a.transmute_imm_to_mut);
    lemma_prefix_refl(a.cast_raw_ptr_const_to_mut);
    lemma_prefix_refl(a.inline_asm);
}

/// Recording a hazard only adds to a region.
pub proof fn lemma_extends_record(a: NodeInfoView, h: Hazard, span: Span)
    ensures
        extends(a, a.record(h, span)),
{
    lemma_extends_refl(a);
    lemma_prefix_push(a.ffi, span);
    lemma_prefix_push(a.raw_deref, span);
    lemma_prefix_push(a.static_mut, span);
    lemma_prefix_push(a.unsafe_call, span);
    lemma_prefix_push(a.transmute, span);
    lemma_prefix_push(a.transmute_imm_to_mut, span);
    lemma_prefix_push(a.cast_raw_ptr_const_to_mut, span);
    lemma_prefix_push(a.inline_asm, span);
}

proof fn lemma_cursor_kept_refl(c: Cursor)
    ensures
        cursor_kept(c, c),
{
    if let Some((id, a)) = c {
        lemma_extends_refl(a);
    }
}

proof fn lemma_leads_to_trans(a: State, b: State, c: State)
    requires
        a.leads_to(b),
        b.leads_to(c),
    ensures
        a.leads_to(c),
{
    if let (Some((_, x)), Some((_, y)), Some((_, z))) = (a.cursor, b.cursor, c.cursor) {
        lemma_extends_trans(x, y, z);
    }
    assert forall|k: int| 0 <= k < a.registry.len() implies c.registry.contains(
        #[trigger] a.registry[k],
    ) by {
        assert(b.registry.contains(a.registry[k]));
        let m = choose|m: int| 0 <= m < b.registry.len() && b.registry[m] == a.registry[k];
        assert(c.registry.contains(b.registry[m]));
    }
}

/// Looking at one expression keeps the open region's identity and touches
/// no finished region.
pub proof fn lemma_classify(e: Expr, st: State)
    requires
        ascending(st.registry),
    ensures
        st.leads_to(st.classify(e)),
        st.classify(e).registry == st.registry,
{
    lemma_cursor_kept_refl(st.cursor);
    if let (Some((id, info)), Some(h)) = (st.cursor, hazard_of(e)) {
        lemma_extends_record(info, h, e.span);
    }
}

/// A dereference of a raw pointer that is met in an open region is recorded
/// in that region, whatever stands around it.
pub proof fn lemma_raw_deref_is_recorded(e: Expr, st: State)
    requires
        st.cursor is Some,
        e.node matches ExprKind::Deref { operand } && operand.ty.is_raw_ptr(),
    ensures
        st.classify(e) == (State {
            cursor: Some(
                (
                    st.cursor->Some_0.0,
                    st.cursor->Some_0.1.record(Hazard::RawDeref, e.span),
                ),
            ),
            ..st
        }),
{
}

/// Leaving a node puts back what was saved, and commits at most the region
/// that was open; the regions that were finished stay as they are.
pub proof fn lemma_leave(inner: State, saved: Option<Cursor>)
    requires
        ascending(inner.registry),
        inner.leave(saved) is Ok,
    ensures
        ({
            let after = inner.leave(saved)->Ok_0;
            &&& grows(inner.registry, after.registry)
            &&& ascending(after.registry)
            &&& after.cursor == (match saved {
                Some(before) => before,
                None => inner.cursor,
            })
        }),
{
    let after = inner.leave(saved)->Ok_0;
    if let (Some(_), Some((id, info))) = (saved, inner.cursor) {
        lemma_with_region(inner.registry, id, info);
        let p = rank(inner.registry, id) as int;
        lemma_rank_bound(inner.registry, id);
        assert forall|k: int| 0 <= k < inner.registry.len() implies after.registry.contains(
            #[trigger] inner.registry[k],
        ) by {
            if k < p {
                assert(after.registry[k] == inner.registry[k]);
            } else {
                assert(after.registry[k + 1] == inner.registry[k]);
            }
        }
    }
}

/// A walk over an expression that succeeds keeps the open region's identity,
/// adds to it at most, and leaves the finished regions as they are.
pub proof fn lemma_walk_expr(e: Expr, st: State)
    requires
        ascending(st.registry),
        walk_expr(e, st) is Ok,
    ensures
        st.leads_to(walk_expr(e, st)->Ok_0),
    decreases e,
{
    let first = st.classify(e);
    let after = walk_expr(e, st)->Ok_0;
    lemma_classify(e, st);
    match e.node {
        ExprKind::MethodCall { args, .. } => {
            lemma_walk_exprs(args@, first);
        },
        ExprKind::Call { callee, args } => {
            lemma_walk_expr(*callee, first);
            let mid = walk_expr(*callee, first)->Ok_0;
            lemma_walk_exprs(args@, mid);
            lemma_leads_to_trans(first, mid, after);
        },
        ExprKind::Path { .. } => {},
        ExprKind::Deref { operand } => {
            lemma_walk_expr(*operand, first);
        },
        ExprKind::InlineAsm { operands } => {
            lemma_walk_exprs(operands@, first);
        },
        ExprKind::Cast { operand } => {
            lemma_walk_expr(*operand, first);
        },
        ExprKind::Closure { function } => {
            lemma_walk_fn(*function, first);
        },
        ExprKind::Other { children } => {
            lemma_walk_nodes(children@, first);
        },
    }
    lemma_leads_to_trans(st, first, after);
}

/// The same, for expressions that stand side by side.
pub proof fn lemma_walk_exprs(es: Seq<Expr>, st: State)
    requires
        ascending(st.registry),
        walk_exprs(es, st) is Ok,
    ensures
        st.leads_to(walk_exprs(es, st)->Ok_0),
    decreases es,
{
    if es.len() == 0 {
        lemma_cursor_kept_refl(st.cursor);
    } else {
        lemma_walk_expr(es[0], st);
        let mid = walk_expr(es[0], st)->Ok_0;
        lemma_walk_exprs(es.drop_first(), mid);
        lemma_leads_to_trans(st, mid, walk_exprs(es, st)->Ok_0);
    }
}

/// The same, for one node.
pub proof fn lemma_walk_node(n: Node, st: State)
    requires
        ascending(st.registry),
        walk_node(n, st) is Ok,
    ensures
        st.leads_to(walk_node(n, st)->Ok_0),
    decreases n,
{
    match n {
        Node::Expr(e) => lemma_walk_expr(e, st),
        Node::Block(b) => lemma_walk_block(b, st),
        Node::Function(f) => lemma_walk_fn(f, st),
    }
}

/// The same, for nodes that stand side by side.
pub proof fn lemma_walk_nodes(ns: Seq<Node>, st: State)
    requires
        ascending(st.registry),
        walk_nodes(ns, st) is Ok,
    ensures
        st.leads_to(walk_nodes(ns, st)->Ok_0),
    decreases ns,
{
    if ns.len() == 0 {
        lemma_cursor_kept_refl(st.cursor);
    } else {
        lemma_walk_node(ns[0], st);
        let mid = walk_node(ns[0], st)->Ok_0;
        lemma_walk_nodes(ns.drop_first(), mid);
        lemma_leads_to_trans(st, mid, walk_nodes(ns, st)->Ok_0);
    }
}

/// The same, for a block. A block that opened a region of its own leaves
/// the open region exactly as it found it.
pub proof fn lemma_walk_block(b: Block, st: State)
    requires
        ascending(st.registry),
        walk_block(b, st) is Ok,
    ensures
        st.leads_to(walk_block(b, st)->Ok_0),
        block_entry(b, st.cursor is Some) is Some ==> (walk_block(b, st)->Ok_0).cursor
            == st.cursor,
    decreases b,
{
    let entry = block_entry(b, st.cursor is Some);
    let start = st.enter(entry);
    lemma_walk_nodes(b.stmts@, start);
    let inner = walk_nodes(b.stmts@, start)->Ok_0;
    lemma_leave(inner, st.saved(entry));
    let after = walk_block(b, st)->Ok_0;
    lemma_cursor_kept_refl(st.cursor);
    assert forall|k: int| 0 <= k < st.registry.len() implies after.registry.contains(
        #[trigger] st.registry[k],
    ) by {
        assert(inner.registry.contains(start.registry[k]));
        let m = choose|m: int| 0 <= m < inner.registry.len() && inner.registry[m] == st.registry[k];
        assert(after.registry.contains(inner.registry[m]));
    }
}

/// The same, for a function. A named function leaves the open region
/// exactly as it found it.
pub proof fn lemma_walk_fn(f: Function, st: State)
    requires
        ascending(st.registry),
        walk_fn(f, st) is Ok,
    ensures
        st.leads_to(walk_fn(f, st)->Ok_0),
        f.kind != FnKind::Closure ==> (walk_fn(f, st)->Ok_0).cursor == st.cursor,
    decreases f,
{
    let entry = fn_entry(f);
    let start = st.enter(entry);
    lemma_walk_block(f.body, start);
    let inner = walk_block(f.body, start)->Ok_0;
    lemma_leave(inner, st.saved(entry));
    let after = walk_fn(f, st)->Ok_0;
    lemma_cursor_kept_refl(st.cursor);
    assert forall|k: int| 0 <= k < st.registry.len() implies after.registry.contains(
        #[trigger] st.registry[k],
    ) by {
        assert(inner.registry.contains(start.registry[k]));
        let m = choose|m: int| 0 <= m < inner.registry.len() && inner.registry[m] == st.registry[k];
        assert(after.registry.contains(inner.registry[m]));
    }
}

/// A named function is a boundary for hazards: whatever its body holds, the
/// region that was open before it is open after it, with nothing added.
pub proof fn lemma_named_fn_is_boundary(f: Function, st: State)
    requires
        ascending(st.registry),
        f.kind != FnKind::Closure,
        walk_fn(f, st) is Ok,
    ensures
        (walk_fn(f, st)->Ok_0).cursor == st.cursor,
{
    lemma_walk_fn(f, st);
}

/// A safe named function is walked as if no region were open around it: its
/// walk is the walk of its body with no region open, after which the region
/// that was open before is open again.
pub proof fn lemma_safe_fn_is_isolated(f: Function, st: State)
    requires
        ascending(st.registry),
        f.kind != FnKind::Closure,
        !f.is_unsafe,
    ensures
        walk_fn(f, st) == (match walk_block(f.body, State { cursor: None, registry: st.registry }) {
            Ok(inner) => Ok(State { cursor: st.cursor, registry: inner.registry }),
            Err(failure) => Err(failure),
        }),
{
    let start = State { cursor: None, registry: st.registry };
    assert(st.enter(fn_entry(f)) == start);
    if walk_block(f.body, start) is Ok {
        lemma_walk_block(f.body, start);
    }
}

/// A closure opens no region and closes none: its walk is the walk of its
/// body in the state the closure was met in, so what its body does in an
/// open region is recorded in that region.
pub proof fn lemma_closure_shares_region(f: Function, st: State)
    requires
        f.kind == FnKind::Closure,
    ensures
        walk_fn(f, st) == walk_block(f.body, st),
{
}

/// An unsafe block that its author wrote inside an open region opens none:
/// its statements are walked as if they stood in the open region.
pub proof fn lemma_nested_unsafe_block_folds(b: Block, st: State)
    requires
        st.cursor is Some,
        b.rules == BlockRules::Unsafe(UnsafeSource::UserProvided),
    ensures
        walk_block(b, st) == walk_nodes(b.stmts@, st),
{
}

/// A block that is not unsafe changes nothing by itself.
pub proof fn lemma_plain_block_folds(b: Block, st: State)
    requires
        b.rules == BlockRules::Default,
    ensures
        walk_block(b, st) == walk_nodes(b.stmts@, st),
{
}

/// Every unsafe named function is tracked: after its walk the registry
/// holds a region under its identity, with its span, marked as a function
/// that the author wrote.
pub proof fn lemma_unsafe_fn_is_tracked(f: Function, st: State)
    requires
        ascending(st.registry),
        f.kind != FnKind::Closure,
        f.is_unsafe,
        walk_fn(f, st) is Ok,
    ensures
        exists|k: int|
            0 <= k < (walk_fn(f, st)->Ok_0).registry.len() && (#[trigger] (walk_fn(
                f,
                st,
            )->Ok_0).registry[k]).0 == f.id && extends(
                NodeInfoView::fresh(f.span, true, false),
                (walk_fn(f, st)->Ok_0).registry[k].1,
            ),
{
    let start = st.enter(fn_entry(f));
    lemma_walk_block(f.body, start);
    let inner = walk_block(f.body, start)->Ok_0;
    let after = walk_fn(f, st)->Ok_0;
    let info = inner.cursor->Some_0.1;
    lemma_rank_bound(inner.registry, f.id);
    let p = rank(inner.registry, f.id) as int;
    assert(after.registry[p] == (f.id, info));
}

/// Every block that opens a region is tracked: an unsafe block met where no
/// region is open, and an unsafe block that the compiler wrote, wherever it
/// is met. After its walk the registry holds a region under its identity,
/// with its span, marked as a block and by who wrote it, and the region that
/// was open before is open again with nothing added.
pub proof fn lemma_unsafe_block_is_tracked(b: Block, st: State)
    requires
        ascending(st.registry),
        b.rules matches BlockRules::Unsafe(source) && (st.cursor is None || source
            == UnsafeSource::CompilerGenerated),
        walk_block(b, st) is Ok,
    ensures
        (walk_block(b, st)->Ok_0).cursor == st.cursor,
        exists|k: int|
            0 <= k < (walk_block(b, st)->Ok_0).registry.len() && (#[trigger] (walk_block(
                b,
                st,
            )->Ok_0).registry[k]).0 == b.id && extends(
                NodeInfoView::fresh(
                    b.span,
                    false,
                    b.rules == BlockRules::Unsafe(UnsafeSource::CompilerGenerated),
                ),
                (walk_block(b, st)->Ok_0).registry[k].1,
            ),
{
    let start = st.enter(block_entry(b, st.cursor is Some));
    lemma_walk_block(b, st);
    lemma_walk_nodes(b.stmts@, start);
    let inner = walk_nodes(b.stmts@, start)->Ok_0;
    let after = walk_block(b, st)->Ok_0;
    let info = inner.cursor->Some_0.1;
    lemma_rank_bound(inner.registry, b.id);
    let p = rank(inner.registry, b.id) as int;
    assert(after.registry[p] == (b.id, info));
}

/// A walk commits a region once: where the walk of a whole program
/// succeeds, no two regions of the registry share an identity, and every
/// region that was there before is still there as it was.
pub proof fn lemma_walk_crate(krate: Crate, st: State)
    requires
        ascending(st.registry),
        walk_crate(krate, st) is Ok,
    ensures
        st.leads_to(walk_crate(krate, st)->Ok_0),
        forall|i: int, j: int|
            0 <= i < j < (walk_crate(krate, st)->Ok_0).registry.len() ==> (walk_crate(
                krate,
                st,
            )->Ok_0).registry[i].0 != (walk_crate(krate, st)->Ok_0).registry[j].0,
{
    lemma_walk_nodes(krate.items@, st);
}

} // verus!
