use crate::classify::classify;
use crate::info::NodeInfo;
use crate::program::{Block, BlockRules, Crate, Expr, ExprKind, FnKind, Function, Node, UnsafeSource};
use crate::registry::{DuplicateRegion, Registry};
use crate::span::NodeId;
use crate::walk::{
    block_entry, fn_entry, walk_block, walk_crate, walk_expr, walk_exprs, walk_fn, walk_node,
    walk_nodes, Cursor, State,
};
use vstd::prelude::*;

verus! {

/// The mathematical content of an open region, or of none.
pub open spec fn cursor_view(c: Option<(NodeId, NodeInfo)>) -> Cursor {
    match c {
        Some((id, info)) => Some((id, info@)),
        None => None,
    }
}

/// What entering a node hands out and leaving it takes back.
#[derive(Debug)]
pub enum Frame {
    /// Entering left the open region alone.
    Kept,
    /// Entering set the open region; this one was open before.
    Saved(Option<(NodeId, NodeInfo)>),
}

impl View for Frame {
    type V = Option<Cursor>;

    open spec fn view(&self) -> Option<Cursor> {
        match *self {
            Frame::Kept => None,
            Frame::Saved(before) => Some(cursor_view(before)),
        }
    }
}

/// The tracker of unsafe regions: the one region that is open, if any, and
/// the registry of those that are finished.
#[derive(Debug)]
pub struct UnsafeVisitor {
    /// The region that is open, with its identity.
    pub node_info: Option<(NodeId, NodeInfo)>,
    /// The regions that are finished.
    pub unsafes: Registry,
}

impl View for UnsafeVisitor {
    type V = State;

    open spec fn view(&self) -> State {
        State { cursor: cursor_view(self.node_info), registry: self.unsafes@ }
    }
}

impl UnsafeVisitor {
    /// The invariant of a tracker: that of its registry.
    pub open spec fn wf(&self) -> bool {
        self.unsafes.wf()
    }

    /// A tracker that has seen nothing.
    pub fn new() -> (v: UnsafeVisitor)
        ensures
            v@ == State::initial(),
            v.wf(),
    {
        UnsafeVisitor { node_info: None, unsafes: Registry::new() }
    }

    /// The open region with its identity, if one is open.
    pub fn info(&self) -> (r: Option<(NodeId, &NodeInfo)>)
        ensures
            match r {
                Some((id, info)) => self@.cursor == Some((id, info@)),
                None => self@.cursor is None,
            },
    {
        match &self.node_info {
            Some((id, info)) => Some((*id, info)),
            None => None,
        }
    }

    /// Looks at `expr` itself: its hazard, if it is one, goes into the open
    /// region, if there is one.
    pub fn classify(&mut self, expr: &Expr)
        ensures
            final(self)@ == old(self)@.classify(*expr),
            final(self).unsafes == old(self).unsafes,
    {
        match self.node_info.take() {
            Some((id, mut info)) => {
                classify(expr, &mut info);
                self.node_info = Some((id, info));
            },
            None => {},
        }
    }

    /// Enters the function `f`.
    pub fn enter_fn(&mut self, f: &Function) -> (frame: Frame)
        ensures
            final(self)@ == old(self)@.enter(fn_entry(*f)),
            frame@ == old(self)@.saved(fn_entry(*f)),
            final(self).unsafes == old(self).unsafes,
    {
        match f.kind {
            FnKind::Closure => Frame::Kept,
            _ => {
                let before = self.node_info.take();
                if f.is_unsafe {
                    self.node_info = Some((f.id, NodeInfo::new(f.span, true, false)));
                }
                Frame::Saved(before)
            },
        }
    }

    /// Enters the block `b`.
    pub fn enter_block(&mut self, b: &Block) -> (frame: Frame)
        ensures
            final(self)@ == old(self)@.enter(block_entry(*b, old(self)@.cursor is Some)),
            frame@ == old(self)@.saved(block_entry(*b, old(self)@.cursor is Some)),
            final(self).unsafes == old(self).unsafes,
    {
        match b.rules {
            BlockRules::Default => Frame::Kept,
            BlockRules::Unsafe(source) => {
                let compiler = match source {
                    UnsafeSource::CompilerGenerated => true,
                    UnsafeSource::UserProvided => false,
                };
                if self.node_info.is_none() || compiler {
                    let before = self.node_info.take();
                    self.node_info = Some((b.id, NodeInfo::new(b.span, false, compiler)));
                    Frame::Saved(before)
                } else {
                    Frame::Kept
                }
            },
        }
    }

    /// Leaves the node that handed out `frame`: where entering had set the
    /// open region, the region open now is committed to the registry and the
    /// saved one is open again. A region whose identity has one already is
    /// reported, and the registry stays as it was.
    pub fn leave(&mut self, frame: Frame) -> (r: Result<(), DuplicateRegion>)
        requires
            old(self).wf(),
        ensures
            match old(self)@.leave(frame@) {
                Ok(st) => r is Ok && final(self)@ == st,
                Err(failure) => r == Err::<(), DuplicateRegion>(
                    DuplicateRegion { id: failure.id },
                ) && final(self)@ == failure.state,
            },
            final(self).wf(),
    {
        match frame {
            Frame::Kept => Ok(()),
            Frame::Saved(before) => {
                let finished = self.node_info.take();
                self.node_info = before;
                match finished {
                    Some((id, info)) => self.unsafes.insert(id, info),
                    None => Ok(()),
                }
            },
        }
    }

    /// Walks `expr`: the expression itself, then what stands below it.
    pub fn visit_expr(&mut self, expr: &Expr) -> (r: Result<(), DuplicateRegion>)
        requires
            old(self).wf(),
        ensures
            match walk_expr(*expr, old(self)@) {
                Ok(st) => r is Ok && final(self)@ == st,
                Err(failure) => r == Err::<(), DuplicateRegion>(
                    DuplicateRegion { id: failure.id },
                ) && final(self)@ == failure.state,
            },
            final(self).wf(),
        decreases expr,
    {
        self.classify(expr);
        match &expr.node {
            ExprKind::MethodCall { args, .. } => self.visit_exprs(args),
            ExprKind::Call { callee, args } => {
                match self.visit_expr(callee) {
                    Ok(_) => self.visit_exprs(args),
                    Err(e) => Err(e),
                }
            },
            ExprKind::Path { .. } => Ok(()),
            ExprKind::Deref { operand } => self.visit_expr(operand),
            ExprKind::InlineAsm { operands } => self.visit_exprs(operands),
            ExprKind::Cast { operand } => self.visit_expr(operand),
            ExprKind::Closure { function } => self.visit_fn(function),
            ExprKind::Other { children } => self.visit_nodes(children),
        }
    }

    /// Walks expressions that stand side by side, first to last, and stops
    /// at the first that fails.
    pub fn visit_exprs(&mut self, exprs: &Vec<Expr>) -> (r: Result<(), DuplicateRegion>)
        requires
            old(self).wf(),
        ensures
            match walk_exprs(exprs@, old(self)@) {
                Ok(st) => r is Ok && final(self)@ == st,
                Err(failure) => r == Err::<(), DuplicateRegion>(
                    DuplicateRegion { id: failure.id },
                ) && final(self)@ == failure.state,
            },
            final(self).wf(),
        decreases exprs,
    {
        let mut i: usize = 0;
        assert(exprs@.skip(0) =~= exprs@);
        while i < exprs.len()
            invariant
                i <= exprs.len(),
                self.wf(),
                walk_exprs(exprs@.skip(i as int), self@) == walk_exprs(exprs@, old(self)@),
            decreases exprs.len() - i,
        {
            let ghost rest = exprs@.skip(i as int);
            assert(rest[0] == exprs@[i as int]);
            assert(rest.drop_first() =~= exprs@.skip(i + 1));
            match self.visit_expr(&exprs[i]) {
                Ok(_) => {},
                Err(e) => {
                    return Err(e);
                },
            }
            i += 1;
        }
        Ok(())
    }

    /// Walks one node.
    pub fn visit_node(&mut self, node: &Node) -> (r: Result<(), DuplicateRegion>)
        requires
            old(self).wf(),
        ensures
            match walk_node(*node, old(self)@) {
                Ok(st) => r is Ok && final(self)@ == st,
                Err(failure) => r == Err::<(), DuplicateRegion>(
                    DuplicateRegion { id: failure.id },
                ) && final(self)@ == failure.state,
            },
            final(self).wf(),
        decreases node,
    {
        match node {
            Node::Expr(e) => self.visit_expr(e),
            Node::Block(b) => self.visit_block(b),
            Node::Function(f) => self.visit_fn(f),
        }
    }

    /// Walks nodes that stand side by side, first to last, and stops at the
    /// first that fails.
    pub fn visit_nodes(&mut self, nodes: &Vec<Node>) -> (r: Result<(), DuplicateRegion>)
        requires
            old(self).wf(),
        ensures
            match walk_nodes(nodes@, old(self)@) {
                Ok(st) => r is Ok && final(self)@ == st,
                Err(failure) => r == Err::<(), DuplicateRegion>(
                    DuplicateRegion { id: failure.id },
                ) && final(self)@ == failure.state,
            },
            final(self).wf(),
        decreases nodes,
    {
        let mut i: usize = 0;
        assert(nodes@.skip(0) =~= nodes@);
        while i < nodes.len()
            invariant
                i <= nodes.len(),
                self.wf(),
                walk_nodes(nodes@.skip(i as int), self@) == walk_nodes(nodes@, old(self)@),
            decreases nodes.len() - i,
        {
            let ghost rest = nodes@.skip(i as int);
            assert(rest[0] == nodes@[i as int]);
            assert(rest.drop_first() =~= nodes@.skip(i + 1));
            match self.visit_node(&nodes[i]) {
                Ok(_) => {},
                Err(e) => {
                    return Err(e);
                },
            }
            i += 1;
        }
        Ok(())
    }

    /// Walks the block `block`: enters it, walks its statements, leaves it.
    pub fn visit_block(&mut self, block: &Block) -> (r: Result<(), DuplicateRegion>)
        requires
            old(self).wf(),
        ensures
            match walk_block(*block, old(self)@) {
                Ok(st) => r is Ok && final(self)@ == st,
                Err(failure) => r == Err::<(), DuplicateRegion>(
                    DuplicateRegion { id: failure.id },
                ) && final(self)@ == failure.state,
            },
            final(self).wf(),
        decreases block,
    {
        let frame = self.enter_block(block);
        match self.visit_nodes(&block.stmts) {
            Ok(_) => self.leave(frame),
            Err(e) => Err(e),
        }
    }

    /// Walks the function `function`: enters it, walks its body, leaves it.
    pub fn visit_fn(&mut self, function: &Function) -> (r: Result<(), DuplicateRegion>)
        requires
            old(self).wf(),
        ensures
            match walk_fn(*function, old(self)@) {
                Ok(st) => r is Ok && final(self)@ == st,
                Err(failure) => r == Err::<(), DuplicateRegion>(
                    DuplicateRegion { id: failure.id },
                ) && final(self)@ == failure.state,
            },
            final(self).wf(),
        decreases function,
    {
        let frame = self.enter_fn(function);
        match self.visit_block(&function.body) {
            Ok(_) => self.leave(frame),
            Err(e) => Err(e),
        }
    }

    /// Walks the whole program `krate`. On success every unsafe region of
    /// the walk is in the registry; the walk fails at the first region whose
    /// identity has one there already, and reports that identity.
    pub fn check_crate(&mut self, krate: &Crate) -> (r: Result<(), DuplicateRegion>)
        requires
            old(self).wf(),
        ensures
            match walk_crate(*krate, old(self)@) {
                Ok(st) => r is Ok && final(self)@ == st,
                Err(failure) => r == Err::<(), DuplicateRegion>(
                    DuplicateRegion { id: failure.id },
                ) && final(self)@ == failure.state,
            },
            final(self).wf(),
    {
        self.visit_nodes(&krate.items)
    }
}

} // verus!
