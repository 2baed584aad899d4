use crate::span::{NodeId, Span};
use vstd::prelude::*;

verus! {

/// What the analysis reads of an expression's static type.
#[derive(Clone, Copy, Debug, PartialEq, Eq, Structural)]
pub enum Ty {
    /// A reference, `&T` or `&mut T`.
    Ref { mutable: bool },
    /// A raw pointer, `*const T` or `*mut T`.
    RawPtr { mutable: bool },
    /// A bare function type, `fn(..)` or `unsafe fn(..)`.
    BareFn { is_unsafe: bool },
    /// Any other type.
    Other,
}

/// What the analysis reads of the definition that a name resolves to.
#[derive(Clone, Copy, Debug, PartialEq, Eq, Structural)]
pub enum Def {
    /// A function. `local` says that it is defined in the analysed program,
    /// `foreign` that it is declared as an external item.
    Fn { local: bool, foreign: bool },
    /// A static variable.
    Static { mutable: bool },
    /// Anything else, or a name that resolves to nothing.
    Other,
}

/// Who wrote an unsafe block.
#[derive(Clone, Copy, Debug, PartialEq, Eq, Structural)]
pub enum UnsafeSource {
    CompilerGenerated,
    UserProvided,
}

/// The safety rules a block is checked under.
#[derive(Clone, Copy, Debug, PartialEq, Eq, Structural)]
pub enum BlockRules {
    Default,
    Unsafe(UnsafeSource),
}

/// The three function-like forms.
#[derive(Clone, Copy, Debug, PartialEq, Eq, Structural)]
pub enum FnKind {
    /// A free function.
    Item,
    /// A method of an impl or a trait.
    Method,
    /// A closure.
    Closure,
}

/// An expression with its resolved static type.
#[derive(Debug)]
pub struct Expr {
    pub id: NodeId,
    pub span: Span,
    pub ty: Ty,
    pub node: ExprKind,
}

/// The expression forms the analysis tells apart.
#[derive(Debug)]
pub enum ExprKind {
    /// `recv.m(args)`: the type of the resolved method, and the receiver
    /// followed by the arguments.
    MethodCall { method_ty: Ty, args: Vec<Expr> },
    /// `callee(args)`.
    Call { callee: Box<Expr>, args: Vec<Expr> },
    /// A path: its last segment and what it resolves to.
    Path { name: String, def: Def },
    /// `*operand`.
    Deref { operand: Box<Expr> },
    /// Inline assembly with its operand expressions.
    InlineAsm { operands: Vec<Expr> },
    /// `operand as T`; the target type is the type of the cast itself.
    Cast { operand: Box<Expr> },
    /// A closure.
    Closure { function: Box<Function> },
    /// Every other form, with the nodes directly below it in source order.
    Other { children: Vec<Node> },
}

/// A block of statements.
#[derive(Debug)]
pub struct Block {
    pub id: NodeId,
    pub span: Span,
    pub rules: BlockRules,
    pub stmts: Vec<Node>,
}

/// A function, method or closure.
#[derive(Debug)]
pub struct Function {
    pub id: NodeId,
    pub span: Span,
    pub kind: FnKind,
    pub is_unsafe: bool,
    pub body: Block,
}

/// Anything that can stand below a block, an expression or the program's root.
#[derive(Debug)]
pub enum Node {
    Expr(Expr),
    Block(Block),
    Function(Function),
}

/// A whole type-checked program: its items in source order, modules flattened.
#[derive(Debug)]
pub struct Crate {
    pub items: Vec<Node>,
}

impl Ty {
    /// Whether this is the type of an unsafe function.
    pub open spec fn is_unsafe_function(self) -> bool {
        self == (Ty::BareFn { is_unsafe: true })
    }

    /// Whether this is a raw pointer type, of either mutability.
    pub open spec fn is_raw_ptr(self) -> bool {
        self is RawPtr
    }
}

/// Whether `ty` is the type of an unsafe function.
pub fn type_is_unsafe_function(ty: Ty) -> (r: bool)
    ensures
        r == ty.is_unsafe_function(),
{
    match ty {
        Ty::BareFn { is_unsafe } => is_unsafe,
        _ => false,
    }
}

} // verus!
