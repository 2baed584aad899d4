use crate::info::{Hazard, NodeInfo, NodeInfoView};
use crate::program::{type_is_unsafe_function, Def, Expr, ExprKind, Ty};
use vstd::prelude::*;
use vstd::string::*;

verus! {

/// The two casts that turn something immutable into something mutable: from
/// `&T` to `&mut T`, and from `*const T` to `*mut T`. Only the kind of pointer
/// and its mutability are looked at on either side.
pub open spec fn ptr_cast(from: Ty, to: Ty) -> Option<Hazard> {
    if from == (Ty::Ref { mutable: false }) && to == (Ty::Ref { mutable: true }) {
        Some(Hazard::TransmuteImmToMut)
    } else if from == (Ty::RawPtr { mutable: false }) && to == (Ty::RawPtr { mutable: true }) {
        Some(Hazard::CastRawPtrConstToMut)
    } else {
        None
    }
}

/// Whether a call of `callee` with `args` is a call of `transmute` with one
/// argument: the callee is a path whose last segment is that name.
pub open spec fn is_transmute_call(callee: Expr, args: Seq<Expr>) -> bool {
    &&& args.len() == 1
    &&& callee.node matches ExprKind::Path { name, .. }
    &&& name@ == "transmute"@
}

/// Whether `callee` names a function that the program itself declares as an
/// external item.
pub open spec fn is_foreign_callee(callee: Expr) -> bool {
    &&& callee.node matches ExprKind::Path { def, .. }
    &&& def == (Def::Fn { local: true, foreign: true })
}

/// The hazard of a call, by the first of three rules that applies: a
/// `transmute` is a mutability upgrade where its two types show one, else
/// a plain `transmute`; a call of a foreign item of the program is a foreign
/// call; a callee of unsafe function type makes an unsafe call.
pub open spec fn call_hazard(callee: Expr, args: Seq<Expr>, result: Ty) -> Option<Hazard> {
    if is_transmute_call(callee, args) {
        match ptr_cast(args[0].ty, result) {
            Some(h) => Some(h),
            None => Some(Hazard::Transmute),
        }
    } else if is_foreign_callee(callee) {
        Some(Hazard::Ffi)
    } else if callee.ty.is_unsafe_function() {
        Some(Hazard::UnsafeCall)
    } else {
        None
    }
}

/// The hazard that the expression `e` itself is, if it is one. What stands
/// below `e` plays no part beyond the types and names the rules read.
pub open spec fn hazard_of(e: Expr) -> Option<Hazard> {
    match e.node {
        ExprKind::MethodCall { method_ty, .. } => if method_ty.is_unsafe_function() {
            Some(Hazard::UnsafeCall)
        } else {
            None
        },
        ExprKind::Call { callee, args } => call_hazard(*callee, args@, e.ty),
        ExprKind::Deref { operand } => if operand.ty.is_raw_ptr() {
            Some(Hazard::RawDeref)
        } else {
            None
        },
        ExprKind::InlineAsm { .. } => Some(Hazard::Asm),
        ExprKind::Path { def, .. } => if def == (Def::Static { mutable: true }) {
            Some(Hazard::StaticMut)
        } else {
            None
        },
        ExprKind::Cast { operand } => ptr_cast(operand.ty, e.ty),
        ExprKind::Closure { .. } => None,
        ExprKind::Other { .. } => None,
    }
}

/// The region `info` after `e` itself was looked at in it: the hazard of `e`,
/// if it is one, is recorded with the span of `e`.
pub open spec fn classified(info: NodeInfoView, e: Expr) -> NodeInfoView {
    match hazard_of(e) {
        Some(h) => info.record(h, e.span),
        None => info,
    }
}

/// Tells whether a value of type `from` that becomes one of type `to` is one
/// of the two mutability upgrades.
pub fn check_ptr_cast(from: Ty, to: Ty) -> (r: Option<Hazard>)
    ensures
        r == ptr_cast(from, to),
{
    match (from, to) {
        (Ty::Ref { mutable: false }, Ty::Ref { mutable: true }) => Some(
            Hazard::TransmuteImmToMut,
        ),
        (Ty::RawPtr { mutable: false }, Ty::RawPtr { mutable: true }) => Some(
            Hazard::CastRawPtrConstToMut,
        ),
        _ => None,
    }
}

fn is_transmute(callee: &Expr, args: &Vec<Expr>) -> (r: bool)
    ensures
        r == is_transmute_call(*callee, args@),
{
    match &callee.node {
        ExprKind::Path { name, .. } => {
            let wanted = String::from_str("transmute");
            args.len() == 1 && *name == wanted
        },
        _ => false,
    }
}

fn is_foreign(callee: &Expr) -> (r: bool)
    ensures
        r == is_foreign_callee(*callee),
{
    match &callee.node {
        ExprKind::Path { def, .. } => match def {
            Def::Fn { local, foreign } => *local && *foreign,
            _ => false,
        },
        _ => false,
    }
}

/// The hazard that `expr` itself is, if it is one.
pub fn hazard(expr: &Expr) -> (r: Option<Hazard>)
    ensures
        r == hazard_of(*expr),
{
    match &expr.node {
        ExprKind::MethodCall { method_ty, .. } => {
            if type_is_unsafe_function(*method_ty) {
                Some(Hazard::UnsafeCall)
            } else {
                None
            }
        },
        ExprKind::Call { callee, args } => {
            if is_transmute(callee, args) {
                match check_ptr_cast(args[0].ty, expr.ty) {
                    Some(h) => Some(h),
                    None => Some(Hazard::Transmute),
                }
            } else if is_foreign(callee) {
                Some(Hazard::Ffi)
            } else if type_is_unsafe_function(callee.ty) {
                Some(Hazard::UnsafeCall)
            } else {
                None
            }
        },
        ExprKind::Deref { operand } => {
            match operand.ty {
                Ty::RawPtr { .. } => Some(Hazard::RawDeref),
                _ => None,
            }
        },
        ExprKind::InlineAsm { .. } => Some(Hazard::Asm),
        ExprKind::Path { def, .. } => {
            match def {
                Def::Static { mutable: true } => Some(Hazard::StaticMut),
                _ => None,
            }
        },
        ExprKind::Cast { operand } => check_ptr_cast(operand.ty, expr.ty),
        ExprKind::Closure { .. } => None,
        ExprKind::Other { .. } => None,
    }
}

/// Looks at `expr` itself in the open region `info`: its hazard, if it is
/// one, is recorded there with its span.
pub fn classify(expr: &Expr, info: &mut NodeInfo)
    ensures
        final(info)@ == classified(old(info)@, *expr),
{
    match hazard(expr) {
        Some(h) => info.record(h, expr.span),
        None => {},
    }
}

} // verus!
