use unsafe_ls::info::{Hazard, NodeInfo};
use unsafe_ls::lines::{distinct_lines, LineKey};
use unsafe_ls::program::{
    Block, BlockRules, Crate, Def, Expr, ExprKind, FnKind, Function, Node, Ty, UnsafeSource,
};
use unsafe_ls::registry::DuplicateRegion;
use unsafe_ls::report::{summary_line, Filter, Loc};
use unsafe_ls::span::Span;
use unsafe_ls::visitor::UnsafeVisitor;

const BOTH: Filter = Filter { ffi: true, nonffi: true };
const ONLY_FFI: Filter = Filter { ffi: true, nonffi: false };
const ONLY_OTHER: Filter = Filter { ffi: false, nonffi: true };
const NEITHER: Filter = Filter { ffi: false, nonffi: false };

fn path(id: u32, lo: u32, name: &str, def: Def, ty: Ty) -> Expr {
    Expr {
        id,
        span: Span::new(lo, lo + name.len() as u32),
        ty,
        node: ExprKind::Path { name: name.to_string(), def },
    }
}

fn local(id: u32, lo: u32, name: &str, ty: Ty) -> Expr {
    path(id, lo, name, Def::Other, ty)
}

fn deref(id: u32, lo: u32, operand: Expr) -> Expr {
    let hi = operand.span.hi;
    Expr { id, span: Span::new(lo, hi), ty: Ty::Other, node: ExprKind::Deref { operand: Box::new(operand) } }
}

fn call(id: u32, callee: Expr, args: Vec<Expr>, ty: Ty, hi: u32) -> Expr {
    let lo = callee.span.lo;
    Expr { id, span: Span::new(lo, hi), ty, node: ExprKind::Call { callee: Box::new(callee), args } }
}

fn cast(id: u32, operand: Expr, ty: Ty, hi: u32) -> Expr {
    let lo = operand.span.lo;
    Expr { id, span: Span::new(lo, hi), ty, node: ExprKind::Cast { operand: Box::new(operand) } }
}

fn block(id: u32, lo: u32, hi: u32, rules: BlockRules, stmts: Vec<Node>) -> Block {
    Block { id, span: Span::new(lo, hi), rules, stmts }
}

fn function(id: u32, lo: u32, hi: u32, kind: FnKind, is_unsafe: bool, body: Block) -> Function {
    Function { id, span: Span::new(lo, hi), kind, is_unsafe, body }
}

fn user_unsafe() -> BlockRules {
    BlockRules::Unsafe(UnsafeSource::UserProvided)
}

fn compiler_unsafe() -> BlockRules {
    BlockRules::Unsafe(UnsafeSource::CompilerGenerated)
}

fn raw_deref_of_local(id: u32, lo: u32) -> Expr {
    deref(id, lo, local(id + 1, lo + 1, "p", Ty::RawPtr { mutable: false }))
}

fn foreign_call(id: u32, lo: u32) -> Expr {
    let callee = path(
        id + 1,
        lo,
        "puts",
        Def::Fn { local: true, foreign: true },
        Ty::BareFn { is_unsafe: true },
    );
    call(id, callee, vec![], Ty::Other, lo + 6)
}

fn walk(items: Vec<Node>) -> UnsafeVisitor {
    let mut visitor = UnsafeVisitor::new();
    assert_eq!(visitor.check_crate(&Crate { items }), Ok(()));
    assert!(visitor.info().is_none());
    visitor
}

fn key(file: &str, line: usize) -> Option<LineKey> {
    Some(LineKey { file: file.to_string(), line })
}

#[test]
fn unsafe_fn_with_deref_and_foreign_call() {
    let body = block(
        2,
        1010,
        1300,
        BlockRules::Default,
        vec![Node::Expr(raw_deref_of_local(3, 1100)), Node::Expr(foreign_call(5, 1200))],
    );
    let f = function(1, 1000, 1300, FnKind::Item, true, body);
    let visitor = walk(vec![Node::Function(f)]);

    assert_eq!(visitor.unsafes.len(), 1);
    let (id, info) = visitor.unsafes.entry(0);
    assert_eq!(id, 1);
    assert!(info.is_fn);
    assert!(!info.compiler);
    assert_eq!(info.raw_deref, vec![Span::new(1100, 1102)]);
    assert_eq!(info.ffi, vec![Span::new(1200, 1206)]);
    assert_eq!(info.summary(), "1 deref, 1 ffi");

    let loc = Loc { file: "lib.rs".to_string(), line: 10, col: 0 };
    assert_eq!(summary_line(&loc, info), "lib.rs:10:1: fn with 1 deref, 1 ffi");

    assert!(BOTH.wants(info));
    assert_eq!(BOTH.reported_regions(&visitor.unsafes), vec![0]);
    let spans = BOTH.flagged_spans(info);
    assert_eq!(spans, vec![Span::new(1100, 1102), Span::new(1200, 1206)]);
    let keys = vec![key("lib.rs", 11), key("lib.rs", 12)];
    assert_eq!(distinct_lines(&keys), vec![0, 1]);

    assert_eq!(ONLY_FFI.flagged_spans(info), vec![Span::new(1200, 1206)]);
    assert_eq!(ONLY_OTHER.flagged_spans(info), vec![Span::new(1100, 1102)]);
    assert!(!NEITHER.wants(info));
}

#[test]
fn cast_of_shared_reference_to_mutable_in_unsafe_block() {
    let operand = local(12, 2010, "r", Ty::Ref { mutable: false });
    let upgrade = cast(11, operand, Ty::Ref { mutable: true }, 2025);
    let b = block(10, 1900, 2100, user_unsafe(), vec![Node::Expr(upgrade)]);
    let visitor = walk(vec![Node::Block(b)]);

    assert_eq!(visitor.unsafes.len(), 1);
    let (id, info) = visitor.unsafes.entry(0);
    assert_eq!(id, 10);
    assert!(!info.is_fn);
    assert_eq!(info.transmute_imm_to_mut, vec![Span::new(2010, 2025)]);
    assert!(info.transmute.is_empty());
    let loc = Loc { file: "main.rs".to_string(), line: 19, col: 4 };
    assert_eq!(
        summary_line(&loc, info),
        "main.rs:19:5: block with 1 reference mutability upgrade"
    );
    assert!(ONLY_OTHER.wants(info));
    assert!(!ONLY_FFI.wants(info));
    assert_eq!(ONLY_OTHER.flagged_spans(info), vec![Span::new(2010, 2025)]);
    assert_eq!(distinct_lines(&vec![key("main.rs", 19)]), vec![0]);
}

fn transmute_call(id: u32, lo: u32, from: Ty, to: Ty) -> Expr {
    let callee = path(id + 1, lo, "transmute", Def::Fn { local: false, foreign: false }, Ty::BareFn {
        is_unsafe: true,
    });
    let arg = local(id + 2, lo + 10, "x", from);
    call(id, callee, vec![arg], to, lo + 12)
}

#[test]
fn transmute_between_unrelated_types_is_plain_transmute() {
    let b = block(
        20,
        100,
        200,
        user_unsafe(),
        vec![
            Node::Expr(transmute_call(21, 110, Ty::Other, Ty::Other)),
            Node::Expr(transmute_call(24, 130, Ty::Ref { mutable: false }, Ty::RawPtr { mutable: true })),
            Node::Expr(transmute_call(27, 150, Ty::Ref { mutable: true }, Ty::Ref { mutable: true })),
        ],
    );
    let visitor = walk(vec![Node::Block(b)]);
    let (_, info) = visitor.unsafes.entry(0);
    assert_eq!(
        info.transmute,
        vec![Span::new(110, 122), Span::new(130, 142), Span::new(150, 162)]
    );
    assert!(info.transmute_imm_to_mut.is_empty());
    assert!(info.cast_raw_ptr_const_to_mut.is_empty());
    assert!(info.unsafe_call.is_empty());
    assert_eq!(info.summary(), "3 transmute");
}

#[test]
fn transmute_that_upgrades_mutability_takes_the_specific_bucket() {
    let b = block(
        20,
        100,
        200,
        user_unsafe(),
        vec![
            Node::Expr(transmute_call(21, 110, Ty::Ref { mutable: false }, Ty::Ref { mutable: true })),
            Node::Expr(transmute_call(
                24,
                130,
                Ty::RawPtr { mutable: false },
                Ty::RawPtr { mutable: true },
            )),
        ],
    );
    let visitor = walk(vec![Node::Block(b)]);
    let (_, info) = visitor.unsafes.entry(0);
    assert!(info.transmute.is_empty());
    assert_eq!(info.transmute_imm_to_mut, vec![Span::new(110, 122)]);
    assert_eq!(info.cast_raw_ptr_const_to_mut, vec![Span::new(130, 142)]);
    assert_eq!(info.summary(), "1 reference mutability upgrade, 1 cast *const to *mut");
}

#[test]
fn transmute_with_two_arguments_is_an_ordinary_call() {
    let callee = path(31, 110, "transmute", Def::Other, Ty::BareFn { is_unsafe: true });
    let args = vec![local(32, 120, "a", Ty::Other), local(33, 123, "b", Ty::Other)];
    let e = call(30, callee, args, Ty::Other, 125);
    let b = block(20, 100, 200, user_unsafe(), vec![Node::Expr(e)]);
    let visitor = walk(vec![Node::Block(b)]);
    let (_, info) = visitor.unsafes.entry(0);
    assert!(info.transmute.is_empty());
    assert_eq!(info.unsafe_call, vec![Span::new(110, 125)]);
}

#[test]
fn nested_unsafe_block_is_folded_into_the_outer_region() {
    let inner = block(41, 120, 180, user_unsafe(), vec![Node::Expr(raw_deref_of_local(42, 130))]);
    let outer = block(40, 100, 200, user_unsafe(), vec![Node::Block(inner)]);
    let visitor = walk(vec![Node::Block(outer)]);

    assert_eq!(visitor.unsafes.len(), 1);
    assert!(visitor.unsafes.contains(40));
    assert!(!visitor.unsafes.contains(41));
    let info = visitor.unsafes.get(40).unwrap();
    assert_eq!(info.span, Span::new(100, 200));
    assert_eq!(info.raw_deref, vec![Span::new(130, 132)]);
    assert_eq!(info.summary(), "1 deref");
    assert_eq!(BOTH.reported_regions(&visitor.unsafes), vec![0]);
}

#[test]
fn unsafe_region_without_hazards_is_tracked_but_never_reported() {
    let quiet_fn = function(
        50,
        100,
        200,
        FnKind::Method,
        true,
        block(51, 110, 200, BlockRules::Default, vec![Node::Expr(local(52, 120, "x", Ty::Other))]),
    );
    let quiet_block = block(60, 300, 400, user_unsafe(), vec![]);
    let visitor = walk(vec![Node::Function(quiet_fn), Node::Block(quiet_block)]);

    assert_eq!(visitor.unsafes.len(), 2);
    for id in [50u32, 60u32] {
        let info = visitor.unsafes.get(id).unwrap();
        assert_eq!(info.summary(), "");
        assert!(!info.has_other());
        assert!(!info.has_ffi());
        for filter in [BOTH, ONLY_FFI, ONLY_OTHER, NEITHER] {
            assert!(!filter.wants(info));
            assert!(filter.flagged_spans(info).is_empty() || !filter.wants(info));
        }
    }
    for filter in [BOTH, ONLY_FFI, ONLY_OTHER, NEITHER] {
        assert!(filter.reported_regions(&visitor.unsafes).is_empty());
    }
    assert!(visitor.unsafes.get(50).unwrap().is_fn);
    assert!(!visitor.unsafes.get(60).unwrap().is_fn);
}

#[test]
fn safe_function_inside_unsafe_block_keeps_its_hazards_to_itself() {
    let nested = function(
        71,
        120,
        180,
        FnKind::Item,
        false,
        block(72, 130, 180, BlockRules::Default, vec![Node::Expr(raw_deref_of_local(73, 140))]),
    );
    let outer = block(
        70,
        100,
        200,
        user_unsafe(),
        vec![Node::Function(nested), Node::Expr(foreign_call(75, 190))],
    );
    let visitor = walk(vec![Node::Block(outer)]);

    assert_eq!(visitor.unsafes.len(), 1);
    let info = visitor.unsafes.get(70).unwrap();
    assert!(info.raw_deref.is_empty());
    assert_eq!(info.ffi, vec![Span::new(190, 196)]);
    assert_eq!(info.summary(), "1 ffi");
}

#[test]
fn unsafe_block_in_safe_function_inside_unsafe_block_is_a_region_of_its_own() {
    let inner_block = block(83, 140, 170, user_unsafe(), vec![Node::Expr(raw_deref_of_local(84, 150))]);
    let nested = function(
        81,
        120,
        180,
        FnKind::Item,
        false,
        block(82, 130, 180, BlockRules::Default, vec![Node::Block(inner_block)]),
    );
    let outer = block(80, 100, 200, user_unsafe(), vec![Node::Function(nested)]);
    let visitor = walk(vec![Node::Block(outer)]);

    assert_eq!(visitor.unsafes.len(), 2);
    assert_eq!(visitor.unsafes.get(80).unwrap().summary(), "");
    assert_eq!(visitor.unsafes.get(83).unwrap().summary(), "1 deref");
    assert_eq!(BOTH.reported_regions(&visitor.unsafes), vec![1]);
}

#[test]
fn closure_in_unsafe_region_records_in_that_region() {
    let closure = function(
        91,
        120,
        160,
        FnKind::Closure,
        false,
        block(92, 125, 160, BlockRules::Default, vec![Node::Expr(raw_deref_of_local(93, 130))]),
    );
    let closure_expr = Expr {
        id: 95,
        span: Span::new(120, 160),
        ty: Ty::Other,
        node: ExprKind::Closure { function: Box::new(closure) },
    };
    let outer = block(
        90,
        100,
        200,
        user_unsafe(),
        vec![Node::Expr(closure_expr), Node::Expr(raw_deref_of_local(96, 170))],
    );
    let visitor = walk(vec![Node::Block(outer)]);

    assert_eq!(visitor.unsafes.len(), 1);
    assert!(!visitor.unsafes.contains(91));
    let info = visitor.unsafes.get(90).unwrap();
    assert_eq!(info.raw_deref, vec![Span::new(130, 132), Span::new(170, 172)]);
    assert_eq!(info.summary(), "2 deref");
}

#[test]
fn closure_outside_any_region_records_nothing() {
    let closure = function(
        91,
        120,
        160,
        FnKind::Closure,
        true,
        block(92, 125, 160, BlockRules::Default, vec![Node::Expr(raw_deref_of_local(93, 130))]),
    );
    let closure_expr = Expr {
        id: 95,
        span: Span::new(120, 160),
        ty: Ty::Other,
        node: ExprKind::Closure { function: Box::new(closure) },
    };
    let visitor = walk(vec![Node::Expr(closure_expr)]);
    assert_eq!(visitor.unsafes.len(), 0);
}

#[test]
fn compiler_generated_block_is_tracked_and_never_reported() {
    let generated = block(101, 120, 160, compiler_unsafe(), vec![Node::Expr(raw_deref_of_local(102, 130))]);
    let alone = block(110, 300, 400, compiler_unsafe(), vec![Node::Expr(foreign_call(111, 310))]);
    let outer = block(
        100,
        100,
        200,
        user_unsafe(),
        vec![Node::Block(generated), Node::Expr(foreign_call(105, 170))],
    );
    let visitor = walk(vec![Node::Block(outer), Node::Block(alone)]);

    assert_eq!(visitor.unsafes.len(), 3);
    let shadowing = visitor.unsafes.get(101).unwrap();
    assert!(shadowing.compiler);
    assert_eq!(shadowing.raw_deref, vec![Span::new(130, 132)]);
    let outer_info = visitor.unsafes.get(100).unwrap();
    assert!(!outer_info.compiler);
    assert!(outer_info.raw_deref.is_empty());
    assert_eq!(outer_info.summary(), "1 ffi");
    let alone_info = visitor.unsafes.get(110).unwrap();
    assert!(alone_info.compiler);
    assert_eq!(alone_info.summary(), "1 ffi");
    for filter in [BOTH, ONLY_FFI, ONLY_OTHER, NEITHER] {
        assert!(!filter.wants(shadowing));
        assert!(!filter.wants(alone_info));
    }
    assert_eq!(BOTH.reported_regions(&visitor.unsafes), vec![0]);
    assert_eq!(ONLY_FFI.reported_regions(&visitor.unsafes), vec![0]);
    assert!(ONLY_OTHER.reported_regions(&visitor.unsafes).is_empty());
}

#[test]
fn author_block_inside_compiler_generated_block_is_folded_into_it() {
    let inner = block(121, 120, 160, user_unsafe(), vec![Node::Expr(raw_deref_of_local(122, 130))]);
    let generated = block(120, 100, 200, compiler_unsafe(), vec![Node::Block(inner)]);
    let visitor = walk(vec![Node::Block(generated)]);
    assert_eq!(visitor.unsafes.len(), 1);
    let info = visitor.unsafes.get(120).unwrap();
    assert!(info.compiler);
    assert_eq!(info.raw_deref, vec![Span::new(130, 132)]);
    assert!(BOTH.reported_regions(&visitor.unsafes).is_empty());
}

#[test]
fn unsafe_fn_inside_unsafe_fn_is_a_region_of_its_own() {
    let inner = function(
        131,
        120,
        160,
        FnKind::Item,
        true,
        block(132, 125, 160, BlockRules::Default, vec![Node::Expr(raw_deref_of_local(133, 130))]),
    );
    let outer = function(
        130,
        100,
        200,
        FnKind::Item,
        true,
        block(
            135,
            105,
            200,
            BlockRules::Default,
            vec![Node::Function(inner), Node::Expr(foreign_call(136, 170))],
        ),
    );
    let visitor = walk(vec![Node::Function(outer)]);
    assert_eq!(visitor.unsafes.len(), 2);
    assert_eq!(visitor.unsafes.get(130).unwrap().summary(), "1 ffi");
    assert_eq!(visitor.unsafes.get(131).unwrap().summary(), "1 deref");
}

#[test]
fn same_identity_twice_is_detected() {
    let first = block(7, 100, 200, user_unsafe(), vec![]);
    let second = block(7, 300, 400, user_unsafe(), vec![Node::Expr(raw_deref_of_local(8, 310))]);
    let third = block(9, 500, 600, user_unsafe(), vec![]);
    let mut visitor = UnsafeVisitor::new();
    let krate = Crate { items: vec![Node::Block(first), Node::Block(second), Node::Block(third)] };
    assert_eq!(visitor.check_crate(&krate), Err(DuplicateRegion { id: 7 }));
    assert_eq!(visitor.unsafes.len(), 1);
    assert_eq!(visitor.unsafes.get(7).unwrap().span, Span::new(100, 200));
    assert!(!visitor.unsafes.contains(9));
}

#[test]
fn same_identity_twice_is_detected_below_other_nodes() {
    let first = block(7, 100, 200, user_unsafe(), vec![]);
    let second = function(
        7,
        300,
        400,
        FnKind::Item,
        true,
        block(12, 310, 400, BlockRules::Default, vec![]),
    );
    let wrapper = Expr {
        id: 13,
        span: Span::new(290, 410),
        ty: Ty::Other,
        node: ExprKind::Other { children: vec![Node::Function(second)] },
    };
    let host = function(
        14,
        250,
        450,
        FnKind::Item,
        false,
        block(15, 260, 450, BlockRules::Default, vec![Node::Expr(wrapper)]),
    );
    let mut visitor = UnsafeVisitor::new();
    let krate = Crate { items: vec![Node::Block(first), Node::Function(host)] };
    assert_eq!(visitor.check_crate(&krate), Err(DuplicateRegion { id: 7 }));
}

#[test]
fn two_walks_of_one_program_agree() {
    fn program() -> Crate {
        let body = block(
            2,
            1010,
            1300,
            BlockRules::Default,
            vec![
                Node::Expr(foreign_call(5, 1200)),
                Node::Expr(raw_deref_of_local(3, 1100)),
                Node::Block(block(9, 1250, 1290, user_unsafe(), vec![Node::Expr(raw_deref_of_local(10, 1260))])),
            ],
        );
        Crate {
            items: vec![
                Node::Function(function(1, 1000, 1300, FnKind::Item, true, body)),
                Node::Block(block(20, 2000, 2100, user_unsafe(), vec![Node::Expr(foreign_call(21, 2010))])),
            ],
        }
    }
    fn render(krate: &Crate, filter: Filter) -> Vec<String> {
        let mut visitor = UnsafeVisitor::new();
        assert_eq!(visitor.check_crate(krate), Ok(()));
        let mut out = Vec::new();
        for position in filter.reported_regions(&visitor.unsafes) {
            let (_, info) = visitor.unsafes.entry(position);
            let loc = Loc { file: "a.rs".to_string(), line: info.span.lo as usize / 100, col: 0 };
            out.push(summary_line(&loc, info));
            let spans = filter.flagged_spans(info);
            let keys: Vec<Option<LineKey>> =
                spans.iter().map(|s| key("a.rs", s.lo as usize / 100)).collect();
            for p in distinct_lines(&keys) {
                out.push(format!("line {}", keys[p].as_ref().unwrap().line));
            }
        }
        out
    }
    for filter in [BOTH, ONLY_FFI, ONLY_OTHER, NEITHER] {
        assert_eq!(render(&program(), filter), render(&program(), filter));
    }
    assert_eq!(
        render(&program(), BOTH),
        vec![
            "a.rs:10:1: fn with 2 deref, 1 ffi".to_string(),
            "line 11".to_string(),
            "line 12".to_string(),
            "a.rs:20:1: block with 1 ffi".to_string(),
            "line 20".to_string(),
        ]
    );
    assert_eq!(
        render(&program(), ONLY_FFI),
        vec![
            "a.rs:10:1: fn with 2 deref, 1 ffi".to_string(),
            "line 12".to_string(),
            "a.rs:20:1: block with 1 ffi".to_string(),
            "line 20".to_string(),
        ]
    );
    assert_eq!(
        render(&program(), ONLY_OTHER),
        vec![
            "a.rs:10:1: fn with 2 deref, 1 ffi".to_string(),
            "line 11".to_string(),
            "line 12".to_string(),
        ]
    );
    assert!(render(&program(), NEITHER).is_empty());
}

#[test]
fn hazards_are_recorded_only_in_an_open_region() {
    let f = function(
        1,
        100,
        200,
        FnKind::Item,
        false,
        block(
            2,
            110,
            200,
            BlockRules::Default,
            vec![Node::Expr(raw_deref_of_local(3, 120)), Node::Expr(foreign_call(5, 150))],
        ),
    );
    let visitor = walk(vec![Node::Function(f)]);
    assert_eq!(visitor.unsafes.len(), 0);
}

#[test]
fn new_region_info_is_empty() {
    let info = NodeInfo::new(Span::new(3, 9), true, false);
    assert_eq!(info.span, Span::new(3, 9));
    assert!(info.is_fn);
    assert!(!info.compiler);
    for hazard in [
        Hazard::Ffi,
        Hazard::RawDeref,
        Hazard::StaticMut,
        Hazard::UnsafeCall,
        Hazard::Transmute,
        Hazard::TransmuteImmToMut,
        Hazard::CastRawPtrConstToMut,
        Hazard::Asm,
    ] {
        assert!(info.bucket(hazard).is_empty());
    }
}
