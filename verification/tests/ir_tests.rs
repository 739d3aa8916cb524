use irkit::construct::{create_operation, BuildError};
use irkit::context::{
    Context, KindDecl, Sem, KIND_ADDI, KIND_FUNC, KIND_LL_ADD, KIND_LL_FUNC, KIND_LL_RETURN,
    KIND_RETURN,
};
use irkit::ir::{Attr, AttrEntry, Block, Location, Module, Region, Ty, Value, ValueSite};
use irkit::validate::{verify, Violation};

fn binary_module(name: &str, kind: usize, ty: Ty) -> (Context, Module) {
    let ctx = Context::standard();
    let mut module = Module::new(Location::Unknown);
    module.add_binary_op(&ctx, name, kind, ty);
    (ctx, module)
}

#[test]
fn standard_context_has_six_kinds() {
    let ctx = Context::standard();
    assert_eq!(ctx.kinds.len(), 6);
    assert_eq!(ctx.kinds[KIND_ADDI].name, "arith.addi");
    assert!(ctx.kinds[KIND_RETURN].terminator);
    assert!(!ctx.kinds[KIND_FUNC].terminator);
}

#[test]
fn register_kind_rejects_duplicates_and_bad_names() {
    let mut ctx = Context::standard();
    let dup = KindDecl {
        name: "arith.addi".to_string(),
        n_operands: Some(2),
        n_results: Some(1),
        uniform: true,
        terminator: false,
        sem: Sem::Opaque,
    };
    assert_eq!(ctx.register_kind(dup), None);
    let bad = KindDecl {
        name: "Not Valid!".to_string(),
        n_operands: None,
        n_results: None,
        uniform: false,
        terminator: false,
        sem: Sem::Opaque,
    };
    assert_eq!(ctx.register_kind(bad), None);
    let fresh = KindDecl {
        name: "arith.muli".to_string(),
        n_operands: Some(2),
        n_results: Some(1),
        uniform: true,
        terminator: false,
        sem: Sem::Opaque,
    };
    assert_eq!(ctx.register_kind(fresh), Some(6));
}

#[test]
fn create_operation_rejects_wrong_operand_count() {
    let ctx = Context::standard();
    let v = Value { site: ValueSite::BlockArg(0), ty: Ty::Int(32) };
    let r = create_operation(
        &ctx,
        KIND_ADDI,
        vec![v],
        vec![Ty::Int(32)],
        Vec::new(),
        Vec::new(),
        Location::Unknown,
    );
    assert_eq!(r.unwrap_err(), BuildError::ArityMismatch { expected: 2, found: 1 });
}

#[test]
fn create_operation_rejects_mixed_types() {
    let ctx = Context::standard();
    let a = Value { site: ValueSite::BlockArg(0), ty: Ty::Int(32) };
    let b = Value { site: ValueSite::BlockArg(1), ty: Ty::Index };
    let r = create_operation(
        &ctx,
        KIND_ADDI,
        vec![a, b],
        vec![Ty::Int(32)],
        Vec::new(),
        Vec::new(),
        Location::Unknown,
    );
    assert_eq!(r.unwrap_err(), BuildError::TypeMismatch);
}

#[test]
fn create_operation_rejects_unknown_kind() {
    let ctx = Context::standard();
    let r = create_operation(
        &ctx,
        99,
        Vec::new(),
        Vec::new(),
        Vec::new(),
        Vec::new(),
        Location::Unknown,
    );
    assert_eq!(r.unwrap_err(), BuildError::UnknownKind);
}

#[test]
fn index_binary_function_verifies_before_lowering() {
    let (ctx, module) = binary_module("add", KIND_ADDI, Ty::Index);
    assert!(verify(&ctx, &module).is_ok());
}

#[test]
fn verify_is_idempotent() {
    let (ctx, module) = binary_module("add", KIND_ADDI, Ty::Index);
    let first = verify(&ctx, &module);
    let second = verify(&ctx, &module);
    assert_eq!(first, second);

    let mut bad = Module::new(Location::Unknown);
    let block = Block::new(vec![Ty::Index]);
    let mut region = Region::new();
    region.append_block(block);
    let func = create_operation(
        &ctx,
        KIND_FUNC,
        Vec::new(),
        Vec::new(),
        Vec::new(),
        vec![region],
        Location::Unknown,
    )
    .unwrap();
    bad.append_operation(func);
    let e1 = verify(&ctx, &bad);
    let e2 = verify(&ctx, &bad);
    assert_eq!(e1, e2);
}

#[test]
fn missing_terminator_names_the_block() {
    let ctx = Context::standard();
    let mut block = Block::new(vec![Ty::Index, Ty::Index]);
    let a0 = block.argument(0).unwrap();
    let a1 = block.argument(1).unwrap();
    let addi = create_operation(
        &ctx,
        KIND_ADDI,
        vec![a0, a1],
        vec![Ty::Index],
        Vec::new(),
        Vec::new(),
        Location::Unknown,
    )
    .unwrap();
    block.append_operation(addi);
    let mut region = Region::new();
    region.append_block(block);
    let func = create_operation(
        &ctx,
        KIND_FUNC,
        Vec::new(),
        Vec::new(),
        Vec::new(),
        vec![region],
        Location::Unknown,
    )
    .unwrap();
    let mut module = Module::new(Location::Unknown);
    module.append_operation(func);
    let errs = verify(&ctx, &module).unwrap_err();
    assert_eq!(errs.len(), 1);
    assert_eq!(errs[0].violation, Violation::MissingTerminator);
    // The path names the block: top op 0, region 0, block 0.
    assert_eq!(errs[0].path, vec![0, 0, 0]);
}

#[test]
fn verify_reports_every_distinct_violation() {
    let ctx = Context::standard();
    // Block with two terminators and a dangling operand in one call.
    let mut block = Block::new(vec![Ty::Index]);
    let dangling = Value { site: ValueSite::OpResult(5, 0), ty: Ty::Index };
    let ret1 = create_operation(
        &ctx,
        KIND_RETURN,
        vec![dangling],
        Vec::new(),
        Vec::new(),
        Vec::new(),
        Location::Unknown,
    )
    .unwrap();
    let ret2 = create_operation(
        &ctx,
        KIND_RETURN,
        Vec::new(),
        Vec::new(),
        Vec::new(),
        Vec::new(),
        Location::Unknown,
    )
    .unwrap();
    block.append_operation(ret1);
    block.append_operation(ret2);
    let mut region = Region::new();
    region.append_block(block);
    let func = create_operation(
        &ctx,
        KIND_FUNC,
        Vec::new(),
        Vec::new(),
        Vec::new(),
        vec![region],
        Location::Unknown,
    )
    .unwrap();
    let mut module = Module::new(Location::Unknown);
    module.append_operation(func);
    let errs = verify(&ctx, &module).unwrap_err();
    let kinds: Vec<&Violation> = errs.iter().map(|e| &e.violation).collect();
    assert!(kinds.contains(&&Violation::DanglingOperand { operand: 0 }));
    assert!(kinds.contains(&&Violation::MisplacedTerminator));
    assert_eq!(errs.len(), 2);
}

#[test]
fn direct_arity_violation_is_reported() {
    let ctx = Context::standard();
    // Bypass create_operation by building the operation by hand.
    let op = irkit::ir::Operation {
        kind: KIND_ADDI,
        operands: vec![Value { site: ValueSite::BlockArg(0), ty: Ty::Index }],
        result_types: vec![Ty::Index],
        attrs: Vec::new(),
        regions: Vec::new(),
        location: Location::Unknown,
    };
    let mut module = Module::new(Location::Unknown);
    module.append_operation(op);
    let errs = verify(&ctx, &module).unwrap_err();
    assert!(errs
        .iter()
        .any(|e| e.violation == Violation::OperandArity { expected: 2, found: 1 }));
}

#[test]
fn unknown_kind_is_reported() {
    let ctx = Context::standard();
    let op = irkit::ir::Operation {
        kind: 42,
        operands: Vec::new(),
        result_types: Vec::new(),
        attrs: Vec::new(),
        regions: Vec::new(),
        location: Location::LineCol { line: 3, col: 7 },
    };
    let mut module = Module::new(Location::Unknown);
    module.append_operation(op);
    let errs = verify(&ctx, &module).unwrap_err();
    assert_eq!(errs.len(), 1);
    assert_eq!(errs[0].violation, Violation::UnknownKind);
    assert_eq!(errs[0].location, Location::LineCol { line: 3, col: 7 });
}

#[test]
fn builder_module_matches_hand_built_module() {
    let (_ctx2, built) = binary_module("add", KIND_ADDI, Ty::Index);
    let ctx = Context::standard();
    let mut block = Block::new(vec![Ty::Index, Ty::Index]);
    let a0 = block.argument(0).unwrap();
    let a1 = block.argument(1).unwrap();
    let addi = create_operation(
        &ctx,
        KIND_ADDI,
        vec![a0, a1],
        vec![Ty::Index],
        Vec::new(),
        Vec::new(),
        Location::Unknown,
    )
    .unwrap();
    let idx = block.append_operation(addi);
    let res = block.op_result(idx, 0).unwrap();
    let ret = create_operation(
        &ctx,
        KIND_RETURN,
        vec![res],
        Vec::new(),
        Vec::new(),
        Vec::new(),
        Location::Unknown,
    )
    .unwrap();
    block.append_operation(ret);
    let mut region = Region::new();
    region.append_block(block);
    let func = create_operation(
        &ctx,
        KIND_FUNC,
        Vec::new(),
        Vec::new(),
        vec![
            AttrEntry { name: "sym_name".to_string(), value: Attr::Text("add".to_string()) },
            AttrEntry {
                name: "function_type".to_string(),
                value: Attr::FnTy(vec![Ty::Index, Ty::Index], vec![Ty::Index]),
            },
        ],
        vec![region],
        Location::Unknown,
    )
    .unwrap();
    let mut module = Module::new(Location::Unknown);
    module.append_operation(func);
    assert_eq!(module, built);
}

#[test]
fn block_argument_out_of_range_errors() {
    let block = Block::new(vec![Ty::Index]);
    assert!(block.argument(0).is_ok());
    assert_eq!(block.argument(1).unwrap_err(), BuildError::OutOfRange);
}
