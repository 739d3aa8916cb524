use irkit::backend::{compile, invoke, CompileError, InvocationError};
use irkit::construct::create_operation;
use irkit::context::{
    Context, KIND_ADDI, KIND_FUNC, KIND_LL_ADD, KIND_LL_FUNC, KIND_LL_RETURN, KIND_RETURN,
};
use irkit::ir::{Attr, AttrEntry, Block, Location, Module, Region, Ty, Value};
use irkit::pipeline::{run, FailReason, Pass, Scope};
use irkit::validate::verify;

/// A module with one function `name(ty) -> ty` computing `x + x`.
fn doubling_module(ctx: &Context, name: &str, ty: Ty) -> Module {
    let mut block = Block::new(vec![ty]);
    let x = block.argument(0).unwrap();
    let addi = create_operation(
        ctx,
        KIND_ADDI,
        vec![x, x],
        vec![ty],
        Vec::new(),
        Vec::new(),
        Location::Unknown,
    )
    .unwrap();
    let idx = block.append_operation(addi);
    let res = block.op_result(idx, 0).unwrap();
    let ret = create_operation(
        ctx,
        KIND_RETURN,
        vec![res],
        Vec::new(),
        Vec::new(),
        Vec::new(),
        Location::Unknown,
    )
    .unwrap();
    block.append_operation(ret);
    let mut region = Region::new();
    region.append_block(block);
    let func = create_operation(
        ctx,
        KIND_FUNC,
        Vec::new(),
        Vec::new(),
        vec![
            AttrEntry { name: "sym_name".to_string(), value: Attr::Text(name.to_string()) },
            AttrEntry {
                name: "function_type".to_string(),
                value: Attr::FnTy(vec![ty], vec![ty]),
            },
        ],
        vec![region],
        Location::Unknown,
    )
    .unwrap();
    let mut module = Module::new(Location::Unknown);
    module.append_operation(func);
    module
}

fn lowering_pipeline() -> Vec<Pass> {
    vec![
        Pass {
            name: "arith-to-ll".to_string(),
            scope: Scope::NestedUnder(KIND_FUNC),
            rules: vec![(KIND_ADDI, KIND_LL_ADD)],
        },
        Pass {
            name: "func-to-ll".to_string(),
            scope: Scope::ModuleWide,
            rules: vec![(KIND_FUNC, KIND_LL_FUNC), (KIND_RETURN, KIND_LL_RETURN)],
        },
    ]
}

#[test]
fn add_i32_end_to_end() {
    let ctx = Context::standard();
    let mut module = doubling_module(&ctx, "add", Ty::Int(32));
    assert!(verify(&ctx, &module).is_ok());
    assert!(run(&ctx, &lowering_pipeline(), &mut module).is_ok());
    assert!(verify(&ctx, &module).is_ok());
    let artifact = compile(&ctx, &module).unwrap();
    let mut slots: Vec<u64> = vec![42, 0];
    assert!(invoke(&artifact, &"add".to_string(), &mut slots).is_ok());
    assert_eq!(slots[1], 84);
    assert_eq!(slots[0], 42);
}

#[test]
fn invoke_unknown_name_fails() {
    let ctx = Context::standard();
    let mut module = doubling_module(&ctx, "add", Ty::Int(32));
    run(&ctx, &lowering_pipeline(), &mut module).unwrap();
    let artifact = compile(&ctx, &module).unwrap();
    let mut slots: Vec<u64> = vec![1, 0];
    assert_eq!(
        invoke(&artifact, &"missing".to_string(), &mut slots).unwrap_err(),
        InvocationError::NotFound
    );
    assert_eq!(slots, vec![1, 0]);
}

#[test]
fn invoke_wrong_slot_count_fails() {
    let ctx = Context::standard();
    let mut module = doubling_module(&ctx, "add", Ty::Int(32));
    run(&ctx, &lowering_pipeline(), &mut module).unwrap();
    let artifact = compile(&ctx, &module).unwrap();
    let mut slots: Vec<u64> = vec![1, 2, 3];
    assert_eq!(
        invoke(&artifact, &"add".to_string(), &mut slots).unwrap_err(),
        InvocationError::ArityMismatch
    );
    assert_eq!(slots, vec![1, 2, 3]);
}

#[test]
fn addition_wraps_at_the_type_width() {
    let ctx = Context::standard();
    let mut module = doubling_module(&ctx, "dbl", Ty::Int(8));
    run(&ctx, &lowering_pipeline(), &mut module).unwrap();
    let artifact = compile(&ctx, &module).unwrap();
    let mut slots: Vec<u64> = vec![200, 0];
    invoke(&artifact, &"dbl".to_string(), &mut slots).unwrap();
    assert_eq!(slots[1], 400 % 256);
}

#[test]
fn compile_refuses_unlowered_module() {
    let ctx = Context::standard();
    let module = doubling_module(&ctx, "add", Ty::Int(32));
    // Still high-level: func.func has no executable semantics.
    assert_eq!(compile(&ctx, &module).unwrap_err(), CompileError::UnsupportedOperation);
}

#[test]
fn lowering_is_deterministic() {
    let ctx = Context::standard();
    let mut m1 = doubling_module(&ctx, "add", Ty::Int(32));
    let mut m2 = doubling_module(&ctx, "add", Ty::Int(32));
    assert_eq!(m1, m2);
    let r1 = run(&ctx, &lowering_pipeline(), &mut m1);
    let r2 = run(&ctx, &lowering_pipeline(), &mut m2);
    assert_eq!(r1, r2);
    assert_eq!(m1, m2);
}

#[test]
fn failing_pass_is_named_and_aborts_pipeline() {
    let ctx = Context::standard();
    let mut module = doubling_module(&ctx, "add", Ty::Int(32));
    let passes = vec![
        Pass {
            name: "bad-pass".to_string(),
            scope: Scope::ModuleWide,
            rules: vec![(KIND_FUNC, 99)],
        },
        Pass {
            name: "never-runs".to_string(),
            scope: Scope::ModuleWide,
            rules: vec![(KIND_ADDI, KIND_LL_ADD)],
        },
    ];
    let failure = run(&ctx, &passes, &mut module).unwrap_err();
    assert_eq!(failure.pass_name, "bad-pass");
    assert_eq!(failure.reason, FailReason::UnregisteredTarget { kind: 99 });
    // The second pass never ran: the addition is still high-level.
    assert_eq!(module.body[0].regions[0].blocks[0].ops[0].kind, KIND_ADDI);
}

#[test]
fn nested_pass_only_rewrites_inside_its_anchor() {
    let ctx = Context::standard();
    let mut module = doubling_module(&ctx, "add", Ty::Index);
    // A top-level addition sits outside any func.func region.
    let a = Value { site: irkit::ir::ValueSite::BlockArg(0), ty: Ty::Index };
    let stray = irkit::ir::Operation {
        kind: KIND_ADDI,
        operands: vec![a, a],
        result_types: vec![Ty::Index],
        attrs: Vec::new(),
        regions: Vec::new(),
        location: Location::Unknown,
    };
    module.append_operation(stray);
    let passes = vec![Pass {
        name: "arith-to-ll".to_string(),
        scope: Scope::NestedUnder(KIND_FUNC),
        rules: vec![(KIND_ADDI, KIND_LL_ADD)],
    }];
    run(&ctx, &passes, &mut module).unwrap();
    // Inside the function: rewritten. At top level: untouched.
    assert_eq!(module.body[0].regions[0].blocks[0].ops[0].kind, KIND_LL_ADD);
    assert_eq!(module.body[1].kind, KIND_ADDI);
}
