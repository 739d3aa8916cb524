use irkit::construct::create_operation;
use irkit::context::{Context, KIND_ADDI, KIND_FUNC, KIND_RETURN};
use irkit::ir::{Attr, AttrEntry, Block, Location, Module, Region, Ty, Value};
use irkit::textual::{parse_module, print_module, text_to_string};

fn doubling_module(ctx: &Context, name: &str, ty: Ty) -> Module {
    let mut block = Block::new(vec![ty]);
    let x = block.argument(0).unwrap();
    let addi = create_operation(
        ctx,
        KIND_ADDI,
        vec![x, x],
        vec![ty],
        Vec::new(),
        Vec::new(),
        Location::Unknown,
    )
    .unwrap();
    let idx = block.append_operation(addi);
    let res = block.op_result(idx, 0).unwrap();
    let ret = create_operation(
        ctx,
        KIND_RETURN,
        vec![res],
        Vec::new(),
        Vec::new(),
        Vec::new(),
        Location::Unknown,
    )
    .unwrap();
    block.append_operation(ret);
    let mut region = Region::new();
    region.append_block(block);
    let func = create_operation(
        ctx,
        KIND_FUNC,
        Vec::new(),
        Vec::new(),
        vec![
            AttrEntry { name: "sym_name".to_string(), value: Attr::Text(name.to_string()) },
            AttrEntry { name: "function_type".to_string(), value: Attr::FnTy(vec![ty], vec![ty]) },
        ],
        vec![region],
        Location::Unknown,
    )
    .unwrap();
    let mut module = Module::new(Location::Unknown);
    module.append_operation(func);
    module
}

#[test]
fn empty_module_prints_exactly() {
    let ctx = Context::standard();
    let m = Module::new(Location::Unknown);
    assert_eq!(text_to_string(&print_module(&ctx, &m)), "module{}");
}

#[test]
fn doubling_module_prints_exactly() {
    let ctx = Context::standard();
    let m = doubling_module(&ctx, "add", Ty::Int(32));
    assert_eq!(
        text_to_string(&print_module(&ctx, &m)),
        "module{func.func()(){sym_name=\"add\",function_type=fn(w32)(w32)}\
         [(<w32>{arith.addi(^0:w32,^0:w32)(w32){}[]func.return(%0#0:w32)(){}[]})]}"
    );
}

#[test]
fn round_trip_doubling_module() {
    let ctx = Context::standard();
    let m = doubling_module(&ctx, "add", Ty::Int(32));
    let text = print_module(&ctx, &m);
    let parsed = parse_module(&ctx, &text).unwrap();
    assert_eq!(parsed, m);
}

#[test]
fn round_trip_index_module_from_builder() {
    let ctx = Context::standard();
    let mut m = Module::new(Location::Unknown);
    m.add_binary_op(&ctx, "add", KIND_ADDI, Ty::Index);
    let text = print_module(&ctx, &m);
    let parsed = parse_module(&ctx, &text).unwrap();
    assert_eq!(parsed, m);
}

#[test]
fn round_trip_empty_module() {
    let ctx = Context::standard();
    let m = Module::new(Location::Unknown);
    let parsed = parse_module(&ctx, &print_module(&ctx, &m)).unwrap();
    assert_eq!(parsed, m);
}

#[test]
fn parse_rejects_malformed_input() {
    let ctx = Context::standard();
    let text: Vec<char> = "module{nonsense".chars().collect();
    let err = parse_module(&ctx, &text).unwrap_err();
    assert_eq!(err.line, 1);
    assert!(err.col >= 8);
}

#[test]
fn parse_rejects_unknown_kind_name() {
    let ctx = Context::standard();
    let text: Vec<char> = "module{mystery.op()(){}[]}".chars().collect();
    assert!(parse_module(&ctx, &text).is_err());
}

#[test]
fn parse_reports_line_and_column() {
    let ctx = Context::standard();
    // A newline may sit inside a text attribute; with stray text after the
    // module, reading stops at the closing brace on line two.
    let text: Vec<char> = "module{func.func()(){sym_name=\"x\ny\"}[]}!".chars().collect();
    let err = parse_module(&ctx, &text).unwrap_err();
    assert_eq!(err.line, 2);
    assert_eq!(err.col, 6);
}
