//! The structural verifier: a depth-first walk of the containment
//! hierarchy that collects every violation of the structural invariants and
//! of the per-kind arity and type predicates, reporting each with the
//! offending operation's path and location.

use vstd::prelude::*;
use crate::context::{
    all_same_ty, arity_matches, lemma_operand_result_tys, operand_result_tys, Context, CtxModel,
};
use crate::ir::{
    lemma_ops_model, op_model, ops_model, BlockModel, Location, Module, ModuleModel, OpModel,
    Operation, RegionModel, Ty, Value, ValueSite,
};
use crate::construct::declared_count;

verus! {

/// One kind of invariant violation.
#[derive(Clone, Copy, PartialEq, Eq, Structural, Debug)]
pub enum Violation {
    /// The operation's kind tag is not registered.
    UnknownKind,
    /// The operand count differs from the kind's declared arity.
    OperandArity { expected: usize, found: usize },
    /// The result count differs from the kind's declared arity.
    ResultArity { expected: usize, found: usize },
    /// A uniform kind whose operand and result types differ.
    NonUniformType,
    /// An operand whose defining site does not dominate the use: a missing
    /// block argument, a forward or self reference, or a result index out
    /// of range.
    DanglingOperand { operand: usize },
    /// An operand whose recorded type differs from its defining site's.
    OperandTypeMismatch { operand: usize },
    /// A non-empty block whose last operation is not a terminator.
    MissingTerminator,
    /// A terminator before the end of its block.
    MisplacedTerminator,
}

/// A reported violation: the path of indices from the module root to the
/// offending operation (or block, for `MissingTerminator`), the nearest
/// location, and the violation itself.
#[derive(Debug, PartialEq)]
pub struct VerificationError {
    pub path: Vec<usize>,
    pub location: Location,
    pub violation: Violation,
}

#[verifier::ext_equal]
pub ghost struct ErrModel {
    pub path: Seq<usize>,
    pub location: Location,
    pub violation: Violation,
}

impl DeepView for VerificationError {
    type V = ErrModel;

    open spec fn deep_view(&self) -> ErrModel {
        ErrModel { path: self.path@, location: self.location, violation: self.violation }
    }
}

/// The kind-local errors of one operation: unknown kind, arity mismatches,
/// and the uniform-type requirement.
pub open spec fn local_errs(ctx: CtxModel, op: OpModel, opath: Seq<usize>) -> Seq<ErrModel> {
    if op.kind >= ctx.kinds.len() {
        seq![ErrModel { path: opath, location: op.location, violation: Violation::UnknownKind }]
    } else {
        let d = ctx.kinds[op.kind as int];
        (if !arity_matches(d.n_operands, op.operands.len()) {
            seq![
                ErrModel {
                    path: opath,
                    location: op.location,
                    violation: Violation::OperandArity {
                        expected: declared_count(d.n_operands),
                        found: op.operands.len() as usize,
                    },
                },
            ]
        } else {
            Seq::<ErrModel>::empty()
        }) + (if !arity_matches(d.n_results, op.result_types.len()) {
            seq![
                ErrModel {
                    path: opath,
                    location: op.location,
                    violation: Violation::ResultArity {
                        expected: declared_count(d.n_results),
                        found: op.result_types.len() as usize,
                    },
                },
            ]
        } else {
            Seq::<ErrModel>::empty()
        }) + (if d.uniform && !all_same_ty(operand_result_tys(op.operands, op.result_types)) {
            seq![
                ErrModel {
                    path: opath,
                    location: op.location,
                    violation: Violation::NonUniformType,
                },
            ]
        } else {
            Seq::<ErrModel>::empty()
        })
    }
}

/// The errors of the j-th operand of the operation at index i: its defining
/// site must dominate the use and carry the operand's recorded type.
pub open spec fn operand_err(
    args: Seq<Ty>,
    ops: Seq<OpModel>,
    i: int,
    opath: Seq<usize>,
    j: int,
) -> Seq<ErrModel> {
    let op = ops[i];
    let v = op.operands[j];
    match v.site {
        ValueSite::BlockArg(a) => if a >= args.len() {
            seq![
                ErrModel {
                    path: opath,
                    location: op.location,
                    violation: Violation::DanglingOperand { operand: j as usize },
                },
            ]
        } else if args[a as int] != v.ty {
            seq![
                ErrModel {
                    path: opath,
                    location: op.location,
                    violation: Violation::OperandTypeMismatch { operand: j as usize },
                },
            ]
        } else {
            Seq::<ErrModel>::empty()
        },
        ValueSite::OpResult(k, r) => if k >= i || r >= ops[k as int].result_types.len() {
            seq![
                ErrModel {
                    path: opath,
                    location: op.location,
                    violation: Violation::DanglingOperand { operand: j as usize },
                },
            ]
        } else if ops[k as int].result_types[r as int] != v.ty {
            seq![
                ErrModel {
                    path: opath,
                    location: op.location,
                    violation: Violation::OperandTypeMismatch { operand: j as usize },
                },
            ]
        } else {
            Seq::<ErrModel>::empty()
        },
    }
}

/// The errors of the first j operands of the operation at index i.
pub open spec fn operand_errs_upto(
    args: Seq<Ty>,
    ops: Seq<OpModel>,
    i: int,
    opath: Seq<usize>,
    j: int,
) -> Seq<ErrModel>
    decreases j,
{
    if j <= 0 {
        Seq::<ErrModel>::empty()
    } else {
        operand_errs_upto(args, ops, i, opath, j - 1) + operand_err(args, ops, i, opath, j - 1)
    }
}

/// The terminator-placement errors of the operation at index i: within a
/// real block, the last operation must be a terminator and no earlier one
/// may be.
pub open spec fn term_errs(
    ctx: CtxModel,
    ops: Seq<OpModel>,
    i: int,
    bpath: Seq<usize>,
    in_block: bool,
) -> Seq<ErrModel> {
    let op = ops[i];
    if !in_block || op.kind >= ctx.kinds.len() {
        Seq::<ErrModel>::empty()
    } else {
        let d = ctx.kinds[op.kind as int];
        if i == ops.len() - 1 {
            if !d.terminator {
                seq![
                    ErrModel {
                        path: bpath,
                        location: op.location,
                        violation: Violation::MissingTerminator,
                    },
                ]
            } else {
                Seq::<ErrModel>::empty()
            }
        } else {
            if d.terminator {
                seq![
                    ErrModel {
                        path: bpath.push(i as usize),
                        location: op.location,
                        violation: Violation::MisplacedTerminator,
                    },
                ]
            } else {
                Seq::<ErrModel>::empty()
            }
        }
    }
}

/// All errors of the operation at index i, nested regions included.
pub open spec fn op_errs(
    ctx: CtxModel,
    args: Seq<Ty>,
    ops: Seq<OpModel>,
    i: int,
    bpath: Seq<usize>,
    in_block: bool,
) -> Seq<ErrModel>
    decreases ops, 0int, 0int,
{
    if i < 0 || i >= ops.len() {
        Seq::<ErrModel>::empty()
    } else {
        let opath = bpath.push(i as usize);
        local_errs(ctx, ops[i], opath) + operand_errs_upto(
        args,
        ops,
        i,
        opath,
        ops[i].operands.len() as int,
        ) + term_errs(ctx, ops, i, bpath, in_block) + regions_errs(
            ctx,
            ops[i].regions,
            ops[i].regions.len() as int,
            opath,
        )
    }
}

/// All errors of the first i operations.
pub open spec fn ops_errs(
    ctx: CtxModel,
    args: Seq<Ty>,
    ops: Seq<OpModel>,
    i: int,
    bpath: Seq<usize>,
    in_block: bool,
) -> Seq<ErrModel>
    decreases ops, 1int, i,
{
    if i <= 0 || i > ops.len() {
        Seq::<ErrModel>::empty()
    } else {
        ops_errs(ctx, args, ops, i - 1, bpath, in_block) + op_errs(
            ctx,
            args,
            ops,
            i - 1,
            bpath,
            in_block,
        )
    }
}

/// All errors of the first i regions of an operation.
pub open spec fn regions_errs(
    ctx: CtxModel,
    rs: Seq<RegionModel>,
    i: int,
    opath: Seq<usize>,
) -> Seq<ErrModel>
    decreases rs, 2int, i,
{
    if i <= 0 || i > rs.len() {
        Seq::<ErrModel>::empty()
    } else {
        regions_errs(ctx, rs, i - 1, opath) + blocks_errs(
            ctx,
            rs[i - 1].blocks,
            rs[i - 1].blocks.len() as int,
            opath.push((i - 1) as usize),
        )
    }
}

/// All errors of the first i blocks of a region.
pub open spec fn blocks_errs(
    ctx: CtxModel,
    bs: Seq<BlockModel>,
    i: int,
    rpath: Seq<usize>,
) -> Seq<ErrModel>
    decreases bs, 2int, i,
{
    if i <= 0 || i > bs.len() {
        Seq::<ErrModel>::empty()
    } else {
        blocks_errs(ctx, bs, i - 1, rpath) + block_errs(ctx, bs[i - 1], rpath.push((i - 1) as usize))
    }
}

/// All errors of one block.
pub open spec fn block_errs(ctx: CtxModel, b: BlockModel, bpath: Seq<usize>) -> Seq<ErrModel>
    decreases b, 2int, 0int,
{
    ops_errs(ctx, b.arg_types, b.ops, b.ops.len() as int, bpath, true)
}

/// Every violation in the module, in depth-first order. The module's
/// top-level operation sequence is an implicit argument-less block exempt
/// from the terminator rule.
pub open spec fn module_errs(ctx: CtxModel, m: ModuleModel) -> Seq<ErrModel> {
    ops_errs(ctx, Seq::<Ty>::empty(), m.body, m.body.len() as int, Seq::<usize>::empty(), false)
}

/// A module with no violations.
pub open spec fn module_ok(ctx: CtxModel, m: ModuleModel) -> bool {
    module_errs(ctx, m).len() == 0
}

/// Idempotence of verification: the violations reported are a function of
/// the context and the module alone, so verifying the same unmodified
/// module twice yields identical results.
pub proof fn lemma_verify_idempotent(ctx: CtxModel, m1: ModuleModel, m2: ModuleModel)
    requires
        m1 == m2,
    ensures
        module_errs(ctx, m1) == module_errs(ctx, m2),
        module_ok(ctx, m1) == module_ok(ctx, m2),
{
}

/// A module holding one function-like wrapper around one operation and a
/// terminator: the shape `lemma_accepted_operation_verifies` speaks of.
pub open spec fn single_op_module(
    func_kind: usize,
    term_kind: usize,
    kind: usize,
    operands: Seq<crate::ir::Value>,
    result_types: Seq<Ty>,
    loc: Location,
) -> ModuleModel {
    let arg_types = operands.map_values(|v: crate::ir::Value| v.ty);
    let inner = OpModel {
        kind,
        operands,
        result_types,
        attrs: Seq::empty(),
        regions: Seq::empty(),
        location: loc,
    };
    let term = OpModel {
        kind: term_kind,
        operands: Seq::empty(),
        result_types: Seq::empty(),
        attrs: Seq::empty(),
        regions: Seq::empty(),
        location: loc,
    };
    let block = crate::ir::BlockModel { arg_types, ops: seq![inner, term] };
    let func = OpModel {
        kind: func_kind,
        operands: Seq::empty(),
        result_types: Seq::empty(),
        attrs: Seq::empty(),
        regions: seq![crate::ir::RegionModel { blocks: seq![block] }],
        location: loc,
    };
    ModuleModel { body: seq![func], location: loc }
}

/// No operand of a well-wired operation is reported.
proof fn lemma_operand_errs_empty(
    args: Seq<Ty>,
    ops: Seq<OpModel>,
    i: int,
    opath: Seq<usize>,
    j: int,
)
    requires
        0 <= i < ops.len(),
        j <= ops[i].operands.len(),
        forall|t: int|
            0 <= t < ops[i].operands.len() ==> operand_err(args, ops, i, opath, t)
                == Seq::<ErrModel>::empty(),
    ensures
        operand_errs_upto(args, ops, i, opath, j) == Seq::<ErrModel>::empty(),
    decreases j,
{
    if j > 0 {
        lemma_operand_errs_empty(args, ops, i, opath, j - 1);
        assert(operand_errs_upto(args, ops, i, opath, j) =~= Seq::<ErrModel>::empty());
    }
}

/// Any triple the operation builder accepts verifies: a module holding
/// just that operation on the matching block arguments, closed by a valid
/// terminator inside a plain function wrapper, passes the verifier.
#[verifier::rlimit(100)]
pub proof fn lemma_accepted_operation_verifies(
    ctx: CtxModel,
    func_kind: usize,
    term_kind: usize,
    kind: usize,
    operands: Seq<crate::ir::Value>,
    result_types: Seq<Ty>,
    loc: Location,
)
    requires
        func_kind < ctx.kinds.len(),
        arity_matches(ctx.kinds[func_kind as int].n_operands, 0),
        arity_matches(ctx.kinds[func_kind as int].n_results, 0),
        term_kind < ctx.kinds.len(),
        arity_matches(ctx.kinds[term_kind as int].n_operands, 0),
        arity_matches(ctx.kinds[term_kind as int].n_results, 0),
        ctx.kinds[term_kind as int].terminator,
        crate::construct::create_ok(ctx, kind, operands, result_types),
        !ctx.kinds[kind as int].terminator,
        operands.len() <= usize::MAX,
        forall|t: int|
            0 <= t < operands.len() ==> (#[trigger] operands[t]).site == ValueSite::BlockArg(
                t as usize,
            ),
    ensures
        module_ok(ctx, single_op_module(func_kind, term_kind, kind, operands, result_types, loc)),
{
    let m = single_op_module(func_kind, term_kind, kind, operands, result_types, loc);
    let func = m.body[0];
    let args = operands.map_values(|v: crate::ir::Value| v.ty);
    let inner_ops = func.regions[0].blocks[0].ops;
    let bpath = seq![0usize, 0usize, 0usize];
    let opath0 = bpath.push(0usize);
    let opath1 = bpath.push(1usize);

    // The inner operation: kind-local checks pass because the builder
    // accepted the triple; every operand is the matching block argument.
    assert(local_errs(ctx, inner_ops[0], opath0) =~= Seq::<ErrModel>::empty());
    assert forall|t: int| 0 <= t < inner_ops[0].operands.len() implies operand_err(
        args,
        inner_ops,
        0,
        opath0,
        t,
    ) == Seq::<ErrModel>::empty() by {
        assert(inner_ops[0].operands == operands);
        assert(operands[t].site == ValueSite::BlockArg(t as usize));
        assert(args[t] == operands[t].ty);
        assert(operand_err(args, inner_ops, 0, opath0, t) =~= Seq::<ErrModel>::empty());
    }
    lemma_operand_errs_empty(args, inner_ops, 0, opath0, inner_ops[0].operands.len() as int);
    assert(term_errs(ctx, inner_ops, 0, bpath, true) =~= Seq::<ErrModel>::empty());
    assert(regions_errs(ctx, inner_ops[0].regions, 0, opath0) =~= Seq::<ErrModel>::empty());
    assert(op_errs(ctx, args, inner_ops, 0, bpath, true) =~= Seq::<ErrModel>::empty());

    // The terminator: empty arities, terminator in last place.
    assert(local_errs(ctx, inner_ops[1], opath1) =~= Seq::<ErrModel>::empty());
    lemma_operand_errs_empty(args, inner_ops, 1, opath1, 0);
    assert(term_errs(ctx, inner_ops, 1, bpath, true) =~= Seq::<ErrModel>::empty());
    assert(op_errs(ctx, args, inner_ops, 1, bpath, true) =~= Seq::<ErrModel>::empty());

    // The block, its region, and the wrapper.
    assert(ops_errs(ctx, args, inner_ops, 0, bpath, true) =~= Seq::<ErrModel>::empty());
    assert(ops_errs(ctx, args, inner_ops, 1, bpath, true) =~= Seq::<ErrModel>::empty());
    assert(ops_errs(ctx, args, inner_ops, 2, bpath, true) =~= Seq::<ErrModel>::empty());
    assert(block_errs(ctx, func.regions[0].blocks[0], bpath) =~= Seq::<ErrModel>::empty());
    assert(seq![0usize, 0usize].push(0usize) =~= bpath);
    assert(blocks_errs(ctx, func.regions[0].blocks, 0, seq![0usize, 0usize]) =~= Seq::<
        ErrModel,
    >::empty());
    assert(blocks_errs(ctx, func.regions[0].blocks, 1, seq![0usize, 0usize]) =~= Seq::<
        ErrModel,
    >::empty());
    assert(seq![0usize].push(0usize) =~= seq![0usize, 0usize]);
    assert(regions_errs(ctx, func.regions, 0, seq![0usize]) =~= Seq::<ErrModel>::empty());
    assert(regions_errs(ctx, func.regions, 1, seq![0usize]) =~= Seq::<ErrModel>::empty());
    assert(local_errs(ctx, func, seq![0usize]) =~= Seq::<ErrModel>::empty());
    lemma_operand_errs_empty(Seq::<Ty>::empty(), m.body, 0, seq![0usize], 0);
    assert(Seq::<usize>::empty().push(0usize) =~= seq![0usize]);
    assert(term_errs(ctx, m.body, 0, Seq::<usize>::empty(), false) =~= Seq::<ErrModel>::empty());
    assert(regions_errs(ctx, func.regions, 1, seq![0usize]) == regions_errs(
        ctx,
        m.body[0].regions,
        m.body[0].regions.len() as int,
        Seq::<usize>::empty().push(0usize),
    ));
    assert(op_errs(ctx, Seq::<Ty>::empty(), m.body, 0, Seq::<usize>::empty(), false) =~= Seq::<
        ErrModel,
    >::empty());
    assert(ops_errs(ctx, Seq::<Ty>::empty(), m.body, 0, Seq::<usize>::empty(), false) =~= Seq::<
        ErrModel,
    >::empty());
    assert(ops_errs(ctx, Seq::<Ty>::empty(), m.body, 1, Seq::<usize>::empty(), false) =~= Seq::<
        ErrModel,
    >::empty());
    assert(module_errs(ctx, m) =~= Seq::<ErrModel>::empty());
}

/// A fresh vector holding the given path with one more index.
fn extend_path(p: &Vec<usize>, j: usize) -> (r: Vec<usize>)
    ensures
        r@ == p@.push(j),
{
    let mut r = copy_path(p);
    r.push(j);
    r
}

/// A fresh vector holding the given path.
fn copy_path(p: &Vec<usize>) -> (r: Vec<usize>)
    ensures
        r@ == p@,
{
    let mut r: Vec<usize> = Vec::new();
    let mut i: usize = 0;
    while i < p.len()
        invariant
            i <= p@.len(),
            r@ == p@.subrange(0, i as int),
        decreases p@.len() - i,
    {
        r.push(p[i]);
        assert(r@ =~= p@.subrange(0, i + 1 as int));
        i = i + 1;
    }
    assert(r@ =~= p@);
    r
}

fn push_err(errs: &mut Vec<VerificationError>, path: Vec<usize>, location: Location, violation: Violation)
    ensures
        final(errs).deep_view() == old(errs).deep_view().push(
            ErrModel { path: path@, location, violation },
        ),
{
    let ghost before = errs.deep_view();
    let ghost pv = path@;
    errs.push(VerificationError { path, location, violation });
    assert(errs.deep_view() =~= before.push(ErrModel { path: pv, location, violation }));
}

/// Whether all operand and result types are one and the same type.
fn check_uniform(operands: &Vec<Value>, result_types: &Vec<Ty>) -> (b: bool)
    ensures
        b == all_same_ty(operand_result_tys(operands@, result_types@)),
{
    let ghost tys = operand_result_tys(operands@, result_types@);
    proof {
        lemma_operand_result_tys(operands@, result_types@);
    }
    if operands.len() == 0 && result_types.len() == 0 {
        return true;
    }
    let t: Ty = if operands.len() > 0 {
        operands[0].ty
    } else {
        result_types[0]
    };
    assert(tys[0] == t);
    let mut i: usize = 0;
    while i < operands.len()
        invariant
            i <= operands@.len(),
            forall|k: int| 0 <= k < i ==> operands@[k].ty == t,
        decreases operands@.len() - i,
    {
        if !(operands[i].ty == t) {
            assert(tys[i as int] != tys[0]);
            return false;
        }
        i = i + 1;
    }
    let mut j: usize = 0;
    while j < result_types.len()
        invariant
            j <= result_types@.len(),
            forall|k: int| 0 <= k < j ==> result_types@[k] == t,
        decreases result_types@.len() - j,
    {
        if !(result_types[j] == t) {
            assert(tys[operands@.len() + j as int] != tys[0]);
            return false;
        }
        j = j + 1;
    }
    proof {
        assert forall|a: int| 0 <= a < tys.len() implies tys[a] == t by {
            if a < operands@.len() {
                assert(tys[a] == operands@[a].ty);
            }
        }
    }
    true
}

/// Appends the kind-local errors of one operation.
fn check_local(
    ctx: &Context,
    op: &Operation,
    i: usize,
    bpath: &Vec<usize>,
    errs: &mut Vec<VerificationError>,
)
    ensures
        final(errs).deep_view() == old(errs).deep_view() + local_errs(
            ctx@,
            op_model(*op),
            bpath@.push(i),
        ),
{
    let ghost opm = op_model(*op);
    let ghost opath = bpath@.push(i);
    let ghost base0 = errs.deep_view();
    if op.kind >= ctx.kinds.len() {
        push_err(errs, extend_path(bpath, i), op.location, Violation::UnknownKind);
    } else {
        let decl = &ctx.kinds[op.kind];
        match decl.n_operands {
            Option::Some(n) => {
                if op.operands.len() != n {
                    push_err(
                        errs,
                        extend_path(bpath, i),
                        op.location,
                        Violation::OperandArity { expected: n, found: op.operands.len() },
                    );
                }
            },
            Option::None => {},
        }
        match decl.n_results {
            Option::Some(n) => {
                if op.result_types.len() != n {
                    push_err(
                        errs,
                        extend_path(bpath, i),
                        op.location,
                        Violation::ResultArity { expected: n, found: op.result_types.len() },
                    );
                }
            },
            Option::None => {},
        }
        if decl.uniform && !check_uniform(&op.operands, &op.result_types) {
            push_err(errs, extend_path(bpath, i), op.location, Violation::NonUniformType);
        }
    }
    assert(errs.deep_view() =~= base0 + local_errs(ctx@, opm, opath));
}

/// Appends the operand errors of the operation at index i.
fn check_operands(
    args: &Vec<Ty>,
    ops: &Vec<Operation>,
    i: usize,
    bpath: &Vec<usize>,
    errs: &mut Vec<VerificationError>,
)
    requires
        i < ops@.len(),
    ensures
        final(errs).deep_view() == old(errs).deep_view() + operand_errs_upto(
            args@,
            ops_model(ops@, ops@.len() as int),
            i as int,
            bpath@.push(i),
            ops@[i as int].operands@.len() as int,
        ),
{
    let ghost opsm = ops_model(ops@, ops@.len() as int);
    proof {
        lemma_ops_model(ops@, ops@.len() as int);
    }
    let op = &ops[i];
    let ghost opath = bpath@.push(i);
    let ghost base1 = errs.deep_view();
    let mut j: usize = 0;
    while j < op.operands.len()
        invariant
            j <= op.operands@.len(),
            errs.deep_view() == base1 + operand_errs_upto(args@, opsm, i as int, opath, j as int),
        decreases op.operands@.len() - j,
    {
        let v = op.operands[j];
        match v.site {
            ValueSite::BlockArg(a) => {
                if a >= args.len() {
                    push_err(
                        errs,
                        extend_path(bpath, i),
                        op.location,
                        Violation::DanglingOperand { operand: j },
                    );
                } else if !(args[a] == v.ty) {
                    push_err(
                        errs,
                        extend_path(bpath, i),
                        op.location,
                        Violation::OperandTypeMismatch { operand: j },
                    );
                }
            },
            ValueSite::OpResult(k, r) => {
                if k >= i || r >= ops[k].result_types.len() {
                    push_err(
                        errs,
                        extend_path(bpath, i),
                        op.location,
                        Violation::DanglingOperand { operand: j },
                    );
                } else if !(ops[k].result_types[r] == v.ty) {
                    push_err(
                        errs,
                        extend_path(bpath, i),
                        op.location,
                        Violation::OperandTypeMismatch { operand: j },
                    );
                }
            },
        }
        assert(errs.deep_view() =~= base1 + operand_errs_upto(
            args@,
            opsm,
            i as int,
            opath,
            j + 1 as int,
        ));
        j = j + 1;
    }
}

/// Appends the terminator-placement errors of the operation at index i.
fn check_term(
    ctx: &Context,
    ops: &Vec<Operation>,
    i: usize,
    bpath: &Vec<usize>,
    in_block: bool,
    errs: &mut Vec<VerificationError>,
)
    requires
        i < ops@.len(),
    ensures
        final(errs).deep_view() == old(errs).deep_view() + term_errs(
            ctx@,
            ops_model(ops@, ops@.len() as int),
            i as int,
            bpath@,
            in_block,
        ),
{
    proof {
        lemma_ops_model(ops@, ops@.len() as int);
    }
    let op = &ops[i];
    let ghost base2 = errs.deep_view();
    if in_block && op.kind < ctx.kinds.len() {
        let dt = ctx.kinds[op.kind].terminator;
        if i == ops.len() - 1 {
            if !dt {
                push_err(errs, copy_path(bpath), op.location, Violation::MissingTerminator);
            }
        } else {
            if dt {
                push_err(errs, extend_path(bpath, i), op.location, Violation::MisplacedTerminator);
            }
        }
    }
    assert(errs.deep_view() =~= base2 + term_errs(
        ctx@,
        ops_model(ops@, ops@.len() as int),
        i as int,
        bpath@,
        in_block,
    ));
}

/// Appends the errors of every region of the operation at index i.
fn check_op_regions(
    ctx: &Context,
    ops: &Vec<Operation>,
    i: usize,
    bpath: &Vec<usize>,
    errs: &mut Vec<VerificationError>,
)
    requires
        i < ops@.len(),
    ensures
        final(errs).deep_view() == old(errs).deep_view() + regions_errs(
            ctx@,
            op_model(ops@[i as int]).regions,
            op_model(ops@[i as int]).regions.len() as int,
            bpath@.push(i),
        ),
    decreases ops@, 0int, 0int,
{
    let op = &ops[i];
    let ghost opm = op_model(ops@[i as int]);
    let ghost opath = bpath@.push(i);
    proof {
        crate::ir::lemma_regions_model(op.regions@, op.regions@.len() as int);
    }
    let ghost base3 = errs.deep_view();
    let opath_vec = extend_path(bpath, i);
    let mut rj: usize = 0;
    while rj < op.regions.len()
        invariant
            rj <= op.regions@.len(),
            errs.deep_view() == base3 + regions_errs(ctx@, opm.regions, rj as int, opath),
        decreases op.regions@.len() - rj,
    {
        proof {
            crate::ir::lemma_blocks_model(
                op.regions@[rj as int].blocks@,
                op.regions@[rj as int].blocks@.len() as int,
            );
        }
        let rpath = extend_path(&opath_vec, rj);
        check_blocks(ctx, &op.regions[rj].blocks, &rpath, errs);
        assert(errs.deep_view() =~= base3 + regions_errs(
            ctx@,
            opm.regions,
            rj + 1 as int,
            opath,
        ));
        rj = rj + 1;
    }
}

/// Checks the operation at index i and everything nested in it, appending
/// its violations in specification order.
#[verifier::rlimit(100)]
fn check_op(
    ctx: &Context,
    args: &Vec<Ty>,
    ops: &Vec<Operation>,
    i: usize,
    bpath: &Vec<usize>,
    in_block: bool,
    errs: &mut Vec<VerificationError>,
)
    requires
        i < ops@.len(),
    ensures
        final(errs).deep_view() == old(errs).deep_view() + op_errs(
            ctx@,
            args@,
            ops_model(ops@, ops@.len() as int),
            i as int,
            bpath@,
            in_block,
        ),
    decreases ops@, 0int, 1int,
{
    let ghost opsm = ops_model(ops@, ops@.len() as int);
    proof {
        lemma_ops_model(ops@, ops@.len() as int);
    }
    check_local(ctx, &ops[i], i, bpath, errs);
    check_operands(args, ops, i, bpath, errs);
    check_term(ctx, ops, i, bpath, in_block, errs);
    check_op_regions(ctx, ops, i, bpath, errs);
    assert(errs.deep_view() =~= old(errs).deep_view() + op_errs(
        ctx@,
        args@,
        opsm,
        i as int,
        bpath@,
        in_block,
    ));
}


/// Checks every block of a region.
fn check_blocks(
    ctx: &Context,
    bs: &Vec<crate::ir::Block>,
    rpath: &Vec<usize>,
    errs: &mut Vec<VerificationError>,
)
    ensures
        final(errs).deep_view() == old(errs).deep_view() + blocks_errs(
            ctx@,
            crate::ir::blocks_model(bs@, bs@.len() as int),
            bs@.len() as int,
            rpath@,
        ),
    decreases bs@, 3int, 0int,
{
    let ghost bsm = crate::ir::blocks_model(bs@, bs@.len() as int);
    proof {
        crate::ir::lemma_blocks_model(bs@, bs@.len() as int);
    }
    let ghost base = errs.deep_view();
    let mut b: usize = 0;
    while b < bs.len()
        invariant
            b <= bs@.len(),
            errs.deep_view() == base + blocks_errs(ctx@, bsm, b as int, rpath@),
        decreases bs@.len() - b,
    {
        let bpath = extend_path(rpath, b);
        check_block(ctx, &bs[b], &bpath, errs);
        assert(errs.deep_view() =~= base + blocks_errs(ctx@, bsm, b + 1 as int, rpath@));
        b = b + 1;
    }
}

/// Checks one block: its operations, their nesting, and the terminator
/// rule.
fn check_block(
    ctx: &Context,
    b: &crate::ir::Block,
    bpath: &Vec<usize>,
    errs: &mut Vec<VerificationError>,
)
    ensures
        final(errs).deep_view() == old(errs).deep_view() + block_errs(
            ctx@,
            crate::ir::block_model(*b),
            bpath@,
        ),
    decreases *b, 2int, 0int,
{
    proof {
        lemma_ops_model(b.ops@, b.ops@.len() as int);
    }
    check_ops(ctx, &b.arg_types, &b.ops, bpath, true, errs);
}

/// Checks a sequence of operations.
fn check_ops(
    ctx: &Context,
    args: &Vec<Ty>,
    ops: &Vec<Operation>,
    bpath: &Vec<usize>,
    in_block: bool,
    errs: &mut Vec<VerificationError>,
)
    ensures
        final(errs).deep_view() == old(errs).deep_view() + ops_errs(
            ctx@,
            args@,
            ops_model(ops@, ops@.len() as int),
            ops@.len() as int,
            bpath@,
            in_block,
        ),
    decreases ops@, 1int, 0int,
{
    let ghost opsm = ops_model(ops@, ops@.len() as int);
    proof {
        lemma_ops_model(ops@, ops@.len() as int);
    }
    let ghost base = errs.deep_view();
    let mut i: usize = 0;
    while i < ops.len()
        invariant
            i <= ops@.len(),
            errs.deep_view() == base + ops_errs(
                ctx@,
                args@,
                opsm,
                i as int,
                bpath@,
                in_block,
            ),
        decreases ops@.len() - i,
    {
        check_op(ctx, args, ops, i, bpath, in_block, errs);
        assert(errs.deep_view() =~= base + ops_errs(
            ctx@,
            args@,
            opsm,
            i + 1 as int,
            bpath@,
            in_block,
        ));
        i = i + 1;
    }
}

/// Walks the module depth-first and reports every violation found, each
/// with the offending operation's path and location; succeeds exactly when
/// there is none. The reported list is a function of the context and the
/// module alone, so the check is idempotent.
pub fn verify(ctx: &Context, m: &Module) -> (r: Result<(), Vec<VerificationError>>)
    ensures
        match r {
            Result::Ok(u) => module_errs(ctx@, m@) == Seq::<ErrModel>::empty(),
            Result::Err(es) => {
                &&& es.deep_view() == module_errs(ctx@, m@)
                &&& es.deep_view().len() > 0
            },
        },
        (r is Ok) <==> module_ok(ctx@, m@),
{
    let mut errs: Vec<VerificationError> = Vec::new();
    let empty_args: Vec<Ty> = Vec::new();
    let path: Vec<usize> = Vec::new();
    proof {
        lemma_ops_model(m.body@, m.body@.len() as int);
    }
    check_ops(ctx, &empty_args, &m.body, &path, false, &mut errs);
    assert(errs.deep_view() =~= module_errs(ctx@, m@));
    if errs.len() == 0 {
        proof {
            assert(module_errs(ctx@, m@) =~= Seq::<ErrModel>::empty());
        }
        Result::Ok(())
    } else {
        Result::Err(errs)
    }
}

} // verus!
