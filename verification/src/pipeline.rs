//! The lowering pipeline: an ordered sequence of passes, each rewriting
//! operation kinds in place, module-wide or only inside regions of a given
//! anchor kind. A pass that maps a kind to an unregistered target reports a
//! failure; the failing pass still visits the whole module (its rewrites
//! stand, the offending operations stay), and the remaining passes are
//! aborted, leaving the module in that partially lowered state.

use vstd::prelude::*;
use crate::context::{Context, CtxModel};
use crate::ir::{
    lemma_blocks_model, lemma_ops_model, lemma_regions_model, op_model, ops_model, regions_model,
    blocks_model, Block, BlockModel, Module, ModuleModel, OpModel, Operation, Region, RegionModel,
};

verus! {

/// Where a pass applies.
#[derive(Clone, Copy, PartialEq, Eq, Structural, Debug)]
pub enum Scope {
    /// Visits every operation in the module.
    ModuleWide,
    /// Visits only operations inside regions owned by operations of the
    /// given kind, at any depth.
    NestedUnder(usize),
}

/// One lowering pass: an ordered list of kind-rewrite rules; the first rule
/// whose source matches an operation's kind applies.
#[derive(Debug)]
pub struct Pass {
    pub name: String,
    pub scope: Scope,
    pub rules: Vec<(usize, usize)>,
}

pub ghost struct PassModel {
    pub name: Seq<char>,
    pub scope: Scope,
    pub rules: Seq<(usize, usize)>,
}

impl DeepView for Pass {
    type V = PassModel;

    open spec fn deep_view(&self) -> PassModel {
        PassModel { name: self.name@, scope: self.scope, rules: self.rules@ }
    }
}

/// Why a pass failed.
#[derive(Clone, Copy, PartialEq, Eq, Structural, Debug)]
pub enum FailReason {
    /// A rule rewrote an operation to a kind the context does not know.
    UnregisteredTarget { kind: usize },
}

/// A pipeline failure: which pass failed and why. The remaining passes are
/// not run.
#[derive(Debug, PartialEq)]
pub struct PassFailure {
    pub pass_name: String,
    pub reason: FailReason,
}

#[verifier::ext_equal]
pub ghost struct PassFailureModel {
    pub pass_name: Seq<char>,
    pub reason: FailReason,
}

impl DeepView for PassFailure {
    type V = PassFailureModel;

    open spec fn deep_view(&self) -> PassFailureModel {
        PassFailureModel { pass_name: self.pass_name@, reason: self.reason }
    }
}

/// The first matching rewrite rule for a kind, scanning from index i.
pub open spec fn rule_from(rules: Seq<(usize, usize)>, kind: usize, i: int) -> Option<usize>
    decreases rules.len() - i,
{
    if i < 0 || i >= rules.len() {
        Option::None
    } else if rules[i].0 == kind {
        Option::Some(rules[i].1)
    } else {
        rule_from(rules, kind, i + 1)
    }
}

pub open spec fn rule_for(rules: Seq<(usize, usize)>, kind: usize) -> Option<usize> {
    rule_from(rules, kind, 0)
}

/// The first of two possible failures.
pub open spec fn first_fail(a: Option<FailReason>, b: Option<FailReason>) -> Option<FailReason> {
    match a {
        Option::Some(r) => Option::Some(r),
        Option::None => b,
    }
}

/// One pass applied to one operation. `inside` says whether the operation
/// already sits inside a region anchored by the pass's nested-under kind.
pub open spec fn pass_op(ctx: CtxModel, p: PassModel, op: OpModel, inside: bool) -> (Option<
    FailReason,
>, OpModel)
    decreases op, 2int, 0int,
{
    let active = p.scope is ModuleWide || inside;
    let inside2 = inside || (match p.scope {
        Scope::NestedUnder(k) => op.kind == k,
        Scope::ModuleWide => false,
    });
    let rewritten = if active {
        rule_for(p.rules, op.kind)
    } else {
        Option::None
    };
    let kind_step: (Option<FailReason>, usize) = match rewritten {
        Option::Some(t) => if t < ctx.kinds.len() {
            (Option::None, t)
        } else {
            (Option::Some(FailReason::UnregisteredTarget { kind: t }), op.kind)
        },
        Option::None => (Option::None, op.kind),
    };
    let region_step = pass_regions(ctx, p, op.regions, op.regions.len() as int, inside2);
    (
        first_fail(kind_step.0, region_step.0),
        OpModel { kind: kind_step.1, regions: region_step.1, ..op },
    )
}

/// One pass applied to the first i regions of an operation.
pub open spec fn pass_regions(
    ctx: CtxModel,
    p: PassModel,
    rs: Seq<RegionModel>,
    i: int,
    inside: bool,
) -> (Option<FailReason>, Seq<RegionModel>)
    decreases rs, 1int, i,
{
    if i <= 0 || i > rs.len() {
        (Option::None, rs)
    } else {
        let prev = pass_regions(ctx, p, rs, i - 1, inside);
        let here = pass_blocks(ctx, p, rs[i - 1].blocks, rs[i - 1].blocks.len() as int, inside);
        (
            first_fail(prev.0, here.0),
            prev.1.update(i - 1, RegionModel { blocks: here.1 }),
        )
    }
}

/// One pass applied to the first i blocks of a region.
pub open spec fn pass_blocks(
    ctx: CtxModel,
    p: PassModel,
    bs: Seq<BlockModel>,
    i: int,
    inside: bool,
) -> (Option<FailReason>, Seq<BlockModel>)
    decreases bs, 1int, i,
{
    if i <= 0 || i > bs.len() {
        (Option::None, bs)
    } else {
        let prev = pass_blocks(ctx, p, bs, i - 1, inside);
        let here = pass_ops(ctx, p, bs[i - 1].ops, bs[i - 1].ops.len() as int, inside);
        (
            first_fail(prev.0, here.0),
            prev.1.update(i - 1, BlockModel { arg_types: bs[i - 1].arg_types, ops: here.1 }),
        )
    }
}

/// One pass applied to the first i operations of a sequence.
pub open spec fn pass_ops(
    ctx: CtxModel,
    p: PassModel,
    ops: Seq<OpModel>,
    i: int,
    inside: bool,
) -> (Option<FailReason>, Seq<OpModel>)
    decreases ops, 1int, i,
{
    if i <= 0 || i > ops.len() {
        (Option::None, ops)
    } else {
        let prev = pass_ops(ctx, p, ops, i - 1, inside);
        let here = pass_op(ctx, p, ops[i - 1], inside);
        (first_fail(prev.0, here.0), prev.1.update(i - 1, here.1))
    }
}

/// One pass applied to a whole module.
pub open spec fn pass_module(ctx: CtxModel, p: PassModel, m: ModuleModel) -> (Option<
    FailReason,
>, ModuleModel) {
    let step = pass_ops(ctx, p, m.body, m.body.len() as int, false);
    (step.0, ModuleModel { body: step.1, ..m })
}

/// The first i passes of a pipeline applied in order; a failure aborts the
/// remaining passes and names the failing pass.
pub open spec fn pipeline_run(
    ctx: CtxModel,
    passes: Seq<PassModel>,
    i: int,
    m: ModuleModel,
) -> (Option<PassFailureModel>, ModuleModel)
    decreases i,
{
    if i <= 0 || i > passes.len() {
        (Option::None, m)
    } else {
        let prev = pipeline_run(ctx, passes, i - 1, m);
        match prev.0 {
            Option::Some(f) => (Option::Some(f), prev.1),
            Option::None => {
                let here = pass_module(ctx, passes[i - 1], prev.1);
                (
                    match here.0 {
                        Option::Some(r) => Option::Some(
                            PassFailureModel { pass_name: passes[i - 1].name, reason: r },
                        ),
                        Option::None => Option::None,
                    },
                    here.1,
                )
            },
        }
    }
}

/// The first rewrite rule matching a kind, if any.
fn find_rule(rules: &Vec<(usize, usize)>, kind: usize) -> (r: Option<usize>)
    ensures
        r == rule_for(rules@, kind),
{
    let mut i: usize = 0;
    while i < rules.len()
        invariant
            i <= rules@.len(),
            rule_for(rules@, kind) == rule_from(rules@, kind, i as int),
        decreases rules@.len() - i,
    {
        if rules[i].0 == kind {
            return Option::Some(rules[i].1);
        }
        i = i + 1;
    }
    Option::None
}

/// Applies one pass to one operation, returning the rewritten operation
/// and the first failure found, if any.
fn apply_op(ctx: &Context, p: &Pass, op: &Operation, inside: bool) -> (r: (
    Option<FailReason>,
    Operation,
))
    ensures
        r.0 == pass_op(ctx@, p.deep_view(), op_model(*op), inside).0,
        op_model(r.1) == pass_op(ctx@, p.deep_view(), op_model(*op), inside).1,
    decreases *op, 2int, 0int,
{
    proof {
        lemma_regions_model(op.regions@, op.regions@.len() as int);
    }
    let active = match p.scope {
        Scope::ModuleWide => true,
        Scope::NestedUnder(_) => inside,
    };
    let inside2 = inside || (match p.scope {
        Scope::NestedUnder(k) => op.kind == k,
        Scope::ModuleWide => false,
    });
    let mut fail: Option<FailReason> = Option::None;
    let mut new_kind = op.kind;
    if active {
        match find_rule(&p.rules, op.kind) {
            Option::Some(t) => {
                if t < ctx.kinds.len() {
                    new_kind = t;
                } else {
                    fail = Option::Some(FailReason::UnregisteredTarget { kind: t });
                }
            },
            Option::None => {},
        }
    }
    let rr = apply_regions(ctx, p, &op.regions, inside2);
    let combined: Option<FailReason> = match fail {
        Option::Some(f) => Option::Some(f),
        Option::None => rr.0,
    };
    let newop = Operation {
        kind: new_kind,
        operands: crate::ir::copy_values(&op.operands),
        result_types: crate::ir::copy_tys(&op.result_types),
        attrs: crate::ir::copy_attrs(&op.attrs),
        regions: rr.1,
        location: op.location,
    };
    proof {
        assert(op_model(newop) =~~= pass_op(ctx@, p.deep_view(), op_model(*op), inside).1);
    }
    (combined, newop)
}

/// Applies one pass to every region of an operation.
fn apply_regions(ctx: &Context, p: &Pass, rs: &Vec<Region>, inside: bool) -> (r: (
    Option<FailReason>,
    Vec<Region>,
))
    ensures
        ({
            let s = pass_regions(
                ctx@,
                p.deep_view(),
                regions_model(rs@, rs@.len() as int),
                rs@.len() as int,
                inside,
            );
            r.0 == s.0 && regions_model(r.1@, r.1@.len() as int) == s.1
        }),
    decreases rs@, 1int, 0int,
{
    let ghost rsm = regions_model(rs@, rs@.len() as int);
    proof {
        lemma_regions_model(rs@, rs@.len() as int);
    }
    let mut out: Vec<Region> = Vec::new();
    let mut fail: Option<FailReason> = Option::None;
    let mut i: usize = 0;
    while i < rs.len()
        invariant
            i <= rs@.len(),
            out@.len() == i,
            fail == pass_regions(ctx@, p.deep_view(), rsm, i as int, inside).0,
            regions_model(out@, i as int) == pass_regions(
                ctx@,
                p.deep_view(),
                rsm,
                i as int,
                inside,
            ).1.subrange(0, i as int),
        decreases rs@.len() - i,
    {
        proof {
            crate::ir::lemma_blocks_model(
                rs@[i as int].blocks@,
                rs@[i as int].blocks@.len() as int,
            );
        }
        let bb = apply_blocks(ctx, p, &rs[i].blocks, inside);
        let ghost out_before = out@;
        let newr = Region { blocks: bb.1 };
        proof {
            crate::ir::lemma_regions_model_push(out@, newr);
        }
        out.push(newr);
        if fail.is_none() {
            fail = bb.0;
        }
        proof {
            lemma_pass_regions_len(ctx@, p.deep_view(), rsm, i as int, inside);
            lemma_pass_regions_len(ctx@, p.deep_view(), rsm, i + 1 as int, inside);
            let s1 = pass_regions(ctx@, p.deep_view(), rsm, i + 1 as int, inside);
            assert(regions_model(out@, i + 1 as int) =~= s1.1.subrange(0, i + 1 as int));
        }
        i = i + 1;
    }
    proof {
        let s = pass_regions(ctx@, p.deep_view(), rsm, rs@.len() as int, inside);
        lemma_pass_regions_len(ctx@, p.deep_view(), rsm, rs@.len() as int, inside);
        assert(regions_model(out@, out@.len() as int) =~= s.1);
    }
    (fail, out)
}

/// Applies one pass to every block of a region.
fn apply_blocks(ctx: &Context, p: &Pass, bs: &Vec<Block>, inside: bool) -> (r: (
    Option<FailReason>,
    Vec<Block>,
))
    ensures
        ({
            let s = pass_blocks(
                ctx@,
                p.deep_view(),
                blocks_model(bs@, bs@.len() as int),
                bs@.len() as int,
                inside,
            );
            r.0 == s.0 && blocks_model(r.1@, r.1@.len() as int) == s.1
        }),
    decreases bs@, 1int, 0int,
{
    let ghost bsm = blocks_model(bs@, bs@.len() as int);
    proof {
        lemma_blocks_model(bs@, bs@.len() as int);
    }
    let mut out: Vec<Block> = Vec::new();
    let mut fail: Option<FailReason> = Option::None;
    let mut i: usize = 0;
    while i < bs.len()
        invariant
            i <= bs@.len(),
            out@.len() == i,
            fail == pass_blocks(ctx@, p.deep_view(), bsm, i as int, inside).0,
            blocks_model(out@, i as int) == pass_blocks(
                ctx@,
                p.deep_view(),
                bsm,
                i as int,
                inside,
            ).1.subrange(0, i as int),
        decreases bs@.len() - i,
    {
        proof {
            lemma_ops_model(bs@[i as int].ops@, bs@[i as int].ops@.len() as int);
        }
        let oo = apply_ops(ctx, p, &bs[i].ops, inside);
        let newb = Block { arg_types: crate::ir::copy_tys(&bs[i].arg_types), ops: oo.1 };
        proof {
            crate::ir::lemma_blocks_model_push(out@, newb);
        }
        out.push(newb);
        if fail.is_none() {
            fail = oo.0;
        }
        proof {
            lemma_pass_blocks_len(ctx@, p.deep_view(), bsm, i as int, inside);
            lemma_pass_blocks_len(ctx@, p.deep_view(), bsm, i + 1 as int, inside);
            let s1 = pass_blocks(ctx@, p.deep_view(), bsm, i + 1 as int, inside);
            assert(blocks_model(out@, i + 1 as int) =~= s1.1.subrange(0, i + 1 as int));
        }
        i = i + 1;
    }
    proof {
        let s = pass_blocks(ctx@, p.deep_view(), bsm, bs@.len() as int, inside);
        lemma_pass_blocks_len(ctx@, p.deep_view(), bsm, bs@.len() as int, inside);
        assert(blocks_model(out@, out@.len() as int) =~= s.1);
    }
    (fail, out)
}

/// Applies one pass to a sequence of operations.
fn apply_ops(ctx: &Context, p: &Pass, ops: &Vec<Operation>, inside: bool) -> (r: (
    Option<FailReason>,
    Vec<Operation>,
))
    ensures
        ({
            let s = pass_ops(
                ctx@,
                p.deep_view(),
                ops_model(ops@, ops@.len() as int),
                ops@.len() as int,
                inside,
            );
            r.0 == s.0 && ops_model(r.1@, r.1@.len() as int) == s.1
        }),
    decreases ops@, 1int, 0int,
{
    let ghost opsm = ops_model(ops@, ops@.len() as int);
    proof {
        lemma_ops_model(ops@, ops@.len() as int);
    }
    let mut out: Vec<Operation> = Vec::new();
    let mut fail: Option<FailReason> = Option::None;
    let mut i: usize = 0;
    while i < ops.len()
        invariant
            i <= ops@.len(),
            out@.len() == i,
            fail == pass_ops(ctx@, p.deep_view(), opsm, i as int, inside).0,
            ops_model(out@, i as int) == pass_ops(
                ctx@,
                p.deep_view(),
                opsm,
                i as int,
                inside,
            ).1.subrange(0, i as int),
        decreases ops@.len() - i,
    {
        let oo = apply_op(ctx, p, &ops[i], inside);
        proof {
            crate::ir::lemma_ops_model_push(out@, oo.1);
        }
        let ghost newm = op_model(oo.1);
        out.push(oo.1);
        if fail.is_none() {
            fail = oo.0;
        }
        proof {
            lemma_pass_ops_len(ctx@, p.deep_view(), opsm, i as int, inside);
            lemma_pass_ops_len(ctx@, p.deep_view(), opsm, i + 1 as int, inside);
            let s1 = pass_ops(ctx@, p.deep_view(), opsm, i + 1 as int, inside);
            assert(ops_model(out@, i + 1 as int) =~= s1.1.subrange(0, i + 1 as int));
        }
        i = i + 1;
    }
    proof {
        let s = pass_ops(ctx@, p.deep_view(), opsm, ops@.len() as int, inside);
        lemma_pass_ops_len(ctx@, p.deep_view(), opsm, ops@.len() as int, inside);
        assert(ops_model(out@, out@.len() as int) =~= s.1);
    }
    (fail, out)
}

/// A pass keeps the length of an operation sequence.
pub proof fn lemma_pass_ops_len(
    ctx: CtxModel,
    p: PassModel,
    ops: Seq<OpModel>,
    i: int,
    inside: bool,
)
    ensures
        pass_ops(ctx, p, ops, i, inside).1.len() == ops.len(),
    decreases i,
{
    if !(i <= 0 || i > ops.len()) {
        lemma_pass_ops_len(ctx, p, ops, i - 1, inside);
    }
}

/// A pass keeps the length of a region sequence.
pub proof fn lemma_pass_regions_len(
    ctx: CtxModel,
    p: PassModel,
    rs: Seq<RegionModel>,
    i: int,
    inside: bool,
)
    ensures
        pass_regions(ctx, p, rs, i, inside).1.len() == rs.len(),
    decreases i,
{
    if !(i <= 0 || i > rs.len()) {
        lemma_pass_regions_len(ctx, p, rs, i - 1, inside);
    }
}

/// A pass keeps the length of a block sequence.
pub proof fn lemma_pass_blocks_len(
    ctx: CtxModel,
    p: PassModel,
    bs: Seq<BlockModel>,
    i: int,
    inside: bool,
)
    ensures
        pass_blocks(ctx, p, bs, i, inside).1.len() == bs.len(),
    decreases i,
{
    if !(i <= 0 || i > bs.len()) {
        lemma_pass_blocks_len(ctx, p, bs, i - 1, inside);
    }
}

/// A failed pipeline stays failed: later passes are not applied.
pub proof fn lemma_pipeline_stable(
    ctx: CtxModel,
    passes: Seq<PassModel>,
    i: int,
    j: int,
    m: ModuleModel,
)
    requires
        0 <= i <= j <= passes.len(),
        pipeline_run(ctx, passes, i, m).0 is Some,
    ensures
        pipeline_run(ctx, passes, j, m) == pipeline_run(ctx, passes, i, m),
    decreases j - i,
{
    if j > i {
        lemma_pipeline_stable(ctx, passes, i, j - 1, m);
    }
}

/// Runs the passes in order, rewriting the module in place. A failing pass
/// leaves its rewrites in the module (a partially lowered state, with no
/// rollback), aborts the remaining passes, and is named in the failure. The
/// outcome is a function of the context, the pipeline and the input module
/// alone, so the pipeline is deterministic.
pub fn run(ctx: &Context, passes: &Vec<Pass>, m: &mut Module) -> (r: Result<(), PassFailure>)
    ensures
        ({
            let s = pipeline_run(ctx@, passes.deep_view(), passes@.len() as int, old(m)@);
            &&& final(m)@ == s.1
            &&& match r {
                Result::Ok(u) => s.0 is None,
                Result::Err(f) => s.0 == Option::Some(f.deep_view()),
            }
        }),
{
    let ghost pdv = passes.deep_view();
    let mut pi: usize = 0;
    while pi < passes.len()
        invariant
            pi <= passes@.len(),
            pipeline_run(ctx@, pdv, pi as int, old(m)@).0 is None,
            m@ == pipeline_run(ctx@, pdv, pi as int, old(m)@).1,
        decreases passes@.len() - pi,
    {
        let p = &passes[pi];
        proof {
            lemma_ops_model(m.body@, m.body@.len() as int);
        }
        let step = apply_ops(ctx, p, &m.body, false);
        m.body = step.1;
        proof {
            let s1 = pipeline_run(ctx@, pdv, pi + 1 as int, old(m)@);
            assert(pdv[pi as int] == passes@[pi as int].deep_view());
        }
        match step.0 {
            Option::Some(reason) => {
                let f = PassFailure { pass_name: p.name.clone(), reason };
                proof {
                    let s1 = pipeline_run(ctx@, pdv, pi + 1 as int, old(m)@);
                    assert(s1.0 == Option::Some(f.deep_view()));
                    assert(m@ == s1.1);
                    lemma_pipeline_stable(ctx@, pdv, pi + 1 as int, pdv.len() as int, old(m)@);
                }
                return Result::Err(f);
            },
            Option::None => {},
        }
        pi = pi + 1;
    }
    Result::Ok(())
}

/// Determinism of lowering: the pipeline's outcome — success or the exact
/// failure, and the whole output module — is a function of the context, the
/// pass sequence and the input module alone, so running the same pipeline
/// twice on equal modules gives equal results.
pub proof fn lemma_pipeline_deterministic(
    ctx: CtxModel,
    passes: Seq<PassModel>,
    m1: ModuleModel,
    m2: ModuleModel,
)
    requires
        m1 == m2,
    ensures
        pipeline_run(ctx, passes, passes.len() as int, m1) == pipeline_run(
            ctx,
            passes,
            passes.len() as int,
            m2,
        ),
{
}

} // verus!
