//! The execution backend: compiles a fully lowered module into an
//! executable artifact and invokes its functions through a packed,
//! type-erased calling convention — one raw 64-bit slot per parameter, with
//! the return slots appended after the parameter slots.

use vstd::prelude::*;
use vstd::arithmetic::power2::pow2;
use crate::context::{Context, CtxModel, Sem};
use crate::ir::{
    op_model, ops_model, lemma_ops_model, Module, ModuleModel, OpModel, Operation, Ty, Value,
    ValueSite, AttrEntryModel,
};

verus! {

/// Why compilation was refused.
#[derive(Clone, Copy, PartialEq, Eq, Structural, Debug)]
pub enum CompileError {
    /// The module still holds an operation the backend cannot execute: it
    /// is not fully lowered, or it is malformed.
    UnsupportedOperation,
}

/// Why an invocation failed.
#[derive(Clone, Copy, PartialEq, Eq, Structural, Debug)]
pub enum InvocationError {
    /// No function of the requested name exists in the artifact.
    NotFound,
    /// The slot count does not match parameter count plus result count.
    ArityMismatch,
}

/// Where an instruction reads a value: a parameter slot or the result of
/// an earlier instruction.
#[derive(Clone, Copy, PartialEq, Eq, Structural, Debug)]
pub enum Src {
    Arg(usize),
    Res(usize),
}

/// One compiled instruction.
#[derive(Debug)]
pub enum Inst {
    /// Integer addition wrapping at the given width (1 to 64 bits).
    Add { a: Src, b: Src, width: u32 },
    /// Returns the listed values; always last.
    Ret(Vec<Src>),
}

#[verifier::ext_equal]
pub ghost enum InstModel {
    Add { a: Src, b: Src, width: u32 },
    Ret(Seq<Src>),
}

impl DeepView for Inst {
    type V = InstModel;

    open spec fn deep_view(&self) -> InstModel {
        match self {
            Inst::Add { a, b, width } => InstModel::Add { a: *a, b: *b, width: *width },
            Inst::Ret(srcs) => InstModel::Ret(srcs@),
        }
    }
}

/// One compiled function.
#[derive(Debug)]
pub struct CompiledFunc {
    name: String,
    params: Vec<Ty>,
    results: Vec<Ty>,
    body: Vec<Inst>,
}

#[verifier::ext_equal]
pub ghost struct CompiledFuncModel {
    pub name: Seq<char>,
    pub params: Seq<Ty>,
    pub results: Seq<Ty>,
    pub body: Seq<InstModel>,
}

impl DeepView for CompiledFunc {
    type V = CompiledFuncModel;

    closed spec fn deep_view(&self) -> CompiledFuncModel {
        CompiledFuncModel {
            name: self.name@,
            params: self.params@,
            results: self.results@,
            body: self.body.deep_view(),
        }
    }
}

/// A compiled module. Only `compile` constructs one, so every held
/// function is well formed.
#[derive(Debug)]
pub struct ExecutableArtifact {
    funcs: Vec<CompiledFunc>,
}

#[verifier::ext_equal]
pub ghost struct ArtifactModel {
    pub funcs: Seq<CompiledFuncModel>,
}

impl View for ExecutableArtifact {
    type V = ArtifactModel;

    closed spec fn view(&self) -> ArtifactModel {
        ArtifactModel { funcs: self.funcs.deep_view() }
    }
}

/// The execution width of a type, in bits.
pub open spec fn width_of(t: Ty) -> u32 {
    match t {
        Ty::Int(w) => w,
        Ty::Index => 64u32,
    }
}

pub open spec fn width_ok(t: Ty) -> bool {
    1 <= width_of(t) <= 64
}

pub open spec fn src_of(site: ValueSite) -> Src {
    match site {
        ValueSite::BlockArg(a) => Src::Arg(a),
        ValueSite::OpResult(k, r) => Src::Res(k),
    }
}

/// Whether an operand of the operation at index i can be read at run time:
/// a parameter in range, or the single result of an earlier instruction.
pub open spec fn operand_src_ok(v: Value, nargs: nat, i: int, ops: Seq<OpModel>) -> bool {
    match v.site {
        ValueSite::BlockArg(a) => (a as nat) < nargs,
        ValueSite::OpResult(k, r) => k < i && r == 0 && ops[k as int].result_types.len() == 1,
    }
}

/// Compiles the operation at index i, which must be an executable addition.
pub open spec fn compile_add(ctx: CtxModel, ops: Seq<OpModel>, i: int, nargs: nat) -> Result<
    InstModel,
    CompileError,
> {
    let op = ops[i];
    if op.kind < ctx.kinds.len() && ctx.kinds[op.kind as int].sem == Sem::IAdd
        && op.operands.len() == 2 && op.result_types.len() == 1 && width_ok(op.result_types[0])
        && op.regions.len() == 0 && operand_src_ok(op.operands[0], nargs, i, ops)
        && operand_src_ok(op.operands[1], nargs, i, ops) {
        Result::Ok(
            InstModel::Add {
                a: src_of(op.operands[0].site),
                b: src_of(op.operands[1].site),
                width: width_of(op.result_types[0]),
            },
        )
    } else {
        Result::Err(CompileError::UnsupportedOperation)
    }
}

/// Compiles the first i operations of a block body.
pub open spec fn compile_insts(ctx: CtxModel, ops: Seq<OpModel>, i: int, nargs: nat) -> Result<
    Seq<InstModel>,
    CompileError,
>
    decreases i,
{
    if i <= 0 {
        Result::Ok(Seq::<InstModel>::empty())
    } else {
        match compile_insts(ctx, ops, i - 1, nargs) {
            Result::Ok(prev) => match compile_add(ctx, ops, i - 1, nargs) {
                Result::Ok(inst) => Result::Ok(prev.push(inst)),
                Result::Err(e) => Result::Err(e),
            },
            Result::Err(e) => Result::Err(e),
        }
    }
}

/// Compiles the last operation of a block body, which must be an
/// executable return; yields the return sources and the result types.
pub open spec fn compile_ret(ctx: CtxModel, ops: Seq<OpModel>, nargs: nat) -> Result<(
    Seq<Src>,
    Seq<Ty>,
), CompileError> {
    let i = ops.len() - 1;
    let op = ops[i];
    if op.kind < ctx.kinds.len() && ctx.kinds[op.kind as int].sem == Sem::Ret
        && op.result_types.len() == 0 && op.regions.len() == 0 && (forall|j: int|
        0 <= j < op.operands.len() ==> operand_src_ok(#[trigger] op.operands[j], nargs, i, ops)) {
        Result::Ok(
            (
                op.operands.map_values(|v: Value| src_of(v.site)),
                op.operands.map_values(|v: Value| v.ty),
            ),
        )
    } else {
        Result::Err(CompileError::UnsupportedOperation)
    }
}

/// The first text attribute under the given name, scanning from index i.
pub open spec fn find_text_attr(attrs: Seq<AttrEntryModel>, key: Seq<char>, i: int) -> Option<
    Seq<char>,
>
    decreases attrs.len() - i,
{
    if i < 0 || i >= attrs.len() {
        Option::None
    } else if attrs[i].name == key && attrs[i].value is Text {
        Option::Some(attrs[i].value->Text_0)
    } else {
        find_text_attr(attrs, key, i + 1)
    }
}

/// Compiles one top-level operation, which must be a lowered function
/// definition: one region, one block, a name attribute, additions followed
/// by one return, every type within the backend's widths.
pub open spec fn compile_func(ctx: CtxModel, op: OpModel) -> Result<CompiledFuncModel, CompileError> {
    if op.kind < ctx.kinds.len() && ctx.kinds[op.kind as int].sem == Sem::FuncDef
        && op.regions.len() == 1 && op.regions[0].blocks.len() == 1 && find_text_attr(
        op.attrs,
        "sym_name"@,
        0,
    ) is Some {
        let b = op.regions[0].blocks[0];
        if b.ops.len() >= 1 && (forall|k: int|
            0 <= k < b.arg_types.len() ==> width_ok(#[trigger] b.arg_types[k])) && compile_insts(
            ctx,
            b.ops,
            b.ops.len() - 1,
            b.arg_types.len(),
        ) is Ok && compile_ret(ctx, b.ops, b.arg_types.len()) is Ok {
            let insts = compile_insts(ctx, b.ops, b.ops.len() - 1, b.arg_types.len())->Ok_0;
            let ret = compile_ret(ctx, b.ops, b.arg_types.len())->Ok_0;
            Result::Ok(
                CompiledFuncModel {
                    name: find_text_attr(op.attrs, "sym_name"@, 0)->Some_0,
                    params: b.arg_types,
                    results: ret.1,
                    body: insts.push(InstModel::Ret(ret.0)),
                },
            )
        } else {
            Result::Err(CompileError::UnsupportedOperation)
        }
    } else {
        Result::Err(CompileError::UnsupportedOperation)
    }
}

/// Compiles the first i top-level operations.
pub open spec fn compile_funcs(ctx: CtxModel, body: Seq<OpModel>, i: int) -> Result<
    Seq<CompiledFuncModel>,
    CompileError,
>
    decreases i,
{
    if i <= 0 {
        Result::Ok(Seq::<CompiledFuncModel>::empty())
    } else {
        match compile_funcs(ctx, body, i - 1) {
            Result::Ok(prev) => match compile_func(ctx, body[i - 1]) {
                Result::Ok(f) => Result::Ok(prev.push(f)),
                Result::Err(e) => Result::Err(e),
            },
            Result::Err(e) => Result::Err(e),
        }
    }
}

/// What `compile` yields: every top-level operation compiled in order, or
/// the refusal.
pub open spec fn compile_spec(ctx: CtxModel, m: ModuleModel) -> Result<
    Seq<CompiledFuncModel>,
    CompileError,
> {
    compile_funcs(ctx, m.body, m.body.len() as int)
}

/// Whether a source can be read given the parameter count and the index of
/// the reading instruction.
pub open spec fn src_ok(s: Src, nparams: nat, i: int) -> bool {
    match s {
        Src::Arg(a) => (a as nat) < nparams,
        Src::Res(k) => k < i,
    }
}

/// A compiled function the evaluator can run safely.
pub open spec fn wf_func(f: CompiledFuncModel) -> bool {
    &&& f.body.len() >= 1
    &&& f.body[f.body.len() - 1] is Ret
    &&& f.body[f.body.len() - 1]->Ret_0.len() == f.results.len()
    &&& forall|j: int|
        0 <= j < f.body[f.body.len() - 1]->Ret_0.len() ==> src_ok(
            #[trigger] f.body[f.body.len() - 1]->Ret_0[j],
            f.params.len(),
            f.body.len() - 1,
        )
    &&& forall|i: int|
        0 <= i < f.body.len() - 1 ==> {
            &&& #[trigger] f.body[i] is Add
            &&& src_ok(f.body[i]->Add_a, f.params.len(), i)
            &&& src_ok(f.body[i]->Add_b, f.params.len(), i)
            &&& 1 <= f.body[i]->Add_width <= 64
        }
}

pub open spec fn wf_artifact(a: ArtifactModel) -> bool {
    forall|i: int| 0 <= i < a.funcs.len() ==> wf_func(#[trigger] a.funcs[i])
}

/// Addition wrapping at the given width.
pub open spec fn add_sem(a: u64, b: u64, w: u32) -> u64 {
    ((a as nat + b as nat) % pow2(w as nat)) as u64
}

/// The value a source reads, given the arguments and the values of the
/// earlier instructions.
pub open spec fn src_val(args: Seq<u64>, vals: Seq<u64>, s: Src) -> u64 {
    match s {
        Src::Arg(a) => args[a as int],
        Src::Res(k) => vals[k as int],
    }
}

/// The values produced by the first i instructions.
pub open spec fn eval_insts(f: CompiledFuncModel, args: Seq<u64>, i: int) -> Seq<u64>
    decreases i,
{
    if i <= 0 {
        Seq::<u64>::empty()
    } else {
        let prev = eval_insts(f, args, i - 1);
        match f.body[i - 1] {
            InstModel::Add { a, b, width } => prev.push(
                add_sem(src_val(args, prev, a), src_val(args, prev, b), width),
            ),
            InstModel::Ret(srcs) => prev.push(0u64),
        }
    }
}

/// The returned values of one function applied to the given arguments.
pub open spec fn eval_results(f: CompiledFuncModel, args: Seq<u64>) -> Seq<u64> {
    match f.body[f.body.len() - 1] {
        InstModel::Ret(srcs) => srcs.map_values(
            |s: Src| src_val(args, eval_insts(f, args, f.body.len() - 1), s),
        ),
        InstModel::Add { a, b, width } => Seq::<u64>::empty(),
    }
}

/// The first function of the given name, scanning from index i.
pub open spec fn find_func(funcs: Seq<CompiledFuncModel>, name: Seq<char>, i: int) -> Option<int>
    decreases funcs.len() - i,
{
    if i < 0 || i >= funcs.len() {
        Option::None
    } else if funcs[i].name == name {
        Option::Some(i)
    } else {
        find_func(funcs, name, i + 1)
    }
}

/// What `invoke` does to the slots: the parameter slots stay as given, and
/// the result slots after them are replaced by the function's results.
pub open spec fn invoke_spec(a: ArtifactModel, name: Seq<char>, slots: Seq<u64>) -> Result<
    Seq<u64>,
    InvocationError,
> {
    match find_func(a.funcs, name, 0) {
        Option::None => Result::Err(InvocationError::NotFound),
        Option::Some(fi) => {
            let f = a.funcs[fi];
            if slots.len() != f.params.len() + f.results.len() {
                Result::Err(InvocationError::ArityMismatch)
            } else {
                Result::Ok(
                    slots.take(f.params.len() as int) + eval_results(
                        f,
                        slots.take(f.params.len() as int),
                    ),
                )
            }
        },
    }
}

/// The first i instructions produce i values.
pub proof fn lemma_eval_insts_len(f: CompiledFuncModel, args: Seq<u64>, i: int)
    requires
        i >= 0,
    ensures
        eval_insts(f, args, i).len() == i,
    decreases i,
{
    if i > 0 {
        lemma_eval_insts_len(f, args, i - 1);
    }
}

/// Two to the power of a width, as a 128-bit value.
fn pow2_u128(w: u32) -> (p: u128)
    requires
        w <= 64,
    ensures
        p as nat == pow2(w as nat),
        p >= 1,
{
    proof {
        vstd::arithmetic::power2::lemma2_to64();
        vstd::arithmetic::power::lemma_pow_positive(2, w as nat);
    }
    let mut p: u128 = 1;
    let mut i: u32 = 0;
    while i < w
        invariant
            i <= w <= 64,
            p as nat == pow2(i as nat),
        decreases w - i,
    {
        proof {
            vstd::arithmetic::power2::lemma2_to64();
            vstd::arithmetic::power2::lemma2_to64_rest();
            vstd::arithmetic::power::lemma_pow_increases(
                2,
                (i + 1) as nat,
                64nat,
            );
            assert(pow2((i + 1) as nat) == 2 * pow2(i as nat)) by {
                vstd::arithmetic::power2::lemma_pow2_unfold((i + 1) as nat);
            }
        }
        p = p * 2;
        i = i + 1;
    }
    p
}

/// One wrapping addition at a given width.
fn add_exec(a: u64, b: u64, w: u32) -> (r: u64)
    requires
        1 <= w <= 64,
    ensures
        r == add_sem(a, b, w),
{
    let p = pow2_u128(w);
    let sum: u128 = (a as u128) + (b as u128);
    let m: u128 = sum % p;
    proof {
        vstd::arithmetic::power2::lemma2_to64();
        vstd::arithmetic::power2::lemma2_to64_rest();
        vstd::arithmetic::power::lemma_pow_increases(2, w as nat, 64nat);
        assert(m < p);
    }
    m as u64
}

/// Compiles a module that has been fully lowered (every operation carries
/// executable semantics) into an artifact; refuses anything else. The
/// input is expected to have passed the verifier.
pub fn compile(ctx: &Context, m: &Module) -> (r: Result<ExecutableArtifact, CompileError>)
    ensures
        match r {
            Result::Ok(a) => {
                &&& compile_spec(ctx@, m@) == Result::<Seq<CompiledFuncModel>, CompileError>::Ok(
                    a@.funcs,
                )
                &&& wf_artifact(a@)
            },
            Result::Err(e) => compile_spec(ctx@, m@) == Result::<
                Seq<CompiledFuncModel>,
                CompileError,
            >::Err(e),
        },
{
    let ghost bodym = ops_model(m.body@, m.body@.len() as int);
    proof {
        lemma_ops_model(m.body@, m.body@.len() as int);
    }
    let mut funcs: Vec<CompiledFunc> = Vec::new();
    assert(funcs.deep_view() =~= Seq::<CompiledFuncModel>::empty());
    let mut i: usize = 0;
    while i < m.body.len()
        invariant
            i <= m.body@.len(),
            compile_funcs(ctx@, bodym, i as int) == Result::<
                Seq<CompiledFuncModel>,
                CompileError,
            >::Ok(funcs.deep_view()),
            forall|k: int| 0 <= k < funcs.deep_view().len() ==> wf_func(#[trigger] funcs.deep_view()[k]),
        decreases m.body@.len() - i,
    {
        let ghost before = funcs.deep_view();
        match compile_one(ctx, &m.body[i]) {
            Result::Ok(f) => {
                funcs.push(f);
                assert(funcs.deep_view() =~= before.push(f.deep_view()));
            },
            Result::Err(e) => {
                proof {
                    lemma_compile_funcs_stable(ctx@, bodym, i + 1 as int, bodym.len() as int);
                }
                return Result::Err(e);
            },
        }
        i = i + 1;
    }
    let a = ExecutableArtifact { funcs };
    Result::Ok(a)
}

/// An error while compiling the first i top-level operations persists.
proof fn lemma_compile_funcs_stable(ctx: CtxModel, body: Seq<OpModel>, i: int, j: int)
    requires
        0 <= i <= j,
        compile_funcs(ctx, body, i) is Err,
    ensures
        compile_funcs(ctx, body, j) == compile_funcs(ctx, body, i),
    decreases j - i,
{
    if j > i {
        lemma_compile_funcs_stable(ctx, body, i, j - 1);
    }
}

/// An error while compiling the first i body operations persists.
proof fn lemma_compile_insts_stable(ctx: CtxModel, ops: Seq<OpModel>, nargs: nat, i: int, j: int)
    requires
        0 <= i <= j,
        compile_insts(ctx, ops, i, nargs) is Err,
    ensures
        compile_insts(ctx, ops, j, nargs) == compile_insts(ctx, ops, i, nargs),
    decreases j - i,
{
    if j > i {
        lemma_compile_insts_stable(ctx, ops, nargs, i, j - 1);
    }
}

/// The first text attribute under the given name, with its text.
fn find_text(attrs: &Vec<crate::ir::AttrEntry>, key: &String) -> (r: Option<String>)
    ensures
        match r {
            Option::Some(s) => find_text_attr(attrs.deep_view(), key@, 0) == Option::Some(s@),
            Option::None => find_text_attr(attrs.deep_view(), key@, 0) is None,
        },
{
    let mut i: usize = 0;
    while i < attrs.len()
        invariant
            i <= attrs@.len(),
            find_text_attr(attrs.deep_view(), key@, 0) == find_text_attr(
                attrs.deep_view(),
                key@,
                i as int,
            ),
        decreases attrs@.len() - i,
    {
        if attrs[i].name == *key {
            match &attrs[i].value {
                crate::ir::Attr::Text(s) => {
                    return Option::Some(s.clone());
                },
                _ => {},
            }
        }
        i = i + 1;
    }
    Option::None
}

/// Compiles one top-level operation into one function.
#[verifier::rlimit(100)]
fn compile_one(ctx: &Context, op: &Operation) -> (r: Result<CompiledFunc, CompileError>)
    ensures
        match r {
            Result::Ok(f) => {
                &&& compile_func(ctx@, op_model(*op)) == Result::<
                    CompiledFuncModel,
                    CompileError,
                >::Ok(f.deep_view())
                &&& wf_func(f.deep_view())
            },
            Result::Err(e) => compile_func(ctx@, op_model(*op)) == Result::<
                CompiledFuncModel,
                CompileError,
            >::Err(e),
        },
{
    let ghost opm = op_model(*op);
    proof {
        crate::ir::lemma_regions_model(op.regions@, op.regions@.len() as int);
    }
    if op.kind >= ctx.kinds.len() {
        return Result::Err(CompileError::UnsupportedOperation);
    }
    if !(ctx.kinds[op.kind].sem == Sem::FuncDef) {
        return Result::Err(CompileError::UnsupportedOperation);
    }
    if op.regions.len() != 1 {
        return Result::Err(CompileError::UnsupportedOperation);
    }
    proof {
        crate::ir::lemma_blocks_model(
            op.regions@[0].blocks@,
            op.regions@[0].blocks@.len() as int,
        );
    }
    if op.regions[0].blocks.len() != 1 {
        return Result::Err(CompileError::UnsupportedOperation);
    }
    let key = "sym_name".to_owned();
    let name = match find_text(&op.attrs, &key) {
        Option::Some(s) => s,
        Option::None => {
            return Result::Err(CompileError::UnsupportedOperation);
        },
    };
    let b = &op.regions[0].blocks[0];
    let ghost bm = opm.regions[0].blocks[0];
    proof {
        lemma_ops_model(b.ops@, b.ops@.len() as int);
        assert(bm == crate::ir::block_model(op.regions@[0].blocks@[0]));
    }
    if b.ops.len() == 0 {
        return Result::Err(CompileError::UnsupportedOperation);
    }
    let nargs = b.arg_types.len();
    let mut wi: usize = 0;
    while wi < b.arg_types.len()
        invariant
            wi <= b.arg_types@.len(),
            forall|k: int| 0 <= k < wi ==> width_ok(#[trigger] b.arg_types@[k]),
        decreases b.arg_types@.len() - wi,
    {
        let w = match b.arg_types[wi] {
            Ty::Int(w) => w,
            Ty::Index => 64,
        };
        if w < 1 || w > 64 {
            assert(!width_ok(bm.arg_types[wi as int]));
            return Result::Err(CompileError::UnsupportedOperation);
        }
        wi = wi + 1;
    }
    let ghost opsm = ops_model(b.ops@, b.ops@.len() as int);
    let mut insts: Vec<Inst> = Vec::new();
    assert(insts.deep_view() =~= Seq::<InstModel>::empty());
    let n = b.ops.len();
    let mut i: usize = 0;
    while i < n - 1
        invariant
            i <= n - 1,
            n == b.ops@.len(),
            nargs == b.arg_types@.len(),
            compile_insts(ctx@, opsm, i as int, nargs as nat) == Result::<
                Seq<InstModel>,
                CompileError,
            >::Ok(insts.deep_view()),
            insts.deep_view().len() == i,
            forall|k: int|
                0 <= k < i ==> {
                    &&& #[trigger] insts.deep_view()[k] is Add
                    &&& src_ok(insts.deep_view()[k]->Add_a, nargs as nat, k)
                    &&& src_ok(insts.deep_view()[k]->Add_b, nargs as nat, k)
                    &&& 1 <= insts.deep_view()[k]->Add_width <= 64
                },
        decreases n - 1 - i,
    {
        let o = &b.ops[i];
        let mut ok = o.kind < ctx.kinds.len();
        if ok {
            ok = ctx.kinds[o.kind].sem == Sem::IAdd;
        }
        if ok {
            ok = o.operands.len() == 2 && o.result_types.len() == 1 && o.regions.len() == 0;
        }
        let mut w: u32 = 0;
        if ok {
            w = match o.result_types[0] {
                Ty::Int(ww) => ww,
                Ty::Index => 64,
            };
            ok = 1 <= w && w <= 64;
        }
        let mut sa = Src::Arg(0);
        let mut sb = Src::Arg(0);
        if ok {
            match operand_to_src(&o.operands[0], nargs, i, b) {
                Option::Some(s) => {
                    sa = s;
                },
                Option::None => {
                    ok = false;
                },
            }
        }
        if ok {
            match operand_to_src(&o.operands[1], nargs, i, b) {
                Option::Some(s) => {
                    sb = s;
                },
                Option::None => {
                    ok = false;
                },
            }
        }
        if !ok {
            proof {
                assert(compile_add(ctx@, opsm, i as int, nargs as nat) is Err);
                assert(compile_insts(ctx@, opsm, i + 1 as int, nargs as nat) is Err);
                lemma_compile_insts_stable(
                    ctx@,
                    opsm,
                    nargs as nat,
                    i + 1 as int,
                    opsm.len() - 1,
                );
            }
            return Result::Err(CompileError::UnsupportedOperation);
        }
        let ghost before = insts.deep_view();
        insts.push(Inst::Add { a: sa, b: sb, width: w });
        proof {
            assert(insts.deep_view() =~= before.push(InstModel::Add { a: sa, b: sb, width: w }));
        }
        i = i + 1;
    }
    let o = &b.ops[n - 1];
    let ghost li = n - 1 as int;
    let mut ok = o.kind < ctx.kinds.len();
    if ok {
        ok = ctx.kinds[o.kind].sem == Sem::Ret;
    }
    if ok {
        ok = o.result_types.len() == 0 && o.regions.len() == 0;
    }
    if !ok {
        assert(compile_ret(ctx@, opsm, nargs as nat) is Err);
        return Result::Err(CompileError::UnsupportedOperation);
    }
    let mut srcs: Vec<Src> = Vec::new();
    let mut rtys: Vec<Ty> = Vec::new();
    let mut j: usize = 0;
    while j < o.operands.len()
        invariant
            j <= o.operands@.len(),
            n == b.ops@.len(),
            n >= 1,
            nargs == b.arg_types@.len(),
            srcs@.len() == j,
            rtys@.len() == j,
            forall|k: int|
                0 <= k < j ==> {
                    &&& operand_src_ok(#[trigger] o.operands@[k], nargs as nat, n - 1, opsm)
                    &&& srcs@[k] == src_of(o.operands@[k].site)
                    &&& rtys@[k] == o.operands@[k].ty
                },
        decreases o.operands@.len() - j,
    {
        match operand_to_src(&o.operands[j], nargs, n - 1, b) {
            Option::Some(s) => {
                srcs.push(s);
                rtys.push(o.operands[j].ty);
            },
            Option::None => {
                assert(!operand_src_ok(o.operands@[j as int], nargs as nat, n - 1, opsm));
                assert(compile_ret(ctx@, opsm, nargs as nat) is Err);
                return Result::Err(CompileError::UnsupportedOperation);
            },
        }
        j = j + 1;
    }
    let nsrcs = srcs.len();
    insts.push(Inst::Ret(srcs));
    let f = CompiledFunc {
        name,
        params: crate::ir::copy_tys(&b.arg_types),
        results: rtys,
        body: insts,
    };
    proof {
        let spec_ret = compile_ret(ctx@, opsm, nargs as nat);
        assert(spec_ret is Ok);
        assert(spec_ret->Ok_0.0 =~= f.deep_view().body[f.deep_view().body.len() - 1]->Ret_0);
        assert(spec_ret->Ok_0.1 =~= f.deep_view().results);
        assert(compile_func(ctx@, opm) is Ok);
        assert(compile_func(ctx@, opm)->Ok_0 =~~= f.deep_view());
        assert(wf_func(f.deep_view()));
    }
    Result::Ok(f)
}

/// Turns a checked operand of the operation at index i into a source.
fn operand_to_src(v: &Value, nargs: usize, i: usize, b: &crate::ir::Block) -> (r: Option<Src>)
    requires
        nargs == b.arg_types@.len(),
        i < b.ops@.len(),
    ensures
        ({
            let opsm = ops_model(b.ops@, b.ops@.len() as int);
            match r {
                Option::Some(s) => operand_src_ok(*v, nargs as nat, i as int, opsm) && s == src_of(
                    v.site,
                ),
                Option::None => !operand_src_ok(*v, nargs as nat, i as int, opsm),
            }
        }),
{
    proof {
        lemma_ops_model(b.ops@, b.ops@.len() as int);
    }
    match v.site {
        ValueSite::BlockArg(a) => {
            if a < nargs {
                Option::Some(Src::Arg(a))
            } else {
                Option::None
            }
        },
        ValueSite::OpResult(k, r) => {
            if k < i && r == 0 && b.ops[k].result_types.len() == 1 {
                Option::Some(Src::Res(k))
            } else {
                Option::None
            }
        },
    }
}

/// Invokes a compiled function by name on packed argument and result
/// slots: parameter slots first, result slots appended after them, as
/// declared. On success the parameter slots are unchanged and the result
/// slots hold the function's results; on failure the slots are untouched.
pub fn invoke(artifact: &ExecutableArtifact, name: &String, slots: &mut Vec<u64>) -> (r: Result<
    (),
    InvocationError,
>)
    requires
        wf_artifact(artifact@),
    ensures
        match r {
            Result::Ok(u) => invoke_spec(artifact@, name@, old(slots)@) == Result::<
                Seq<u64>,
                InvocationError,
            >::Ok(final(slots)@),
            Result::Err(e) => {
                &&& invoke_spec(artifact@, name@, old(slots)@) == Result::<
                    Seq<u64>,
                    InvocationError,
                >::Err(e)
                &&& final(slots)@ == old(slots)@
            },
        },
{
    let mut fi: usize = 0;
    let nf = artifact.funcs.len();
    while fi < nf
        invariant
            fi <= nf,
            nf == artifact@.funcs.len(),
            wf_artifact(artifact@),
            slots@ == old(slots)@,
            find_func(artifact@.funcs, name@, 0) == find_func(artifact@.funcs, name@, fi as int),
        decreases nf - fi,
    {
        if artifact.funcs[fi].name == *name {
            let f = &artifact.funcs[fi];
            let ghost fm = artifact@.funcs[fi as int];
            let np = f.params.len();
            let nr = f.results.len();
            if !(slots.len() >= np && slots.len() - np == nr) {
                return Result::Err(InvocationError::ArityMismatch);
            }
            let ghost args = slots@.take(np as int);
            proof {
                lemma_eval_insts_len(fm, args, fm.body.len() - 1);
            }
            let nb = f.body.len();
            let mut vals: Vec<u64> = Vec::new();
            let mut i: usize = 0;
            while i < nb - 1
                invariant
                    i <= nb - 1,
                    nb == fm.body.len(),
                    nb >= 1,
                    wf_func(fm),
                    np == fm.params.len(),
                    np + nr == slots@.len(),
                    slots@ == old(slots)@,
                    args == slots@.take(np as int),
                    fm == artifact@.funcs[fi as int],
                    fi < artifact@.funcs.len(),
                    f.deep_view() == fm,
                    vals@ == eval_insts(fm, args, i as int),
                decreases nb - 1 - i,
            {
                proof {
                    lemma_eval_insts_len(fm, args, i as int);
                }
                let (va, vb, w) = match &f.body[i] {
                    Inst::Add { a, b, width } => {
                        let va = read_src(slots, &vals, *a, np);
                        let vb = read_src(slots, &vals, *b, np);
                        (va, vb, *width)
                    },
                    Inst::Ret(_) => {
                        proof {
                            assert(fm.body[i as int] is Add);
                        }
                        (0, 0, 1)
                    },
                };
                let r = add_exec(va, vb, w);
                vals.push(r);
                assert(vals@ =~= eval_insts(fm, args, i + 1 as int));
                i = i + 1;
            }
            let mut results: Vec<u64> = Vec::new();
            match &f.body[nb - 1] {
                Inst::Ret(srcs) => {
                    let mut j: usize = 0;
                    while j < srcs.len()
                        invariant
                            j <= srcs@.len(),
                            nb == fm.body.len(),
                            nb >= 1,
                            wf_func(fm),
                            np == fm.params.len(),
                            np + nr == slots@.len(),
                            slots@ == old(slots)@,
                            args == slots@.take(np as int),
                            fm == artifact@.funcs[fi as int],
                            fm.body[nb - 1] == InstModel::Ret(srcs@),
                            vals@ == eval_insts(fm, args, nb - 1),
                            results@.len() == j,
                            forall|k: int|
                                0 <= k < j ==> results@[k] == src_val(args, vals@, srcs@[k]),
                        decreases srcs@.len() - j,
                    {
                        let v = read_src(slots, &vals, srcs[j], np);
                        results.push(v);
                        j = j + 1;
                    }
                    proof {
                        assert(results@ =~= eval_results(fm, args));
                    }
                },
                Inst::Add { a, b, width } => {
                    proof {
                        assert(fm.body[nb - 1] is Ret);
                    }
                },
            }
            slots.truncate(np);
            proof {
                assert(slots@ =~= args);
            }
            let mut j: usize = 0;
            while j < results.len()
                invariant
                    j <= results@.len(),
                    slots@ == args + results@.subrange(0, j as int),
                decreases results@.len() - j,
            {
                slots.push(results[j]);
                assert(slots@ =~= args + results@.subrange(0, j + 1 as int));
                j = j + 1;
            }
            proof {
                assert(results@.subrange(0, results@.len() as int) =~= results@);
                assert(slots@ =~= args + eval_results(fm, args));
            }
            return Result::Ok(());
        }
        fi = fi + 1;
    }
    Result::Err(InvocationError::NotFound)
}

/// Reads one source: a parameter slot or an earlier instruction's value.
fn read_src(slots: &Vec<u64>, vals: &Vec<u64>, s: Src, np: usize) -> (r: u64)
    requires
        np <= slots@.len(),
        src_ok(s, np as nat, vals@.len() as int),
    ensures
        r == src_val(slots@.take(np as int), vals@, s),
{
    match s {
        Src::Arg(a) => slots[a],
        Src::Res(k) => vals[k],
    }
}

} // verus!
