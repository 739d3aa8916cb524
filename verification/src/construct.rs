//! Construction of IR nodes: generic operation creation checked against the
//! kind registry, and the container builders for blocks, regions and
//! modules.

use vstd::prelude::*;
use crate::context::{
    arity_matches, all_same_ty, kind_accepts, operand_result_tys, Context, CtxModel, KIND_FUNC,
    KIND_RETURN, func_func_decl, func_return_decl,
};
use crate::ir::{
    lemma_blocks_model_push, lemma_ops_model, lemma_ops_model_push, lemma_regions_model,
    regions_model, Attr, AttrEntry, AttrEntryModel, AttrModel, Block, BlockModel, Location,
    Module, ModuleModel, OpModel, Operation, Region, RegionModel, Ty, Value, ValueSite,
};

verus! {

/// A construction-time contract violation; these are programmer errors and
/// are not retried.
#[derive(Clone, Copy, PartialEq, Eq, Structural, Debug)]
pub enum BuildError {
    /// The kind tag is not registered in the context.
    UnknownKind,
    /// The operand or result count differs from the declared arity.
    ArityMismatch { expected: usize, found: usize },
    /// A uniform kind was given differing operand or result types.
    TypeMismatch,
    /// An argument or result index is out of range.
    OutOfRange,
}

/// Whether `create_operation` accepts this request.
pub open spec fn create_ok(
    ctx: CtxModel,
    kind: usize,
    operands: Seq<Value>,
    result_types: Seq<Ty>,
) -> bool {
    kind < ctx.kinds.len() && kind_accepts(ctx.kinds[kind as int], operands, result_types)
}

pub open spec fn declared_count(declared: Option<usize>) -> usize {
    match declared {
        Option::Some(n) => n,
        Option::None => 0,
    }
}

/// The error `create_operation` reports when it refuses a request.
pub open spec fn create_error(
    ctx: CtxModel,
    kind: usize,
    operands: Seq<Value>,
    result_types: Seq<Ty>,
) -> BuildError {
    if kind >= ctx.kinds.len() {
        BuildError::UnknownKind
    } else if !arity_matches(ctx.kinds[kind as int].n_operands, operands.len()) {
        BuildError::ArityMismatch {
            expected: declared_count(ctx.kinds[kind as int].n_operands),
            found: operands.len() as usize,
        }
    } else if !arity_matches(ctx.kinds[kind as int].n_results, result_types.len()) {
        BuildError::ArityMismatch {
            expected: declared_count(ctx.kinds[kind as int].n_results),
            found: result_types.len() as usize,
        }
    } else {
        BuildError::TypeMismatch
    }
}

/// Creates a detached operation after checking it against its kind's
/// declaration: both arities must match and, for a uniform kind, every
/// operand and result type must be one and the same. The operation is a
/// valid standalone object until appended into a block.
pub fn create_operation(
    ctx: &Context,
    kind: usize,
    operands: Vec<Value>,
    result_types: Vec<Ty>,
    attrs: Vec<AttrEntry>,
    regions: Vec<Region>,
    location: Location,
) -> (r: Result<Operation, BuildError>)
    ensures
        match r {
            Result::Ok(op) => {
                &&& create_ok(ctx@, kind, operands@, result_types@)
                &&& op@ == (OpModel {
                    kind,
                    operands: operands@,
                    result_types: result_types@,
                    attrs: attrs.deep_view(),
                    regions: regions_model(regions@, regions@.len() as int),
                    location,
                })
            },
            Result::Err(e) => {
                &&& !create_ok(ctx@, kind, operands@, result_types@)
                &&& e == create_error(ctx@, kind, operands@, result_types@)
            },
        },
{
    if kind >= ctx.kinds.len() {
        return Result::Err(BuildError::UnknownKind);
    }
    let decl = &ctx.kinds[kind];
    match decl.n_operands {
        Option::Some(n) => {
            if operands.len() != n {
                return Result::Err(
                    BuildError::ArityMismatch { expected: n, found: operands.len() },
                );
            }
        },
        Option::None => {},
    }
    match decl.n_results {
        Option::Some(n) => {
            if result_types.len() != n {
                return Result::Err(
                    BuildError::ArityMismatch { expected: n, found: result_types.len() },
                );
            }
        },
        Option::None => {},
    }
    let ghost tys = operand_result_tys(operands@, result_types@);
    proof {
        crate::context::lemma_operand_result_tys(operands@, result_types@);
    }
    if decl.uniform && (operands.len() > 0 || result_types.len() > 0) {
        let t: Ty = if operands.len() > 0 {
            operands[0].ty
        } else {
            result_types[0]
        };
        assert(tys[0] == t);
        let mut i: usize = 0;
        while i < operands.len()
            invariant
                i <= operands@.len(),
                forall|k: int| 0 <= k < i ==> operands@[k].ty == t,
            decreases operands@.len() - i,
        {
            if !(operands[i].ty == t) {
                assert(tys[i as int] != tys[0]);
                assert(!all_same_ty(tys));
                return Result::Err(BuildError::TypeMismatch);
            }
            i = i + 1;
        }
        let mut j: usize = 0;
        while j < result_types.len()
            invariant
                j <= result_types@.len(),
                forall|k: int| 0 <= k < j ==> result_types@[k] == t,
            decreases result_types@.len() - j,
        {
            if !(result_types[j] == t) {
                assert(tys[operands@.len() + j as int] != tys[0]);
                assert(!all_same_ty(tys));
                return Result::Err(BuildError::TypeMismatch);
            }
            j = j + 1;
        }
        proof {
            assert forall|a: int| 0 <= a < tys.len() implies tys[a] == t by {
                if a < operands@.len() {
                    assert(tys[a] == operands@[a].ty);
                }
            }
            assert(all_same_ty(tys));
        }
    }
    let op = Operation { kind, operands, result_types, attrs, regions, location };
    Result::Ok(op)
}

/// The operation `Module::add_binary_op` appends: a function definition
/// carrying name and signature attributes and one region with one block,
/// whose body applies the binary kind to the block's two arguments and
/// returns the result.
pub open spec fn binary_func_op(name: Seq<char>, kind: usize, ty: Ty, loc: Location) -> OpModel {
    OpModel {
        kind: KIND_FUNC,
        operands: Seq::<Value>::empty(),
        result_types: Seq::<Ty>::empty(),
        attrs: seq![
            AttrEntryModel { name: "sym_name"@, value: AttrModel::Text(name) },
            AttrEntryModel {
                name: "function_type"@,
                value: AttrModel::FnTy(seq![ty, ty], seq![ty]),
            },
        ],
        regions: seq![
            RegionModel {
                blocks: seq![
                    BlockModel {
                        arg_types: seq![ty, ty],
                        ops: seq![
                            OpModel {
                                kind,
                                operands: seq![
                                    Value { site: ValueSite::BlockArg(0), ty },
                                    Value { site: ValueSite::BlockArg(1), ty },
                                ],
                                result_types: seq![ty],
                                attrs: Seq::<AttrEntryModel>::empty(),
                                regions: Seq::<RegionModel>::empty(),
                                location: loc,
                            },
                            OpModel {
                                kind: KIND_RETURN,
                                operands: seq![Value { site: ValueSite::OpResult(0, 0), ty }],
                                result_types: Seq::<Ty>::empty(),
                                attrs: Seq::<AttrEntryModel>::empty(),
                                regions: Seq::<RegionModel>::empty(),
                                location: loc,
                            },
                        ],
                    },
                ],
            },
        ],
        location: loc,
    }
}

impl Block {
    /// An empty block whose arguments are fresh values of the given types.
    pub fn new(arg_types: Vec<Ty>) -> (b: Block)
        ensures
            b@ == (BlockModel { arg_types: arg_types@, ops: Seq::<OpModel>::empty() }),
    {
        Block { arg_types, ops: Vec::new() }
    }

    /// The i-th block-argument value.
    pub fn argument(&self, i: usize) -> (r: Result<Value, BuildError>)
        ensures
            match r {
                Result::Ok(v) => i < self@.arg_types.len() && v == (Value {
                    site: ValueSite::BlockArg(i),
                    ty: self@.arg_types[i as int],
                }),
                Result::Err(e) => i >= self@.arg_types.len() && e == BuildError::OutOfRange,
            },
    {
        if i < self.arg_types.len() {
            Result::Ok(Value { site: ValueSite::BlockArg(i), ty: self.arg_types[i] })
        } else {
            Result::Err(BuildError::OutOfRange)
        }
    }

    /// Appends a detached operation as the block's new last operation,
    /// transferring ownership to the block, and returns its index. Rust's
    /// move semantics make double ownership impossible here, so this cannot
    /// fail.
    pub fn append_operation(&mut self, op: Operation) -> (idx: usize)
        ensures
            idx == old(self)@.ops.len(),
            final(self)@.arg_types == old(self)@.arg_types,
            final(self)@.ops == old(self)@.ops.push(op@),
    {
        let idx = self.ops.len();
        proof {
            lemma_ops_model(self.ops@, self.ops@.len() as int);
            lemma_ops_model_push(self.ops@, op);
        }
        self.ops.push(op);
        idx
    }

    /// The i-th result value of the operation at the given index.
    pub fn op_result(&self, op_idx: usize, i: usize) -> (r: Result<Value, BuildError>)
        ensures
            match r {
                Result::Ok(v) => {
                    &&& op_idx < self@.ops.len()
                    &&& i < self@.ops[op_idx as int].result_types.len()
                    &&& v == (Value {
                        site: ValueSite::OpResult(op_idx, i),
                        ty: self@.ops[op_idx as int].result_types[i as int],
                    })
                },
                Result::Err(e) => {
                    &&& !(op_idx < self@.ops.len() && i < self@.ops[op_idx as int].result_types.len())
                    &&& e == BuildError::OutOfRange
                },
            },
    {
        proof {
            lemma_ops_model(self.ops@, self.ops@.len() as int);
        }
        if op_idx < self.ops.len() && i < self.ops[op_idx].result_types.len() {
            Result::Ok(
                Value {
                    site: ValueSite::OpResult(op_idx, i),
                    ty: self.ops[op_idx].result_types[i],
                },
            )
        } else {
            Result::Err(BuildError::OutOfRange)
        }
    }
}

impl Region {
    /// An empty region.
    pub fn new() -> (r: Region)
        ensures
            r@ == (RegionModel { blocks: Seq::<BlockModel>::empty() }),
    {
        Region { blocks: Vec::new() }
    }

    /// Appends a block, transferring ownership to the region.
    pub fn append_block(&mut self, b: Block)
        ensures
            final(self)@.blocks == old(self)@.blocks.push(b@),
    {
        proof {
            lemma_blocks_model_push(self.blocks@, b);
        }
        self.blocks.push(b);
    }
}

impl Module {
    /// An empty module.
    pub fn new(location: Location) -> (m: Module)
        ensures
            m@ == (ModuleModel { body: Seq::<OpModel>::empty(), location }),
    {
        Module { body: Vec::new(), location }
    }

    /// Appends to the module a function definition named `name` whose
    /// single-block body applies one binary operation of the given kind to
    /// the block's two arguments and returns the result through the
    /// high-level return terminator.
    pub fn add_binary_op(&mut self, ctx: &Context, name: &str, kind: usize, ty: Ty)
        requires
            KIND_RETURN < ctx@.kinds.len(),
            ctx@.kinds[KIND_FUNC as int] == func_func_decl(),
            ctx@.kinds[KIND_RETURN as int] == func_return_decl(),
            kind < ctx@.kinds.len(),
            ctx@.kinds[kind as int].n_operands == Option::<usize>::Some(2),
            ctx@.kinds[kind as int].n_results == Option::<usize>::Some(1),
        ensures
            final(self)@.location == old(self)@.location,
            final(self)@.body == old(self)@.body.push(
                binary_func_op(name@, kind, ty, old(self)@.location),
            ),
    {
        let loc = self.location;
        let mut block = Block::new(vec![ty, ty]);
        let a0 = block.argument(0).unwrap();
        let a1 = block.argument(1).unwrap();
        let ghost bin_operands = seq![a0, a1];
        proof {
            crate::context::lemma_operand_result_tys(bin_operands, seq![ty]);
            assert(a0.ty == ty);
            assert(a1.ty == ty);
            assert(all_same_ty(operand_result_tys(bin_operands, seq![ty]))) by {
                crate::context::lemma_operand_result_tys(bin_operands, seq![ty]);
            }
        }
        let bin = create_operation(
            ctx,
            kind,
            vec![a0, a1],
            vec![ty],
            Vec::new(),
            Vec::new(),
            loc,
        ).unwrap();
        let idx = block.append_operation(bin);
        let res = block.op_result(idx, 0).unwrap();
        let term = create_operation(
            ctx,
            KIND_RETURN,
            vec![res],
            Vec::new(),
            Vec::new(),
            Vec::new(),
            loc,
        ).unwrap();
        block.append_operation(term);
        let mut region = Region::new();
        region.append_block(block);
        let mut attrs: Vec<AttrEntry> = Vec::new();
        attrs.push(AttrEntry { name: "sym_name".to_owned(), value: Attr::Text(name.to_owned()) });
        attrs.push(
            AttrEntry {
                name: "function_type".to_owned(),
                value: Attr::FnTy(vec![ty, ty], vec![ty]),
            },
        );
        let regions = vec![region];
        let ghost regions_view = regions@;
        let func_op = create_operation(
            ctx,
            KIND_FUNC,
            Vec::new(),
            Vec::new(),
            attrs,
            regions,
            loc,
        ).unwrap();
        proof {
            lemma_regions_model(regions_view, 1);
            assert(func_op@.regions =~= seq![region@]);
            let target = binary_func_op(name@, kind, ty, loc);
            assert(func_op@.attrs =~~= target.attrs);
            assert(region@.blocks.len() == 1);
            let bm = region@.blocks[0];
            let tm = target.regions[0].blocks[0];
            assert(bm.arg_types =~= tm.arg_types);
            assert(bm.ops.len() == 2);
            assert(bm.ops[0] =~~= tm.ops[0]);
            assert(bm.ops[1] =~~= tm.ops[1]);
            assert(bm.ops =~~= tm.ops);
            assert(bm =~~= tm);
            assert(region@ =~~= target.regions[0]);
            assert(func_op@.regions =~~= target.regions);
            assert(func_op@.operands =~= Seq::<Value>::empty());
            assert(func_op@.result_types =~= Seq::<Ty>::empty());
            assert(func_op@ =~~= binary_func_op(name@, kind, ty, loc));
        }
        self.append_operation(func_op);
    }

    /// Appends a top-level operation, transferring ownership to the module.
    pub fn append_operation(&mut self, op: Operation) -> (idx: usize)
        ensures
            idx == old(self)@.body.len(),
            final(self)@.location == old(self)@.location,
            final(self)@.body == old(self)@.body.push(op@),
    {
        let idx = self.body.len();
        proof {
            lemma_ops_model(self.body@, self.body@.len() as int);
            lemma_ops_model_push(self.body@, op);
        }
        self.body.push(op);
        idx
    }
}

} // verus!
