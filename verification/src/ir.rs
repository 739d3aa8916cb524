//! The IR data model: types, attributes, values, operations, blocks,
//! regions, modules, and the context that registers operation kinds.

use vstd::prelude::*;

verus! {

/// A value type: a fixed-width integer or the platform-width index type.
/// Types are plain interned values; two requests for the same shape compare
/// equal structurally.
#[derive(Clone, Copy, PartialEq, Eq, Structural, Debug)]
pub enum Ty {
    Int(u32),
    Index,
}

/// A source location for diagnostics. Every operation carries one, even if
/// it is unknown.
#[derive(Clone, Copy, PartialEq, Eq, Structural, Debug)]
pub enum Location {
    Unknown,
    LineCol { line: u64, col: u64 },
}

/// The defining site of a value: an argument of the enclosing block, or the
/// r-th result of the operation at a given index earlier in the same block.
#[derive(Clone, Copy, PartialEq, Eq, Structural, Debug)]
pub enum ValueSite {
    BlockArg(usize),
    OpResult(usize, usize),
}

/// An SSA value: one defining site and one fixed type for its whole
/// lifetime. The verifier checks that the recorded type agrees with the
/// type at the defining site.
#[derive(Clone, Copy, PartialEq, Eq, Structural, Debug)]
pub struct Value {
    pub site: ValueSite,
    pub ty: Ty,
}

/// An immutable attribute value attachable to an operation under a named
/// slot: an integer, a type, a byte string, or a function signature.
#[derive(Debug, PartialEq)]
pub enum Attr {
    Int(u64),
    TypeAttr(Ty),
    Text(String),
    FnTy(Vec<Ty>, Vec<Ty>),
}

/// The mathematical model of an attribute.
#[verifier::ext_equal]
pub ghost enum AttrModel {
    Int(u64),
    TypeAttr(Ty),
    Text(Seq<char>),
    FnTy(Seq<Ty>, Seq<Ty>),
}

impl DeepView for Attr {
    type V = AttrModel;

    open spec fn deep_view(&self) -> AttrModel {
        match self {
            Attr::Int(n) => AttrModel::Int(*n),
            Attr::TypeAttr(t) => AttrModel::TypeAttr(*t),
            Attr::Text(s) => AttrModel::Text(s@),
            Attr::FnTy(ps, rs) => AttrModel::FnTy(ps@, rs@),
        }
    }
}

/// A named attribute slot.
#[derive(Debug, PartialEq)]
pub struct AttrEntry {
    pub name: String,
    pub value: Attr,
}

#[verifier::ext_equal]
pub ghost struct AttrEntryModel {
    pub name: Seq<char>,
    pub value: AttrModel,
}

impl DeepView for AttrEntry {
    type V = AttrEntryModel;

    open spec fn deep_view(&self) -> AttrEntryModel {
        AttrEntryModel { name: self.name@, value: self.value.deep_view() }
    }
}

/// One unit of computation: a kind tag into the context's registry, ordered
/// typed operands, ordered result types, named attributes, owned nested
/// regions, and a source location.
#[derive(Debug, PartialEq)]
pub struct Operation {
    pub kind: usize,
    pub operands: Vec<Value>,
    pub result_types: Vec<Ty>,
    pub attrs: Vec<AttrEntry>,
    pub regions: Vec<Region>,
    pub location: Location,
}

/// An ordered sequence of owned operations with typed block arguments.
/// The last operation of a non-empty block must be a terminator; the
/// verifier enforces this.
#[derive(Debug, PartialEq)]
pub struct Block {
    pub arg_types: Vec<Ty>,
    pub ops: Vec<Operation>,
}

/// An ordered sequence of owned blocks, owned by exactly one operation.
#[derive(Debug, PartialEq)]
pub struct Region {
    pub blocks: Vec<Block>,
}

/// The root container: a sequence of top-level operations (conventionally
/// function definitions) in an implicit argument-less block.
#[derive(Debug, PartialEq)]
pub struct Module {
    pub body: Vec<Operation>,
    pub location: Location,
}

#[verifier::ext_equal]
pub ghost struct OpModel {
    pub kind: usize,
    pub operands: Seq<Value>,
    pub result_types: Seq<Ty>,
    pub attrs: Seq<AttrEntryModel>,
    pub regions: Seq<RegionModel>,
    pub location: Location,
}

#[verifier::ext_equal]
pub ghost struct BlockModel {
    pub arg_types: Seq<Ty>,
    pub ops: Seq<OpModel>,
}

#[verifier::ext_equal]
pub ghost struct RegionModel {
    pub blocks: Seq<BlockModel>,
}

#[verifier::ext_equal]
pub ghost struct ModuleModel {
    pub body: Seq<OpModel>,
    pub location: Location,
}

pub open spec fn op_model(op: Operation) -> OpModel
    decreases op, 2int, 0int,
{
    OpModel {
        kind: op.kind,
        operands: op.operands@,
        result_types: op.result_types@,
        attrs: op.attrs.deep_view(),
        regions: regions_model(op.regions@, op.regions@.len() as int),
        location: op.location,
    }
}

pub open spec fn ops_model(ops: Seq<Operation>, n: int) -> Seq<OpModel>
    decreases ops, 1int, n,
{
    if n <= 0 || n > ops.len() {
        Seq::empty()
    } else {
        ops_model(ops, n - 1).push(op_model(ops[n - 1]))
    }
}

pub open spec fn region_model(r: Region) -> RegionModel
    decreases r, 2int, 0int,
{
    RegionModel { blocks: blocks_model(r.blocks@, r.blocks@.len() as int) }
}

pub open spec fn regions_model(rs: Seq<Region>, n: int) -> Seq<RegionModel>
    decreases rs, 1int, n,
{
    if n <= 0 || n > rs.len() {
        Seq::empty()
    } else {
        regions_model(rs, n - 1).push(region_model(rs[n - 1]))
    }
}

pub open spec fn block_model(b: Block) -> BlockModel
    decreases b, 2int, 0int,
{
    BlockModel { arg_types: b.arg_types@, ops: ops_model(b.ops@, b.ops@.len() as int) }
}

pub open spec fn blocks_model(bs: Seq<Block>, n: int) -> Seq<BlockModel>
    decreases bs, 1int, n,
{
    if n <= 0 || n > bs.len() {
        Seq::empty()
    } else {
        blocks_model(bs, n - 1).push(block_model(bs[n - 1]))
    }
}

pub open spec fn module_model(m: Module) -> ModuleModel {
    ModuleModel { body: ops_model(m.body@, m.body@.len() as int), location: m.location }
}

impl View for Operation {
    type V = OpModel;

    open spec fn view(&self) -> OpModel {
        op_model(*self)
    }
}

impl View for Block {
    type V = BlockModel;

    open spec fn view(&self) -> BlockModel {
        block_model(*self)
    }
}

impl View for Region {
    type V = RegionModel;

    open spec fn view(&self) -> RegionModel {
        region_model(*self)
    }
}

impl View for Module {
    type V = ModuleModel;

    open spec fn view(&self) -> ModuleModel {
        module_model(*self)
    }
}

/// The model of a sequence of operations is the sequence of their models.
pub proof fn lemma_ops_model(ops: Seq<Operation>, n: int)
    requires
        0 <= n <= ops.len(),
    ensures
        ops_model(ops, n).len() == n,
        forall|i: int| 0 <= i < n ==> ops_model(ops, n)[i] == op_model(ops[i]),
    decreases n,
{
    if n > 0 {
        lemma_ops_model(ops, n - 1);
    }
}

/// The model of a sequence of regions is the sequence of their models.
pub proof fn lemma_regions_model(rs: Seq<Region>, n: int)
    requires
        0 <= n <= rs.len(),
    ensures
        regions_model(rs, n).len() == n,
        forall|i: int| 0 <= i < n ==> regions_model(rs, n)[i] == region_model(rs[i]),
    decreases n,
{
    if n > 0 {
        lemma_regions_model(rs, n - 1);
    }
}

/// The model of a sequence of blocks is the sequence of their models.
pub proof fn lemma_blocks_model(bs: Seq<Block>, n: int)
    requires
        0 <= n <= bs.len(),
    ensures
        blocks_model(bs, n).len() == n,
        forall|i: int| 0 <= i < n ==> blocks_model(bs, n)[i] == block_model(bs[i]),
    decreases n,
{
    if n > 0 {
        lemma_blocks_model(bs, n - 1);
    }
}

/// The model of a sequence of operations depends only on its first n
/// elements.
pub proof fn lemma_ops_model_prefix(s1: Seq<Operation>, s2: Seq<Operation>, n: int)
    requires
        0 <= n <= s1.len(),
        n <= s2.len(),
        forall|i: int| 0 <= i < n ==> s1[i] == s2[i],
    ensures
        ops_model(s1, n) == ops_model(s2, n),
    decreases n,
{
    if n > 0 {
        lemma_ops_model_prefix(s1, s2, n - 1);
    }
}

/// Appending an operation appends its model.
pub proof fn lemma_ops_model_push(s: Seq<Operation>, x: Operation)
    ensures
        ops_model(s.push(x), s.len() as int + 1) == ops_model(s, s.len() as int).push(op_model(x)),
{
    lemma_ops_model_prefix(s.push(x), s, s.len() as int);
    assert(s.push(x)[s.len() as int] == x);
}

/// The model of a sequence of blocks depends only on its first n elements.
pub proof fn lemma_blocks_model_prefix(s1: Seq<Block>, s2: Seq<Block>, n: int)
    requires
        0 <= n <= s1.len(),
        n <= s2.len(),
        forall|i: int| 0 <= i < n ==> s1[i] == s2[i],
    ensures
        blocks_model(s1, n) == blocks_model(s2, n),
    decreases n,
{
    if n > 0 {
        lemma_blocks_model_prefix(s1, s2, n - 1);
    }
}

/// The model of a sequence of regions depends only on its first n elements.
pub proof fn lemma_regions_model_prefix(s1: Seq<Region>, s2: Seq<Region>, n: int)
    requires
        0 <= n <= s1.len(),
        n <= s2.len(),
        forall|i: int| 0 <= i < n ==> s1[i] == s2[i],
    ensures
        regions_model(s1, n) == regions_model(s2, n),
    decreases n,
{
    if n > 0 {
        lemma_regions_model_prefix(s1, s2, n - 1);
    }
}

/// Appending a region appends its model.
pub proof fn lemma_regions_model_push(s: Seq<Region>, x: Region)
    ensures
        regions_model(s.push(x), s.len() as int + 1) == regions_model(s, s.len() as int).push(
            region_model(x),
        ),
{
    lemma_regions_model_prefix(s.push(x), s, s.len() as int);
    assert(s.push(x)[s.len() as int] == x);
}

/// Appending a block appends its model.
pub proof fn lemma_blocks_model_push(s: Seq<Block>, x: Block)
    ensures
        blocks_model(s.push(x), s.len() as int + 1) == blocks_model(s, s.len() as int).push(
            block_model(x),
        ),
{
    lemma_blocks_model_prefix(s.push(x), s, s.len() as int);
    assert(s.push(x)[s.len() as int] == x);
}

/// A fresh vector with the same values.
pub fn copy_values(v: &Vec<Value>) -> (r: Vec<Value>)
    ensures
        r@ == v@,
{
    let mut r: Vec<Value> = Vec::new();
    let mut i: usize = 0;
    while i < v.len()
        invariant
            i <= v@.len(),
            r@ == v@.subrange(0, i as int),
        decreases v@.len() - i,
    {
        r.push(v[i]);
        assert(r@ =~= v@.subrange(0, i + 1 as int));
        i = i + 1;
    }
    assert(r@ =~= v@);
    r
}

/// A fresh vector with the same types.
pub fn copy_tys(v: &Vec<Ty>) -> (r: Vec<Ty>)
    ensures
        r@ == v@,
{
    let mut r: Vec<Ty> = Vec::new();
    let mut i: usize = 0;
    while i < v.len()
        invariant
            i <= v@.len(),
            r@ == v@.subrange(0, i as int),
        decreases v@.len() - i,
    {
        r.push(v[i]);
        assert(r@ =~= v@.subrange(0, i + 1 as int));
        i = i + 1;
    }
    assert(r@ =~= v@);
    r
}

/// A fresh attribute with the same model.
pub fn copy_attr(a: &Attr) -> (r: Attr)
    ensures
        r.deep_view() == a.deep_view(),
{
    match a {
        Attr::Int(n) => Attr::Int(*n),
        Attr::TypeAttr(t) => Attr::TypeAttr(*t),
        Attr::Text(s) => Attr::Text(s.clone()),
        Attr::FnTy(ps, rs) => Attr::FnTy(copy_tys(ps), copy_tys(rs)),
    }
}

/// A fresh attribute list with the same model.
pub fn copy_attrs(v: &Vec<AttrEntry>) -> (r: Vec<AttrEntry>)
    ensures
        r.deep_view() == v.deep_view(),
{
    let mut r: Vec<AttrEntry> = Vec::new();
    let mut i: usize = 0;
    while i < v.len()
        invariant
            i <= v@.len(),
            r@.len() == i,
            forall|k: int| 0 <= k < i ==> r.deep_view()[k] == v.deep_view()[k],
        decreases v@.len() - i,
    {
        let e = &v[i];
        r.push(AttrEntry { name: e.name.clone(), value: copy_attr(&e.value) });
        i = i + 1;
    }
    assert(r.deep_view() =~= v.deep_view());
    r
}

} // verus!
