//! The textual IR form: a compact human-readable serialization of the
//! module tree, and a parser reconstructing a module from it. Both are
//! exactly specified: the printed text is a function of the registry and
//! the module alone (`print_module_spec`), and the parser's outcome —
//! the reconstructed module or the refusal — is pinned to the spec-level
//! reader of the same grammar (`sp_module`). The textual form carries no
//! source locations, so parsed operations come back with unknown ones.
//!
//! The grammar, with no optional whitespace:
//!   module := "module{" op* "}"
//!   op     := name "(" vals ")" "(" tys ")" "{" attrs "}" "[" region* "]"
//!   region := "(" block* ")"        block := "<" tys ">" "{" op* "}"
//!   val    := "^" num ":" ty | "%" num "#" num ":" ty
//!   ty     := "w" num | "index"     attr  := name "=" aval
//!   aval   := "#" num | "!" ty | '"' text '"' | "fn(" tys ")(" tys ")"

use vstd::prelude::*;
use crate::context::{kind_name_char_ok, Context, CtxModel, KindModel};
use crate::ir::{
    lemma_ops_model, op_model, ops_model, Attr, AttrEntry, AttrEntryModel, AttrModel, Block,
    BlockModel, Location, Module, ModuleModel, OpModel, Operation, Region, RegionModel, Ty, Value,
    ValueSite,
};

verus! {

pub open spec fn digit_char(n: nat) -> char {
    if n == 0 {
        '0'
    } else if n == 1 {
        '1'
    } else if n == 2 {
        '2'
    } else if n == 3 {
        '3'
    } else if n == 4 {
        '4'
    } else if n == 5 {
        '5'
    } else if n == 6 {
        '6'
    } else if n == 7 {
        '7'
    } else if n == 8 {
        '8'
    } else {
        '9'
    }
}

/// The decimal rendering of a number, most significant digit first.
pub open spec fn dec_spec(n: nat) -> Seq<char>
    decreases n,
{
    if n < 10 {
        seq![digit_char(n)]
    } else {
        dec_spec(n / 10).push(digit_char(n % 10))
    }
}

pub open spec fn print_ty(t: Ty) -> Seq<char> {
    match t {
        Ty::Int(w) => seq!['w'] + dec_spec(w as nat),
        Ty::Index => "index"@,
    }
}

pub open spec fn print_tys(ts: Seq<Ty>, i: int) -> Seq<char>
    decreases i,
{
    if i <= 0 {
        Seq::<char>::empty()
    } else if i == 1 {
        print_ty(ts[0])
    } else {
        print_tys(ts, i - 1) + seq![','] + print_ty(ts[i - 1])
    }
}

pub open spec fn print_val(v: Value) -> Seq<char> {
    match v.site {
        ValueSite::BlockArg(a) => seq!['^'] + dec_spec(a as nat) + seq![':'] + print_ty(v.ty),
        ValueSite::OpResult(k, r) => seq!['%'] + dec_spec(k as nat) + seq!['#'] + dec_spec(r as nat)
            + seq![':'] + print_ty(v.ty),
    }
}

pub open spec fn print_vals(vs: Seq<Value>, i: int) -> Seq<char>
    decreases i,
{
    if i <= 0 {
        Seq::<char>::empty()
    } else if i == 1 {
        print_val(vs[0])
    } else {
        print_vals(vs, i - 1) + seq![','] + print_val(vs[i - 1])
    }
}

pub open spec fn print_attr_value(a: AttrModel) -> Seq<char> {
    match a {
        AttrModel::Int(n) => seq!['#'] + dec_spec(n as nat),
        AttrModel::TypeAttr(t) => seq!['!'] + print_ty(t),
        AttrModel::Text(s) => seq!['"'] + s + seq!['"'],
        AttrModel::FnTy(ps, rs) => "fn("@ + print_tys(ps, ps.len() as int) + ")("@ + print_tys(
            rs,
            rs.len() as int,
        ) + seq![')'],
    }
}

pub open spec fn print_attr(a: AttrEntryModel) -> Seq<char> {
    a.name + seq!['='] + print_attr_value(a.value)
}

pub open spec fn print_attrs(attrs: Seq<AttrEntryModel>, i: int) -> Seq<char>
    decreases i,
{
    if i <= 0 {
        Seq::<char>::empty()
    } else if i == 1 {
        print_attr(attrs[0])
    } else {
        print_attrs(attrs, i - 1) + seq![','] + print_attr(attrs[i - 1])
    }
}

/// The name an operation prints under: its registered kind name, or a
/// question mark for a tag the registry does not know.
pub open spec fn print_kind(ctx: CtxModel, kind: usize) -> Seq<char> {
    if kind < ctx.kinds.len() {
        ctx.kinds[kind as int].name
    } else {
        seq!['?']
    }
}

pub open spec fn print_op(ctx: CtxModel, op: OpModel) -> Seq<char>
    decreases op, 2int, 0int,
{
    print_kind(ctx, op.kind) + seq!['('] + print_vals(op.operands, op.operands.len() as int)
        + ")("@ + print_tys(op.result_types, op.result_types.len() as int) + "){"@ + print_attrs(
        op.attrs,
        op.attrs.len() as int,
    ) + "}["@ + print_regions(ctx, op.regions, op.regions.len() as int) + seq![']']
}

pub open spec fn print_ops(ctx: CtxModel, ops: Seq<OpModel>, i: int) -> Seq<char>
    decreases ops, 1int, i,
{
    if i <= 0 || i > ops.len() {
        Seq::<char>::empty()
    } else {
        print_ops(ctx, ops, i - 1) + print_op(ctx, ops[i - 1])
    }
}

pub open spec fn print_regions(ctx: CtxModel, rs: Seq<RegionModel>, i: int) -> Seq<char>
    decreases rs, 1int, i,
{
    if i <= 0 || i > rs.len() {
        Seq::<char>::empty()
    } else {
        print_regions(ctx, rs, i - 1) + seq!['('] + print_blocks(
            ctx,
            rs[i - 1].blocks,
            rs[i - 1].blocks.len() as int,
        ) + seq![')']
    }
}

pub open spec fn print_blocks(ctx: CtxModel, bs: Seq<BlockModel>, i: int) -> Seq<char>
    decreases bs, 1int, i,
{
    if i <= 0 || i > bs.len() {
        Seq::<char>::empty()
    } else {
        print_blocks(ctx, bs, i - 1) + seq!['<'] + print_tys(
            bs[i - 1].arg_types,
            bs[i - 1].arg_types.len() as int,
        ) + ">{"@ + print_ops(ctx, bs[i - 1].ops, bs[i - 1].ops.len() as int) + seq!['}']
    }
}

/// The textual form of a whole module. Source locations are not printed:
/// the textual form is structural.
pub open spec fn print_module_spec(ctx: CtxModel, m: ModuleModel) -> Seq<char> {
    "module{"@ + print_ops(ctx, m.body, m.body.len() as int) + seq!['}']
}

fn push_digit(out: &mut Vec<char>, n: u64)
    requires
        n < 10,
    ensures
        final(out)@ == old(out)@.push(digit_char(n as nat)),
{
    let c = if n == 0 {
        '0'
    } else if n == 1 {
        '1'
    } else if n == 2 {
        '2'
    } else if n == 3 {
        '3'
    } else if n == 4 {
        '4'
    } else if n == 5 {
        '5'
    } else if n == 6 {
        '6'
    } else if n == 7 {
        '7'
    } else if n == 8 {
        '8'
    } else {
        '9'
    };
    out.push(c);
}

fn push_dec(out: &mut Vec<char>, n: u64)
    ensures
        final(out)@ == old(out)@ + dec_spec(n as nat),
    decreases n,
{
    if n < 10 {
        push_digit(out, n);
        assert(out@ =~= old(out)@ + dec_spec(n as nat));
    } else {
        push_dec(out, n / 10);
        push_digit(out, n % 10);
        assert(out@ =~= old(out)@ + dec_spec(n as nat));
    }
}

fn push_str(out: &mut Vec<char>, s: &str)
    ensures
        final(out)@ == old(out)@ + s@,
{
    let n = s.unicode_len();
    let mut i: usize = 0;
    while i < n
        invariant
            i <= n,
            n == s@.len(),
            out@ == old(out)@ + s@.subrange(0, i as int),
        decreases n - i,
    {
        out.push(s.get_char(i));
        assert(out@ =~= old(out)@ + s@.subrange(0, i + 1 as int));
        i = i + 1;
    }
    assert(out@ =~= old(out)@ + s@);
}

fn push_ty(out: &mut Vec<char>, t: Ty)
    ensures
        final(out)@ == old(out)@ + print_ty(t),
{
    match t {
        Ty::Int(w) => {
            out.push('w');
            push_dec(out, w as u64);
            assert(out@ =~= old(out)@ + print_ty(t));
        },
        Ty::Index => {
            push_str(out, "index");
        },
    }
}

fn push_tys(out: &mut Vec<char>, ts: &Vec<Ty>)
    ensures
        final(out)@ == old(out)@ + print_tys(ts@, ts@.len() as int),
{
    let mut i: usize = 0;
    while i < ts.len()
        invariant
            i <= ts@.len(),
            out@ == old(out)@ + print_tys(ts@, i as int),
        decreases ts@.len() - i,
    {
        if i > 0 {
            out.push(',');
        }
        push_ty(out, ts[i]);
        assert(out@ =~= old(out)@ + print_tys(ts@, i + 1 as int));
        i = i + 1;
    }
}

fn push_val(out: &mut Vec<char>, v: Value)
    ensures
        final(out)@ == old(out)@ + print_val(v),
{
    match v.site {
        ValueSite::BlockArg(a) => {
            out.push('^');
            push_dec(out, a as u64);
            out.push(':');
            push_ty(out, v.ty);
            assert(out@ =~= old(out)@ + print_val(v));
        },
        ValueSite::OpResult(k, r) => {
            out.push('%');
            push_dec(out, k as u64);
            out.push('#');
            push_dec(out, r as u64);
            out.push(':');
            push_ty(out, v.ty);
            assert(out@ =~= old(out)@ + print_val(v));
        },
    }
}

fn push_vals(out: &mut Vec<char>, vs: &Vec<Value>)
    ensures
        final(out)@ == old(out)@ + print_vals(vs@, vs@.len() as int),
{
    let mut i: usize = 0;
    while i < vs.len()
        invariant
            i <= vs@.len(),
            out@ == old(out)@ + print_vals(vs@, i as int),
        decreases vs@.len() - i,
    {
        if i > 0 {
            out.push(',');
        }
        push_val(out, vs[i]);
        assert(out@ =~= old(out)@ + print_vals(vs@, i + 1 as int));
        i = i + 1;
    }
}

fn push_attr(out: &mut Vec<char>, a: &AttrEntry)
    ensures
        final(out)@ == old(out)@ + print_attr(a.deep_view()),
{
    push_str(out, a.name.as_str());
    out.push('=');
    match &a.value {
        Attr::Int(n) => {
            out.push('#');
            push_dec(out, *n);
        },
        Attr::TypeAttr(t) => {
            out.push('!');
            push_ty(out, *t);
        },
        Attr::Text(s) => {
            out.push('"');
            push_str(out, s.as_str());
            out.push('"');
        },
        Attr::FnTy(ps, rs) => {
            push_str(out, "fn(");
            push_tys(out, ps);
            push_str(out, ")(");
            push_tys(out, rs);
            out.push(')');
        },
    }
    assert(out@ =~= old(out)@ + print_attr(a.deep_view()));
}

fn push_attrs(out: &mut Vec<char>, attrs: &Vec<AttrEntry>)
    ensures
        final(out)@ == old(out)@ + print_attrs(attrs.deep_view(), attrs@.len() as int),
{
    let mut i: usize = 0;
    while i < attrs.len()
        invariant
            i <= attrs@.len(),
            out@ == old(out)@ + print_attrs(attrs.deep_view(), i as int),
        decreases attrs@.len() - i,
    {
        if i > 0 {
            out.push(',');
        }
        push_attr(out, &attrs[i]);
        assert(out@ =~= old(out)@ + print_attrs(attrs.deep_view(), i + 1 as int));
        i = i + 1;
    }
}

#[verifier::rlimit(100)]
fn push_op(ctx: &Context, out: &mut Vec<char>, op: &Operation)
    ensures
        final(out)@ == old(out)@ + print_op(ctx@, op_model(*op)),
    decreases *op, 2int, 0int,
{
    if op.kind < ctx.kinds.len() {
        push_str(out, ctx.kinds[op.kind].name.as_str());
    } else {
        out.push('?');
    }
    out.push('(');
    push_vals(out, &op.operands);
    push_str(out, ")(");
    push_tys(out, &op.result_types);
    push_str(out, "){");
    push_attrs(out, &op.attrs);
    push_str(out, "}[");
    let ghost rsm = crate::ir::regions_model(op.regions@, op.regions@.len() as int);
    proof {
        crate::ir::lemma_regions_model(op.regions@, op.regions@.len() as int);
    }
    let mut rj: usize = 0;
    while rj < op.regions.len()
        invariant
            rj <= op.regions@.len(),
            rsm == crate::ir::regions_model(op.regions@, op.regions@.len() as int),
            rsm.len() == op.regions@.len(),
            forall|t: int|
                0 <= t < op.regions@.len() ==> rsm[t] == crate::ir::region_model(op.regions@[t]),
            out@ == old(out)@ + print_kind(ctx@, op.kind) + seq!['('] + print_vals(
                op.operands@,
                op.operands@.len() as int,
            ) + ")("@ + print_tys(op.result_types@, op.result_types@.len() as int) + "){"@
                + print_attrs(op.attrs.deep_view(), op.attrs@.len() as int) + "}["@
                + print_regions(ctx@, rsm, rj as int),
        decreases op.regions@.len() - rj,
    {
        out.push('(');
        let ghost bsm = crate::ir::blocks_model(
            op.regions@[rj as int].blocks@,
            op.regions@[rj as int].blocks@.len() as int,
        );
        proof {
            crate::ir::lemma_blocks_model(
                op.regions@[rj as int].blocks@,
                op.regions@[rj as int].blocks@.len() as int,
            );
        }
        let blocks = &op.regions[rj].blocks;
        let mut bj: usize = 0;
        while bj < blocks.len()
            invariant
                bj <= blocks@.len(),
                blocks@ == op.regions@[rj as int].blocks@,
                rj < op.regions@.len(),
                bsm == crate::ir::blocks_model(blocks@, blocks@.len() as int),
                bsm.len() == blocks@.len(),
                forall|t: int|
                    0 <= t < blocks@.len() ==> bsm[t] == crate::ir::block_model(blocks@[t]),
                out@ == old(out)@ + print_kind(ctx@, op.kind) + seq!['('] + print_vals(
                    op.operands@,
                    op.operands@.len() as int,
                ) + ")("@ + print_tys(op.result_types@, op.result_types@.len() as int) + "){"@
                    + print_attrs(op.attrs.deep_view(), op.attrs@.len() as int) + "}["@
                    + print_regions(ctx@, rsm, rj as int) + seq!['('] + print_blocks(
                    ctx@,
                    bsm,
                    bj as int,
                ),
            decreases blocks@.len() - bj,
        {
            out.push('<');
            push_tys(out, &blocks[bj].arg_types);
            push_str(out, ">{");
            let ops = &blocks[bj].ops;
            let ghost osm = ops_model(ops@, ops@.len() as int);
            proof {
                lemma_ops_model(ops@, ops@.len() as int);
            }
            let mut oj: usize = 0;
            while oj < ops.len()
                invariant
                    oj <= ops@.len(),
                    ops@ == op.regions@[rj as int].blocks@[bj as int].ops@,
                    bj < blocks@.len(),
                    blocks@ == op.regions@[rj as int].blocks@,
                    rj < op.regions@.len(),
                    osm == ops_model(ops@, ops@.len() as int),
                    osm.len() == ops@.len(),
                    forall|t: int| 0 <= t < ops@.len() ==> osm[t] == op_model(ops@[t]),
                    out@ == old(out)@ + print_kind(ctx@, op.kind) + seq!['('] + print_vals(
                        op.operands@,
                        op.operands@.len() as int,
                    ) + ")("@ + print_tys(op.result_types@, op.result_types@.len() as int) + "){"@
                        + print_attrs(op.attrs.deep_view(), op.attrs@.len() as int) + "}["@
                        + print_regions(ctx@, rsm, rj as int) + seq!['('] + print_blocks(
                        ctx@,
                        bsm,
                        bj as int,
                    ) + seq!['<'] + print_tys(
                        blocks@[bj as int].arg_types@,
                        blocks@[bj as int].arg_types@.len() as int,
                    ) + ">{"@ + print_ops(ctx@, osm, oj as int),
                decreases ops@.len() - oj,
            {
                push_op(ctx, out, &ops[oj]);
                assert(out@ =~= old(out)@ + print_kind(ctx@, op.kind) + seq!['('] + print_vals(
                    op.operands@,
                    op.operands@.len() as int,
                ) + ")("@ + print_tys(op.result_types@, op.result_types@.len() as int) + "){"@
                    + print_attrs(op.attrs.deep_view(), op.attrs@.len() as int) + "}["@
                    + print_regions(ctx@, rsm, rj as int) + seq!['('] + print_blocks(
                    ctx@,
                    bsm,
                    bj as int,
                ) + seq!['<'] + print_tys(
                    blocks@[bj as int].arg_types@,
                    blocks@[bj as int].arg_types@.len() as int,
                ) + ">{"@ + print_ops(ctx@, osm, oj + 1 as int));
                oj = oj + 1;
            }
            out.push('}');
            assert(out@ =~= old(out)@ + print_kind(ctx@, op.kind) + seq!['('] + print_vals(
                op.operands@,
                op.operands@.len() as int,
            ) + ")("@ + print_tys(op.result_types@, op.result_types@.len() as int) + "){"@
                + print_attrs(op.attrs.deep_view(), op.attrs@.len() as int) + "}["@
                + print_regions(ctx@, rsm, rj as int) + seq!['('] + print_blocks(
                ctx@,
                bsm,
                bj + 1 as int,
            ));
            bj = bj + 1;
        }
        out.push(')');
        assert(out@ =~= old(out)@ + print_kind(ctx@, op.kind) + seq!['('] + print_vals(
            op.operands@,
            op.operands@.len() as int,
        ) + ")("@ + print_tys(op.result_types@, op.result_types@.len() as int) + "){"@
            + print_attrs(op.attrs.deep_view(), op.attrs@.len() as int) + "}["@ + print_regions(
            ctx@,
            rsm,
            rj + 1 as int,
        ));
        rj = rj + 1;
    }
    out.push(']');
    assert(out@ =~= old(out)@ + print_op(ctx@, op_model(*op)));
}

/// Prints a module in the textual form. The output is a function of the
/// registry and the module's structure alone; locations are not printed.
pub fn print_module(ctx: &Context, m: &Module) -> (r: Vec<char>)
    ensures
        r@ == print_module_spec(ctx@, m@),
{
    let mut out: Vec<char> = Vec::new();
    push_str(&mut out, "module{");
    let ghost bodym = ops_model(m.body@, m.body@.len() as int);
    proof {
        lemma_ops_model(m.body@, m.body@.len() as int);
    }
    let mut i: usize = 0;
    while i < m.body.len()
        invariant
            i <= m.body@.len(),
            bodym == ops_model(m.body@, m.body@.len() as int),
            bodym.len() == m.body@.len(),
            forall|t: int| 0 <= t < m.body@.len() ==> bodym[t] == op_model(m.body@[t]),
            out@ == "module{"@ + print_ops(ctx@, bodym, i as int),
        decreases m.body@.len() - i,
    {
        push_op(ctx, &mut out, &m.body[i]);
        assert(out@ =~= "module{"@ + print_ops(ctx@, bodym, i + 1 as int));
        i = i + 1;
    }
    out.push('}');
    assert(out@ =~= print_module_spec(ctx@, m@));
    out
}

/// Relies on std's String::push: appends exactly the one character to the
/// end of the string.
#[verifier::external_body]
fn string_push_char(s: &mut String, c: char)
    ensures
        final(s)@ == old(s)@.push(c),
{
    s.push(c);
}

/// A malformed textual form, with the line and column (both counted from
/// one) of the character where reading stopped.
#[derive(Clone, Copy, PartialEq, Eq, Structural, Debug)]
pub struct ParseError {
    pub line: usize,
    pub col: usize,
}

/// The line and column of a position in a text.
fn position_of(text: &Vec<char>, pos: usize) -> (r: (usize, usize))
    ensures
        r.0 >= 1,
        r.1 >= 1,
{
    let mut line: usize = 1;
    let mut col: usize = 1;
    let mut i: usize = 0;
    let end = if pos < text.len() {
        pos
    } else {
        text.len()
    };
    while i < end
        invariant
            i <= end,
            end <= text@.len(),
            line >= 1,
            col >= 1,
        decreases end - i,
    {
        if text[i] == '\n' {
            if line < usize::MAX {
                line = line + 1;
            }
            col = 1;
        } else {
            if col < usize::MAX {
                col = col + 1;
            }
        }
        i = i + 1;
    }
    (line, col)
}

/// A decimal digit.
pub open spec fn is_digit(c: char) -> bool {
    '0' <= c && c <= '9'
}

pub open spec fn digit_val(c: char) -> u64 {
    ((c as u32) - 48) as u64
}

/// The greedy digit scanner: the number read from `pos` (with `acc` the
/// value of the digits already consumed) and the position after it.
pub open spec fn sp_digits(text: Seq<char>, pos: int, acc: u64, any: bool) -> Option<(u64, int)>
    decreases text.len() - pos,
{
    if pos < 0 || pos >= text.len() {
        if any {
            Option::Some((acc, pos))
        } else {
            Option::None
        }
    } else if is_digit(text[pos]) {
        let d = digit_val(text[pos]);
        if acc > (u64::MAX - d) / 10 {
            Option::None
        } else {
            sp_digits(text, pos + 1, (acc * 10 + d) as u64, true)
        }
    } else {
        if any {
            Option::Some((acc, pos))
        } else {
            Option::None
        }
    }
}

/// The number read at `pos`: one or more digits, greedily.
pub open spec fn sp_num(text: Seq<char>, pos: int) -> Option<(u64, int)> {
    sp_digits(text, pos, 0, false)
}

pub open spec fn sp_expect(text: Seq<char>, pos: int, c: char) -> Option<int> {
    if 0 <= pos < text.len() && text[pos] == c {
        Option::Some(pos + 1)
    } else {
        Option::None
    }
}

/// The type read at `pos`: `w` with a width, or `index`.
pub open spec fn sp_ty(text: Seq<char>, pos: int) -> Option<(Ty, int)> {
    if !(0 <= pos < text.len()) {
        Option::None
    } else if text[pos] == 'w' {
        match sp_num(text, pos + 1) {
            Option::Some((n, np)) => if n <= u32::MAX {
                Option::Some((Ty::Int(n as u32), np))
            } else {
                Option::None
            },
            Option::None => Option::None,
        }
    } else if text[pos] == 'i' {
        if pos + 5 <= text.len() && text[pos + 1] == 'n' && text[pos + 2] == 'd' && text[pos + 3]
            == 'e' && text[pos + 4] == 'x' {
            Option::Some((Ty::Index, pos + 5))
        } else {
            Option::None
        }
    } else {
        Option::None
    }
}

pub open spec fn sp_usize(text: Seq<char>, pos: int) -> Option<(usize, int)> {
    match sp_num(text, pos) {
        Option::Some((n, np)) => if n <= usize::MAX {
            Option::Some((n as usize, np))
        } else {
            Option::None
        },
        Option::None => Option::None,
    }
}

/// A non-empty comma-separated type list continued from `pos`.
pub open spec fn sp_tys_rest(text: Seq<char>, pos: int, acc: Seq<Ty>) -> Option<(Seq<Ty>, int)>
    decreases text.len() - pos,
{
    match sp_ty(text, pos) {
        Option::Some((t, np)) => if np <= pos || np > text.len() {
            Option::None
        } else if np < text.len() && text[np] == ',' {
            sp_tys_rest(text, np + 1, acc.push(t))
        } else {
            Option::Some((acc.push(t), np))
        },
        Option::None => Option::None,
    }
}

/// A possibly empty type list ending at the closing character.
pub open spec fn sp_tys(text: Seq<char>, pos: int, closer: char) -> Option<(Seq<Ty>, int)> {
    if 0 <= pos < text.len() && text[pos] == closer {
        Option::Some((Seq::<Ty>::empty(), pos))
    } else {
        sp_tys_rest(text, pos, Seq::<Ty>::empty())
    }
}

/// The value reference read at `pos`.
pub open spec fn sp_val(text: Seq<char>, pos: int) -> Option<(Value, int)> {
    if !(0 <= pos < text.len()) {
        Option::None
    } else if text[pos] == '^' {
        match sp_usize(text, pos + 1) {
            Option::Some((a, p1)) => match sp_expect(text, p1, ':') {
                Option::Some(p2) => match sp_ty(text, p2) {
                    Option::Some((t, p3)) => Option::Some(
                        (Value { site: ValueSite::BlockArg(a), ty: t }, p3),
                    ),
                    Option::None => Option::None,
                },
                Option::None => Option::None,
            },
            Option::None => Option::None,
        }
    } else if text[pos] == '%' {
        match sp_usize(text, pos + 1) {
            Option::Some((k, p1)) => match sp_expect(text, p1, '#') {
                Option::Some(p2) => match sp_usize(text, p2) {
                    Option::Some((idx, p3)) => match sp_expect(text, p3, ':') {
                        Option::Some(p4) => match sp_ty(text, p4) {
                            Option::Some((t, p5)) => Option::Some(
                                (Value { site: ValueSite::OpResult(k, idx), ty: t }, p5),
                            ),
                            Option::None => Option::None,
                        },
                        Option::None => Option::None,
                    },
                    Option::None => Option::None,
                },
                Option::None => Option::None,
            },
            Option::None => Option::None,
        }
    } else {
        Option::None
    }
}

/// A non-empty comma-separated operand list continued from `pos`.
pub open spec fn sp_vals_rest(text: Seq<char>, pos: int, acc: Seq<Value>) -> Option<(
    Seq<Value>,
    int,
)>
    decreases text.len() - pos,
{
    match sp_val(text, pos) {
        Option::Some((v, np)) => if np <= pos || np > text.len() {
            Option::None
        } else if np < text.len() && text[np] == ',' {
            sp_vals_rest(text, np + 1, acc.push(v))
        } else {
            Option::Some((acc.push(v), np))
        },
        Option::None => Option::None,
    }
}

/// A possibly empty operand list ending at `)`.
pub open spec fn sp_vals(text: Seq<char>, pos: int) -> Option<(Seq<Value>, int)> {
    if 0 <= pos < text.len() && text[pos] != ')' {
        sp_vals_rest(text, pos, Seq::<Value>::empty())
    } else {
        Option::Some((Seq::<Value>::empty(), pos))
    }
}

/// The name read at `pos`: one or more name characters, greedily.
pub open spec fn sp_name(text: Seq<char>, pos: int, acc: Seq<char>) -> Option<(Seq<char>, int)>
    decreases text.len() - pos,
{
    if 0 <= pos < text.len() && kind_name_char_ok(text[pos]) {
        sp_name(text, pos + 1, acc.push(text[pos]))
    } else {
        if acc.len() > 0 {
            Option::Some((acc, pos))
        } else {
            Option::None
        }
    }
}

/// The first registered kind carrying the name, scanning from index i.
pub open spec fn sp_find_kind(kinds: Seq<KindModel>, name: Seq<char>, i: int) -> Option<int>
    decreases kinds.len() - i,
{
    if i < 0 || i >= kinds.len() {
        Option::None
    } else if kinds[i].name == name {
        Option::Some(i)
    } else {
        sp_find_kind(kinds, name, i + 1)
    }
}

/// The quoted text continued from `pos`, up to and past the closing quote.
pub open spec fn sp_text(text: Seq<char>, pos: int, acc: Seq<char>) -> Option<(Seq<char>, int)>
    decreases text.len() - pos,
{
    if !(0 <= pos < text.len()) {
        Option::None
    } else if text[pos] != '"' {
        sp_text(text, pos + 1, acc.push(text[pos]))
    } else {
        Option::Some((acc, pos + 1))
    }
}

/// The attribute value read at `pos`.
pub open spec fn sp_attr_value(text: Seq<char>, pos: int) -> Option<(AttrModel, int)> {
    if !(0 <= pos < text.len()) {
        Option::None
    } else if text[pos] == '#' {
        match sp_num(text, pos + 1) {
            Option::Some((n, np)) => Option::Some((AttrModel::Int(n), np)),
            Option::None => Option::None,
        }
    } else if text[pos] == '!' {
        match sp_ty(text, pos + 1) {
            Option::Some((t, np)) => Option::Some((AttrModel::TypeAttr(t), np)),
            Option::None => Option::None,
        }
    } else if text[pos] == '"' {
        match sp_text(text, pos + 1, Seq::<char>::empty()) {
            Option::Some((s, np)) => Option::Some((AttrModel::Text(s), np)),
            Option::None => Option::None,
        }
    } else if text[pos] == 'f' {
        if pos + 3 <= text.len() && text[pos + 1] == 'n' && text[pos + 2] == '(' {
            match sp_tys(text, pos + 3, ')') {
                Option::Some((ps, p1)) => match sp_expect(text, p1, ')') {
                    Option::Some(p2) => match sp_expect(text, p2, '(') {
                        Option::Some(p3) => match sp_tys(text, p3, ')') {
                            Option::Some((rs, p4)) => match sp_expect(text, p4, ')') {
                                Option::Some(p5) => Option::Some((AttrModel::FnTy(ps, rs), p5)),
                                Option::None => Option::None,
                            },
                            Option::None => Option::None,
                        },
                        Option::None => Option::None,
                    },
                    Option::None => Option::None,
                },
                Option::None => Option::None,
            }
        } else {
            Option::None
        }
    } else {
        Option::None
    }
}

/// A non-empty comma-separated attribute list continued from `pos`.
pub open spec fn sp_attrs_rest(text: Seq<char>, pos: int, acc: Seq<AttrEntryModel>) -> Option<(
    Seq<AttrEntryModel>,
    int,
)>
    decreases text.len() - pos,
{
    match sp_name(text, pos, Seq::<char>::empty()) {
        Option::Some((nm, p1)) => if p1 <= pos || p1 > text.len() {
            Option::None
        } else {
            match sp_expect(text, p1, '=') {
                Option::Some(p2) => match sp_attr_value(text, p2) {
                    Option::Some((av, p3)) => if p3 <= p2 || p3 > text.len() {
                        Option::None
                    } else {
                        let acc2 = acc.push(AttrEntryModel { name: nm, value: av });
                        if p3 < text.len() && text[p3] == ',' {
                            sp_attrs_rest(text, p3 + 1, acc2)
                        } else {
                            Option::Some((acc2, p3))
                        }
                    },
                    Option::None => Option::None,
                },
                Option::None => Option::None,
            }
        },
        Option::None => Option::None,
    }
}

/// A possibly empty attribute list ending at `}`.
pub open spec fn sp_attrs(text: Seq<char>, pos: int) -> Option<(Seq<AttrEntryModel>, int)> {
    if 0 <= pos < text.len() && text[pos] != '}' {
        sp_attrs_rest(text, pos, Seq::<AttrEntryModel>::empty())
    } else {
        Option::Some((Seq::<AttrEntryModel>::empty(), pos))
    }
}

/// The operation read at `pos`, including everything nested in it. Kinds
/// are resolved by name against the registry; the location comes back
/// unknown, since the textual form does not carry locations.
pub open spec fn sp_op(ctx: CtxModel, text: Seq<char>, pos: int) -> Option<(OpModel, int)>
    decreases text.len() - pos, 0int,
{
    match sp_name(text, pos, Seq::<char>::empty()) {
        Option::None => Option::None,
        Option::Some((nm, p0)) => if p0 <= pos || p0 > text.len() {
            Option::None
        } else {
            match sp_find_kind(ctx.kinds, nm, 0) {
                Option::None => Option::None,
                Option::Some(kind) => match sp_expect(text, p0, '(') {
                    Option::None => Option::None,
                    Option::Some(p1) => match sp_vals(text, p1) {
                        Option::None => Option::None,
                        Option::Some((operands, p2)) => match sp_expect(text, p2, ')') {
                            Option::None => Option::None,
                            Option::Some(p3) => match sp_expect(text, p3, '(') {
                                Option::None => Option::None,
                                Option::Some(p4) => match sp_tys(text, p4, ')') {
                                    Option::None => Option::None,
                                    Option::Some((result_types, p5)) => match sp_expect(
                                        text,
                                        p5,
                                        ')',
                                    ) {
                                        Option::None => Option::None,
                                        Option::Some(p6) => match sp_expect(text, p6, '{') {
                                            Option::None => Option::None,
                                            Option::Some(p7) => match sp_attrs(text, p7) {
                                                Option::None => Option::None,
                                                Option::Some((attrs, p8)) => match sp_expect(
                                                    text,
                                                    p8,
                                                    '}',
                                                ) {
                                                    Option::None => Option::None,
                                                    Option::Some(p9) => match sp_expect(
                                                        text,
                                                        p9,
                                                        '[',
                                                    ) {
                                                        Option::None => Option::None,
                                                        Option::Some(p10) => if p10 <= pos {
                                                            Option::None
                                                        } else {
                                                            match sp_regions(
                                                                ctx,
                                                                text,
                                                                p10,
                                                                Seq::<RegionModel>::empty(),
                                                            ) {
                                                                Option::None => Option::None,
                                                                Option::Some((regions, p11)) => match sp_expect(
                                                                    text,
                                                                    p11,
                                                                    ']',
                                                                ) {
                                                                    Option::None => Option::None,
                                                                    Option::Some(p12) => Option::Some(
                                                                        (
                                                                            OpModel {
                                                                                kind: kind as usize,
                                                                                operands,
                                                                                result_types,
                                                                                attrs,
                                                                                regions,
                                                                                location: Location::Unknown,
                                                                            },
                                                                            p12,
                                                                        ),
                                                                    ),
                                                                },
                                                            }
                                                        },
                                                    },
                                                },
                                            },
                                        },
                                    },
                                },
                            },
                        },
                    },
                },
            }
        },
    }
}

/// The operations read from `pos` up to a closing `}` or the end.
pub open spec fn sp_ops(ctx: CtxModel, text: Seq<char>, pos: int, acc: Seq<OpModel>) -> Option<(
    Seq<OpModel>,
    int,
)>
    decreases text.len() - pos, 1int,
{
    if !(0 <= pos < text.len()) || text[pos] == '}' {
        Option::Some((acc, pos))
    } else {
        match sp_op(ctx, text, pos) {
            Option::None => Option::None,
            Option::Some((op, np)) => if np <= pos || np > text.len() {
                Option::None
            } else {
                sp_ops(ctx, text, np, acc.push(op))
            },
        }
    }
}

/// The regions read from `pos`, each `(` blocks `)`.
pub open spec fn sp_regions(
    ctx: CtxModel,
    text: Seq<char>,
    pos: int,
    acc: Seq<RegionModel>,
) -> Option<(Seq<RegionModel>, int)>
    decreases text.len() - pos, 1int,
{
    if !(0 <= pos < text.len()) || text[pos] != '(' {
        Option::Some((acc, pos))
    } else {
        match sp_blocks(ctx, text, pos + 1, Seq::<BlockModel>::empty()) {
            Option::None => Option::None,
            Option::Some((bs, p1)) => match sp_expect(text, p1, ')') {
                Option::None => Option::None,
                Option::Some(p2) => if p2 <= pos {
                    Option::None
                } else {
                    sp_regions(ctx, text, p2, acc.push(RegionModel { blocks: bs }))
                },
            },
        }
    }
}

/// The blocks read from `pos`, each `<` argument types `>{` operations `}`.
pub open spec fn sp_blocks(
    ctx: CtxModel,
    text: Seq<char>,
    pos: int,
    acc: Seq<BlockModel>,
) -> Option<(Seq<BlockModel>, int)>
    decreases text.len() - pos, 1int,
{
    if !(0 <= pos < text.len()) || text[pos] != '<' {
        Option::Some((acc, pos))
    } else {
        match sp_tys(text, pos + 1, '>') {
            Option::None => Option::None,
            Option::Some((ats, p1)) => match sp_expect(text, p1, '>') {
                Option::None => Option::None,
                Option::Some(p2) => match sp_expect(text, p2, '{') {
                    Option::None => Option::None,
                    Option::Some(p3) => if p3 <= pos {
                        Option::None
                    } else {
                        match sp_ops(ctx, text, p3, Seq::<OpModel>::empty()) {
                            Option::None => Option::None,
                            Option::Some((ops, p4)) => match sp_expect(text, p4, '}') {
                                Option::None => Option::None,
                                Option::Some(p5) => if p5 <= pos {
                                    Option::None
                                } else {
                                    sp_blocks(
                                        ctx,
                                        text,
                                        p5,
                                        acc.push(BlockModel { arg_types: ats, ops }),
                                    )
                                },
                            },
                        }
                    },
                },
            },
        }
    }
}

/// What `parse_module` reconstructs: the module whose textual form the
/// input is, or nothing when the input is malformed.
pub open spec fn sp_module(ctx: CtxModel, text: Seq<char>) -> Option<ModuleModel> {
    if text.len() >= 7 && text.subrange(0, 7) == "module{"@ {
        match sp_ops(ctx, text, 7, Seq::<OpModel>::empty()) {
            Option::None => Option::None,
            Option::Some((body, p)) => if 0 <= p < text.len() && text[p] == '}' && p + 1
                == text.len() {
                Option::Some(ModuleModel { body, location: Location::Unknown })
            } else {
                Option::None
            },
        }
    } else {
        Option::None
    }
}

/// Reads one or more digits greedily.
fn parse_digits(text: &Vec<char>, pos: usize, acc: u64, any: bool) -> (r: Result<
    (u64, usize),
    usize,
>)
    requires
        pos <= text@.len(),
    ensures
        match r {
            Result::Ok(p) => {
                &&& sp_digits(text@, pos as int, acc, any) == Option::Some((p.0, p.1 as int))
                &&& pos <= p.1 <= text@.len()
                &&& (!any ==> pos < p.1)
            },
            Result::Err(e) => sp_digits(text@, pos as int, acc, any) is None,
        },
    decreases text@.len() - pos,
{
    if pos >= text.len() {
        if any {
            Result::Ok((acc, pos))
        } else {
            Result::Err(pos)
        }
    } else {
        let c = text[pos];
        if '0' <= c && c <= '9' {
            let d = (c as u32) as u64 - 48;
            if acc > (u64::MAX - d) / 10 {
                Result::Err(pos)
            } else {
                assert(acc * 10 + d <= u64::MAX) by {
                    assert(acc * 10 <= ((u64::MAX - d) / 10) * 10);
                };
                parse_digits(text, pos + 1, acc * 10 + d, true)
            }
        } else {
            if any {
                Result::Ok((acc, pos))
            } else {
                Result::Err(pos)
            }
        }
    }
}

/// Reads a decimal number.
fn parse_num(text: &Vec<char>, pos: usize) -> (r: Result<(u64, usize), usize>)
    requires
        pos <= text@.len(),
    ensures
        match r {
            Result::Ok(p) => sp_num(text@, pos as int) == Option::Some((p.0, p.1 as int)) && pos
                < p.1 <= text@.len(),
            Result::Err(e) => sp_num(text@, pos as int) is None,
        },
{
    parse_digits(text, pos, 0, false)
}

fn parse_usize(text: &Vec<char>, pos: usize) -> (r: Result<(usize, usize), usize>)
    requires
        pos <= text@.len(),
    ensures
        match r {
            Result::Ok(p) => sp_usize(text@, pos as int) == Option::Some((p.0, p.1 as int)) && pos
                < p.1 <= text@.len(),
            Result::Err(e) => sp_usize(text@, pos as int) is None,
        },
{
    match parse_num(text, pos) {
        Result::Ok((n, np)) => {
            if n <= usize::MAX as u64 {
                Result::Ok((n as usize, np))
            } else {
                Result::Err(pos)
            }
        },
        Result::Err(e) => Result::Err(e),
    }
}

fn expect(text: &Vec<char>, pos: usize, c: char) -> (r: Result<usize, usize>)
    requires
        pos <= text@.len(),
    ensures
        match r {
            Result::Ok(np) => sp_expect(text@, pos as int, c) == Option::Some(np as int) && np
                == pos + 1 && np <= text@.len(),
            Result::Err(e) => sp_expect(text@, pos as int, c) is None,
        },
{
    if pos < text.len() && text[pos] == c {
        Result::Ok(pos + 1)
    } else {
        Result::Err(pos)
    }
}

/// Reads a type: `w` with a width, or `index`.
fn parse_ty(text: &Vec<char>, pos: usize) -> (r: Result<(Ty, usize), usize>)
    requires
        pos <= text@.len(),
    ensures
        match r {
            Result::Ok(p) => sp_ty(text@, pos as int) == Option::Some((p.0, p.1 as int)) && pos
                < p.1 <= text@.len(),
            Result::Err(e) => sp_ty(text@, pos as int) is None,
        },
{
    if pos >= text.len() {
        return Result::Err(pos);
    }
    if text[pos] == 'w' {
        match parse_num(text, pos + 1) {
            Result::Ok((n, np)) => {
                if n <= u32::MAX as u64 {
                    Result::Ok((Ty::Int(n as u32), np))
                } else {
                    Result::Err(pos)
                }
            },
            Result::Err(e) => Result::Err(e),
        }
    } else if text[pos] == 'i' {
        if text.len() >= 5 && pos <= text.len() - 5 && text[pos + 1] == 'n' && text[pos + 2] == 'd'
            && text[pos + 3] == 'e' && text[pos + 4] == 'x' {
            Result::Ok((Ty::Index, pos + 5))
        } else {
            Result::Err(pos)
        }
    } else {
        Result::Err(pos)
    }
}

/// Reads a non-empty comma-separated type list.
fn parse_tys_rest(text: &Vec<char>, pos: usize, acc: Vec<Ty>) -> (r: Result<
    (Vec<Ty>, usize),
    usize,
>)
    requires
        pos <= text@.len(),
    ensures
        match r {
            Result::Ok(p) => sp_tys_rest(text@, pos as int, acc@) == Option::Some(
                (p.0@, p.1 as int),
            ) && pos <= p.1 <= text@.len(),
            Result::Err(e) => sp_tys_rest(text@, pos as int, acc@) is None,
        },
    decreases text@.len() - pos,
{
    match parse_ty(text, pos) {
        Result::Err(e) => Result::Err(e),
        Result::Ok((t, np)) => {
            let mut acc2 = acc;
            acc2.push(t);
            if np < text.len() && text[np] == ',' {
                parse_tys_rest(text, np + 1, acc2)
            } else {
                Result::Ok((acc2, np))
            }
        },
    }
}

/// Reads a comma-separated type list ending at the given closer.
fn parse_tys(text: &Vec<char>, pos: usize, closer: char) -> (r: Result<(Vec<Ty>, usize), usize>)
    requires
        pos <= text@.len(),
    ensures
        match r {
            Result::Ok(p) => sp_tys(text@, pos as int, closer) == Option::Some(
                (p.0@, p.1 as int),
            ) && pos <= p.1 <= text@.len(),
            Result::Err(e) => sp_tys(text@, pos as int, closer) is None,
        },
{
    if pos < text.len() && text[pos] == closer {
        let out: Vec<Ty> = Vec::new();
        Result::Ok((out, pos))
    } else {
        parse_tys_rest(text, pos, Vec::new())
    }
}

/// Reads one value reference.
fn parse_val(text: &Vec<char>, pos: usize) -> (r: Result<(Value, usize), usize>)
    requires
        pos <= text@.len(),
    ensures
        match r {
            Result::Ok(p) => sp_val(text@, pos as int) == Option::Some((p.0, p.1 as int)) && pos
                < p.1 <= text@.len(),
            Result::Err(e) => sp_val(text@, pos as int) is None,
        },
{
    if pos >= text.len() {
        return Result::Err(pos);
    }
    if text[pos] == '^' {
        let (a, p1) = parse_usize(text, pos + 1)?;
        let p2 = expect(text, p1, ':')?;
        let (t, p3) = parse_ty(text, p2)?;
        Result::Ok((Value { site: ValueSite::BlockArg(a), ty: t }, p3))
    } else if text[pos] == '%' {
        let (k, p1) = parse_usize(text, pos + 1)?;
        let p2 = expect(text, p1, '#')?;
        let (idx, p3) = parse_usize(text, p2)?;
        let p4 = expect(text, p3, ':')?;
        let (t, p5) = parse_ty(text, p4)?;
        Result::Ok((Value { site: ValueSite::OpResult(k, idx), ty: t }, p5))
    } else {
        Result::Err(pos)
    }
}

/// Reads a non-empty comma-separated operand list.
fn parse_vals_rest(text: &Vec<char>, pos: usize, acc: Vec<Value>) -> (r: Result<
    (Vec<Value>, usize),
    usize,
>)
    requires
        pos <= text@.len(),
    ensures
        match r {
            Result::Ok(p) => sp_vals_rest(text@, pos as int, acc@) == Option::Some(
                (p.0@, p.1 as int),
            ) && pos <= p.1 <= text@.len(),
            Result::Err(e) => sp_vals_rest(text@, pos as int, acc@) is None,
        },
    decreases text@.len() - pos,
{
    match parse_val(text, pos) {
        Result::Err(e) => Result::Err(e),
        Result::Ok((v, np)) => {
            let mut acc2 = acc;
            acc2.push(v);
            if np < text.len() && text[np] == ',' {
                parse_vals_rest(text, np + 1, acc2)
            } else {
                Result::Ok((acc2, np))
            }
        },
    }
}

/// Reads a possibly empty operand list ending at `)`.
fn parse_vals(text: &Vec<char>, pos: usize) -> (r: Result<(Vec<Value>, usize), usize>)
    requires
        pos <= text@.len(),
    ensures
        match r {
            Result::Ok(p) => sp_vals(text@, pos as int) == Option::Some((p.0@, p.1 as int)) && pos
                <= p.1 <= text@.len(),
            Result::Err(e) => sp_vals(text@, pos as int) is None,
        },
{
    if pos < text.len() && text[pos] != ')' {
        parse_vals_rest(text, pos, Vec::new())
    } else {
        let out: Vec<Value> = Vec::new();
        Result::Ok((out, pos))
    }
}

/// Reads a name: one or more kind-name characters.
fn parse_name_rest(text: &Vec<char>, pos: usize, acc: String) -> (r: Result<
    (String, usize),
    usize,
>)
    requires
        pos <= text@.len(),
    ensures
        match r {
            Result::Ok(p) => sp_name(text@, pos as int, acc@) == Option::Some(
                (p.0@, p.1 as int),
            ) && pos <= p.1 <= text@.len(),
            Result::Err(e) => sp_name(text@, pos as int, acc@) is None,
        },
    decreases text@.len() - pos,
{
    if pos < text.len() {
        let c = text[pos];
        let ok = ('a' <= c && c <= 'z') || ('0' <= c && c <= '9') || c == '.' || c == '_';
        if ok {
            let mut acc2 = acc;
            string_push_char(&mut acc2, c);
            return parse_name_rest(text, pos + 1, acc2);
        }
    }
    if acc.as_str().unicode_len() > 0 {
        Result::Ok((acc, pos))
    } else {
        Result::Err(pos)
    }
}

fn parse_name(text: &Vec<char>, pos: usize) -> (r: Result<(String, usize), usize>)
    requires
        pos <= text@.len(),
    ensures
        match r {
            Result::Ok(p) => sp_name(text@, pos as int, Seq::<char>::empty()) == Option::Some(
                (p.0@, p.1 as int),
            ) && pos <= p.1 <= text@.len(),
            Result::Err(e) => sp_name(text@, pos as int, Seq::<char>::empty()) is None,
        },
{
    parse_name_rest(text, pos, String::new())
}

/// The registered kind carrying the given name, if any.
fn kind_by_name(ctx: &Context, name: &String) -> (r: Option<usize>)
    ensures
        match r {
            Option::Some(k) => sp_find_kind(ctx@.kinds, name@, 0) == Option::Some(k as int) && k
                < ctx@.kinds.len(),
            Option::None => sp_find_kind(ctx@.kinds, name@, 0) is None,
        },
{
    let mut k: usize = 0;
    while k < ctx.kinds.len()
        invariant
            k <= ctx@.kinds.len(),
            sp_find_kind(ctx@.kinds, name@, 0) == sp_find_kind(ctx@.kinds, name@, k as int),
        decreases ctx@.kinds.len() - k,
    {
        if ctx.kinds[k].name == *name {
            return Option::Some(k);
        }
        k = k + 1;
    }
    Option::None
}

/// Reads the quoted text of a text attribute, past the closing quote.
fn parse_text_rest(text: &Vec<char>, pos: usize, acc: String) -> (r: Result<
    (String, usize),
    usize,
>)
    requires
        pos <= text@.len(),
    ensures
        match r {
            Result::Ok(p) => sp_text(text@, pos as int, acc@) == Option::Some(
                (p.0@, p.1 as int),
            ) && pos < p.1 <= text@.len(),
            Result::Err(e) => sp_text(text@, pos as int, acc@) is None,
        },
    decreases text@.len() - pos,
{
    if pos >= text.len() {
        return Result::Err(pos);
    }
    if text[pos] != '"' {
        let mut acc2 = acc;
        string_push_char(&mut acc2, text[pos]);
        parse_text_rest(text, pos + 1, acc2)
    } else {
        Result::Ok((acc, pos + 1))
    }
}

/// Reads one attribute value.
fn parse_attr_value(text: &Vec<char>, pos: usize) -> (r: Result<(Attr, usize), usize>)
    requires
        pos <= text@.len(),
    ensures
        match r {
            Result::Ok(p) => sp_attr_value(text@, pos as int) == Option::Some(
                (p.0.deep_view(), p.1 as int),
            ) && pos < p.1 <= text@.len(),
            Result::Err(e) => sp_attr_value(text@, pos as int) is None,
        },
{
    if pos >= text.len() {
        return Result::Err(pos);
    }
    if text[pos] == '#' {
        let (n, np) = parse_num(text, pos + 1)?;
        Result::Ok((Attr::Int(n), np))
    } else if text[pos] == '!' {
        let (t, np) = parse_ty(text, pos + 1)?;
        Result::Ok((Attr::TypeAttr(t), np))
    } else if text[pos] == '"' {
        let (s, np) = parse_text_rest(text, pos + 1, String::new())?;
        Result::Ok((Attr::Text(s), np))
    } else if text[pos] == 'f' {
        if text.len() >= 3 && pos <= text.len() - 3 && text[pos + 1] == 'n' && text[pos + 2] == '(' {
            let (ps, p1) = parse_tys(text, pos + 3, ')')?;
            let p2 = expect(text, p1, ')')?;
            let p3 = expect(text, p2, '(')?;
            let (rs, p4) = parse_tys(text, p3, ')')?;
            let p5 = expect(text, p4, ')')?;
            Result::Ok((Attr::FnTy(ps, rs), p5))
        } else {
            Result::Err(pos)
        }
    } else {
        Result::Err(pos)
    }
}

/// Reads a non-empty comma-separated attribute list.
fn parse_attrs_rest(text: &Vec<char>, pos: usize, acc: Vec<AttrEntry>) -> (r: Result<
    (Vec<AttrEntry>, usize),
    usize,
>)
    requires
        pos <= text@.len(),
    ensures
        match r {
            Result::Ok(p) => sp_attrs_rest(text@, pos as int, acc.deep_view()) == Option::Some(
                (p.0.deep_view(), p.1 as int),
            ) && pos <= p.1 <= text@.len(),
            Result::Err(e) => sp_attrs_rest(text@, pos as int, acc.deep_view()) is None,
        },
    decreases text@.len() - pos,
{
    let (nm, p1) = parse_name(text, pos)?;
    let p2 = expect(text, p1, '=')?;
    let (av, p3) = parse_attr_value(text, p2)?;
    let mut acc2 = acc;
    let ghost accm = acc2.deep_view();
    acc2.push(AttrEntry { name: nm, value: av });
    proof {
        assert(acc2.deep_view() =~= accm.push(acc2@[accm.len() as int].deep_view()));
    }
    if p3 < text.len() && text[p3] == ',' {
        parse_attrs_rest(text, p3 + 1, acc2)
    } else {
        Result::Ok((acc2, p3))
    }
}

/// Reads a possibly empty attribute list ending at `}`.
fn parse_attrs(text: &Vec<char>, pos: usize) -> (r: Result<(Vec<AttrEntry>, usize), usize>)
    requires
        pos <= text@.len(),
    ensures
        match r {
            Result::Ok(p) => sp_attrs(text@, pos as int) == Option::Some(
                (p.0.deep_view(), p.1 as int),
            ) && pos <= p.1 <= text@.len(),
            Result::Err(e) => sp_attrs(text@, pos as int) is None,
        },
{
    if pos < text.len() && text[pos] != '}' {
        let out: Vec<AttrEntry> = Vec::new();
        assert(out.deep_view() =~= Seq::<AttrEntryModel>::empty());
        parse_attrs_rest(text, pos, out)
    } else {
        let out: Vec<AttrEntry> = Vec::new();
        assert(out.deep_view() =~= Seq::<AttrEntryModel>::empty());
        Result::Ok((out, pos))
    }
}

/// Reads one operation, including everything nested in it.
#[verifier::rlimit(100)]
fn parse_op(ctx: &Context, text: &Vec<char>, pos: usize) -> (r: Result<
    (Operation, usize),
    usize,
>)
    requires
        pos <= text@.len(),
    ensures
        match r {
            Result::Ok(p) => sp_op(ctx@, text@, pos as int) == Option::Some(
                (op_model(p.0), p.1 as int),
            ) && pos < p.1 <= text@.len(),
            Result::Err(e) => sp_op(ctx@, text@, pos as int) is None,
        },
    decreases text@.len() - pos, 0int,
{
    let (name, p0) = parse_name(text, pos)?;
    let kind = match kind_by_name(ctx, &name) {
        Option::Some(k) => k,
        Option::None => {
            return Result::Err(pos);
        },
    };
    let p1 = expect(text, p0, '(')?;
    let (operands, p2) = parse_vals(text, p1)?;
    let p3 = expect(text, p2, ')')?;
    let p4 = expect(text, p3, '(')?;
    let (result_types, p5) = parse_tys(text, p4, ')')?;
    let p6 = expect(text, p5, ')')?;
    let p7 = expect(text, p6, '{')?;
    let (attrs, p8) = parse_attrs(text, p7)?;
    let p9 = expect(text, p8, '}')?;
    let p10 = expect(text, p9, '[')?;
    let out_regions: Vec<Region> = Vec::new();
    proof {
        crate::ir::lemma_regions_model(out_regions@, 0);
        assert(crate::ir::regions_model(out_regions@, 0) =~= Seq::<RegionModel>::empty());
    }
    let (regions, p11) = parse_regions(ctx, text, p10, out_regions)?;
    let p12 = expect(text, p11, ']')?;
    let op = Operation {
        kind,
        operands,
        result_types,
        attrs,
        regions,
        location: Location::Unknown,
    };
    proof {
        assert(sp_op(ctx@, text@, pos as int) == Option::Some(
            (op_model(op), p12 as int),
        )) by {
            assert(op_model(op).operands =~= op.operands@);
        };
    }
    Result::Ok((op, p12))
}

/// Reads operations up to a closing `}` or the end of the text.
fn parse_ops(ctx: &Context, text: &Vec<char>, pos: usize, acc: Vec<Operation>) -> (r: Result<
    (Vec<Operation>, usize),
    usize,
>)
    requires
        pos <= text@.len(),
    ensures
        match r {
            Result::Ok(p) => sp_ops(
                ctx@,
                text@,
                pos as int,
                ops_model(acc@, acc@.len() as int),
            ) == Option::Some((ops_model(p.0@, p.0@.len() as int), p.1 as int)) && pos <= p.1
                <= text@.len() && (p.1 >= text@.len() || text@[p.1 as int] == '}'),
            Result::Err(e) => sp_ops(ctx@, text@, pos as int, ops_model(acc@, acc@.len() as int))
                is None,
        },
    decreases text@.len() - pos, 1int,
{
    if pos >= text.len() || text[pos] == '}' {
        return Result::Ok((acc, pos));
    }
    match parse_op(ctx, text, pos) {
        Result::Err(e) => Result::Err(e),
        Result::Ok((op, np)) => {
            let mut acc2 = acc;
            proof {
                crate::ir::lemma_ops_model_push(acc2@, op);
            }
            acc2.push(op);
            parse_ops(ctx, text, np, acc2)
        },
    }
}

/// Reads regions, each `(` blocks `)`.
fn parse_regions(ctx: &Context, text: &Vec<char>, pos: usize, acc: Vec<Region>) -> (r: Result<
    (Vec<Region>, usize),
    usize,
>)
    requires
        pos <= text@.len(),
    ensures
        match r {
            Result::Ok(p) => sp_regions(
                ctx@,
                text@,
                pos as int,
                crate::ir::regions_model(acc@, acc@.len() as int),
            ) == Option::Some(
                (crate::ir::regions_model(p.0@, p.0@.len() as int), p.1 as int),
            ) && pos <= p.1 <= text@.len(),
            Result::Err(e) => sp_regions(
                ctx@,
                text@,
                pos as int,
                crate::ir::regions_model(acc@, acc@.len() as int),
            ) is None,
        },
    decreases text@.len() - pos, 1int,
{
    if pos >= text.len() || !(text[pos] == '(') {
        return Result::Ok((acc, pos));
    }
    let out_blocks: Vec<Block> = Vec::new();
    proof {
        assert(crate::ir::blocks_model(out_blocks@, 0) =~= Seq::<BlockModel>::empty());
    }
    match parse_blocks(ctx, text, pos + 1, out_blocks) {
        Result::Err(e) => Result::Err(e),
        Result::Ok((bs, p1)) => {
            let p2 = expect(text, p1, ')')?;
            let mut acc2 = acc;
            proof {
                crate::ir::lemma_regions_model_push(acc2@, Region { blocks: bs });
            }
            let newr = Region { blocks: bs };
            acc2.push(newr);
            parse_regions(ctx, text, p2, acc2)
        },
    }
}

/// Reads blocks, each `<` argument types `>{` operations `}`.
fn parse_blocks(ctx: &Context, text: &Vec<char>, pos: usize, acc: Vec<Block>) -> (r: Result<
    (Vec<Block>, usize),
    usize,
>)
    requires
        pos <= text@.len(),
    ensures
        match r {
            Result::Ok(p) => sp_blocks(
                ctx@,
                text@,
                pos as int,
                crate::ir::blocks_model(acc@, acc@.len() as int),
            ) == Option::Some(
                (crate::ir::blocks_model(p.0@, p.0@.len() as int), p.1 as int),
            ) && pos <= p.1 <= text@.len(),
            Result::Err(e) => sp_blocks(
                ctx@,
                text@,
                pos as int,
                crate::ir::blocks_model(acc@, acc@.len() as int),
            ) is None,
        },
    decreases text@.len() - pos, 1int,
{
    if pos >= text.len() || !(text[pos] == '<') {
        return Result::Ok((acc, pos));
    }
    let (arg_types, p1) = parse_tys(text, pos + 1, '>')?;
    let p2 = expect(text, p1, '>')?;
    let p3 = expect(text, p2, '{')?;
    let out_ops: Vec<Operation> = Vec::new();
    proof {
        assert(ops_model(out_ops@, 0) =~= Seq::<OpModel>::empty());
    }
    match parse_ops(ctx, text, p3, out_ops) {
        Result::Err(e) => Result::Err(e),
        Result::Ok((ops, p4)) => {
            let p5 = expect(text, p4, '}')?;
            let mut acc2 = acc;
            let newb = Block { arg_types, ops };
            proof {
                crate::ir::lemma_blocks_model_push(acc2@, newb);
            }
            acc2.push(newb);
            parse_blocks(ctx, text, p5, acc2)
        },
    }
}

/// Parses the textual form back into a module tree: on success the result
/// is exactly the module `sp_module` reads off the text (kinds resolved by
/// name against the registry, every location unknown, since the textual
/// form does not carry locations), and on failure no such module exists and
/// the error carries the line and column where reading stopped.
pub fn parse_module(ctx: &Context, text: &Vec<char>) -> (r: Result<Module, ParseError>)
    ensures
        match r {
            Result::Ok(m) => sp_module(ctx@, text@) == Option::Some(m@),
            Result::Err(e) => sp_module(ctx@, text@) is None && e.line >= 1 && e.col >= 1,
        },
{
    proof {
        reveal_strlit("module{");
    }
    let mut cur: usize = 0;
    let header = ['m', 'o', 'd', 'u', 'l', 'e', '{'];
    let mut hi: usize = 0;
    while hi < 7
        invariant
            hi <= 7,
            cur == hi,
            cur <= text@.len(),
            forall|k: int| 0 <= k < hi ==> text@[k] == ("module{"@)[k],
        decreases 7 - hi,
    {
        proof {
            reveal_strlit("module{");
        }
        if cur >= text.len() || !(text[cur] == header[hi]) {
            proof {
                if text@.len() >= 7 {
                    assert(text@.subrange(0, 7)[hi as int] != ("module{"@)[hi as int]);
                }
            }
            let lc = position_of(text, cur);
            return Result::Err(ParseError { line: lc.0, col: lc.1 });
        }
        assert(text@[hi as int] == ("module{"@)[hi as int]);
        cur = cur + 1;
        hi = hi + 1;
    }
    proof {
        assert(text@.subrange(0, 7) =~= "module{"@);
    }
    let out_body: Vec<Operation> = Vec::new();
    proof {
        assert(ops_model(out_body@, 0) =~= Seq::<OpModel>::empty());
    }
    match parse_ops(ctx, text, 7, out_body) {
        Result::Err(e) => {
            let lc = position_of(text, e);
            Result::Err(ParseError { line: lc.0, col: lc.1 })
        },
        Result::Ok((body, p)) => {
            if p < text.len() && p + 1 == text.len() {
                assert(text@[p as int] == '}');
                let m = Module { body, location: Location::Unknown };
                proof {
                    assert(sp_module(ctx@, text@) == Option::Some(m@)) by {
                        assert(m@.body =~= ops_model(m.body@, m.body@.len() as int));
                    };
                }
                Result::Ok(m)
            } else {
                let lc = position_of(text, p);
                Result::Err(ParseError { line: lc.0, col: lc.1 })
            }
        },
    }
}

/// A module's text as a string, for display.
pub fn text_to_string(text: &Vec<char>) -> (r: String)
    ensures
        r@ == text@,
{
    let mut s = String::new();
    let mut i: usize = 0;
    while i < text.len()
        invariant
            i <= text@.len(),
            s@ == text@.subrange(0, i as int),
        decreases text@.len() - i,
    {
        string_push_char(&mut s, text[i]);
        assert(s@ =~= text@.subrange(0, i + 1 as int));
        i = i + 1;
    }
    assert(s@ =~= text@);
    s
}

} // verus!
