//! The context: the open registry of operation kinds. A kind declares its
//! name, its operand and result arities, whether all operand and result
//! types must agree, whether it is a terminator, and its executable
//! semantics, if any.

use vstd::prelude::*;

verus! {

/// The executable semantics of an operation kind, used by the backend.
/// High-level kinds are opaque to the backend and must be lowered first.
#[derive(Clone, Copy, PartialEq, Eq, Structural, Debug)]
pub enum Sem {
    /// No executable semantics: the backend refuses the operation.
    Opaque,
    /// Defines a function: one region, one block, with name and signature
    /// attributes.
    FuncDef,
    /// Integer addition, wrapping at the result type's width.
    IAdd,
    /// Returns its operands to the caller; a terminator.
    Ret,
}

/// The declaration of one operation kind.
#[derive(Debug)]
pub struct KindDecl {
    pub name: String,
    /// `Some(n)`: exactly n operands; `None`: any number.
    pub n_operands: Option<usize>,
    /// `Some(n)`: exactly n results; `None`: any number.
    pub n_results: Option<usize>,
    /// All operand and result types must be one and the same type.
    pub uniform: bool,
    /// The kind ends a block's control flow.
    pub terminator: bool,
    pub sem: Sem,
}

pub ghost struct KindModel {
    pub name: Seq<char>,
    pub n_operands: Option<usize>,
    pub n_results: Option<usize>,
    pub uniform: bool,
    pub terminator: bool,
    pub sem: Sem,
}

impl DeepView for KindDecl {
    type V = KindModel;

    open spec fn deep_view(&self) -> KindModel {
        KindModel {
            name: self.name@,
            n_operands: self.n_operands,
            n_results: self.n_results,
            uniform: self.uniform,
            terminator: self.terminator,
            sem: self.sem,
        }
    }
}

/// Session-scoped owner of the registered operation kinds. A kind tag in an
/// operation is an index into this registry.
#[derive(Debug)]
pub struct Context {
    pub kinds: Vec<KindDecl>,
}

pub ghost struct CtxModel {
    pub kinds: Seq<KindModel>,
}

impl View for Context {
    type V = CtxModel;

    open spec fn view(&self) -> CtxModel {
        CtxModel { kinds: self.kinds.deep_view() }
    }
}

/// Characters allowed in a kind name: lower-case letters, digits, dots and
/// underscores, so that the textual form can end a name at any delimiter.
pub open spec fn kind_name_char_ok(c: char) -> bool {
    ('a' <= c && c <= 'z') || ('0' <= c && c <= '9') || c == '.' || c == '_'
}

pub open spec fn kind_name_ok(name: Seq<char>) -> bool {
    0 < name.len() && forall|i: int| 0 <= i < name.len() ==> kind_name_char_ok(name[i])
}

/// Whether some registered kind already carries this name.
pub open spec fn has_kind_name(kinds: Seq<KindModel>, name: Seq<char>) -> bool {
    exists|i: int| 0 <= i < kinds.len() && kinds[i].name == name
}

/// A well-formed context: every name is valid and no two kinds share one.
pub open spec fn wf_context(ctx: CtxModel) -> bool {
    &&& forall|i: int| 0 <= i < ctx.kinds.len() ==> kind_name_ok(#[trigger] ctx.kinds[i].name)
    &&& forall|i: int, j: int|
        0 <= i < j < ctx.kinds.len() ==> ctx.kinds[i].name != ctx.kinds[j].name
}

/// Whether a list length satisfies a declared arity.
pub open spec fn arity_matches(declared: Option<usize>, have: nat) -> bool {
    match declared {
        Option::Some(n) => n as nat == have,
        Option::None => true,
    }
}

/// The operand types followed by the result types of an operation.
pub open spec fn operand_result_tys(operands: Seq<crate::ir::Value>, result_types: Seq<
    crate::ir::Ty,
>) -> Seq<crate::ir::Ty> {
    operands.map_values(|v: crate::ir::Value| v.ty) + result_types
}

/// How `operand_result_tys` indexes: operand types first, result types
/// after them.
pub proof fn lemma_operand_result_tys(
    operands: Seq<crate::ir::Value>,
    result_types: Seq<crate::ir::Ty>,
)
    ensures
        operand_result_tys(operands, result_types).len() == operands.len() + result_types.len(),
        forall|i: int|
            0 <= i < operands.len() ==> operand_result_tys(operands, result_types)[i]
                == operands[i].ty,
        forall|i: int|
            operands.len() <= i < operands.len() + result_types.len() ==> operand_result_tys(
                operands,
                result_types,
            )[i] == result_types[i - operands.len()],
{
}

pub open spec fn all_same_ty(tys: Seq<crate::ir::Ty>) -> bool {
    forall|i: int, j: int| 0 <= i < tys.len() && 0 <= j < tys.len() ==> tys[i] == tys[j]
}

/// The kind-local acceptance predicate: both arities match and, for a
/// uniform kind, all operand and result types agree.
pub open spec fn kind_accepts(
    decl: KindModel,
    operands: Seq<crate::ir::Value>,
    result_types: Seq<crate::ir::Ty>,
) -> bool {
    &&& arity_matches(decl.n_operands, operands.len())
    &&& arity_matches(decl.n_results, result_types.len())
    &&& (decl.uniform ==> all_same_ty(operand_result_tys(operands, result_types)))
}

impl Context {
    /// An empty registry.
    pub fn new() -> (ctx: Context)
        ensures
            ctx@.kinds.len() == 0,
            wf_context(ctx@),
    {
        Context { kinds: Vec::new() }
    }

    /// Registers a new operation kind and returns its tag. Returns `None`,
    /// leaving the registry unchanged, when the name is invalid or already
    /// taken.
    pub fn register_kind(&mut self, decl: KindDecl) -> (r: Option<usize>)
        ensures
            match r {
                Option::Some(id) => {
                    &&& kind_name_ok(decl.deep_view().name)
                    &&& !has_kind_name(old(self)@.kinds, decl.deep_view().name)
                    &&& id == old(self)@.kinds.len()
                    &&& final(self)@.kinds == old(self)@.kinds.push(decl.deep_view())
                    &&& (wf_context(old(self)@) ==> wf_context(final(self)@))
                },
                Option::None => {
                    &&& *final(self) == *old(self)
                    &&& !(kind_name_ok(decl.deep_view().name) && !has_kind_name(old(self)@.kinds, decl.deep_view().name))
                },
            },
    {
        let n = decl.name.unicode_len();
        if n == 0 {
            return Option::None;
        }
        let mut i: usize = 0;
        while i < n
            invariant
                i <= n,
                n == decl.name@.len(),
                forall|k: int| 0 <= k < i ==> kind_name_char_ok(decl.name@[k]),
            decreases n - i,
        {
            let c = decl.name.as_str().get_char(i);
            let ok = ('a' <= c && c <= 'z') || ('0' <= c && c <= '9') || c == '.' || c == '_';
            if !ok {
                return Option::None;
            }
            i = i + 1;
        }
        let mut j: usize = 0;
        while j < self.kinds.len()
            invariant
                j <= self@.kinds.len(),
                forall|k: int| 0 <= k < j ==> self@.kinds[k].name != decl.deep_view().name,
            decreases self.kinds.len() - j,
        {
            if self.kinds[j].name == decl.name {
                assert(self@.kinds[j as int].name == decl.deep_view().name);
                return Option::None;
            }
            j = j + 1;
        }
        let id = self.kinds.len();
        self.kinds.push(decl);
        assert(self@.kinds =~= old(self)@.kinds.push(decl.deep_view()));
        Option::Some(id)
    }
}

/// Tag of `func.func`: a high-level function definition.
pub const KIND_FUNC: usize = 0;

/// Tag of `func.return`: the high-level function terminator.
pub const KIND_RETURN: usize = 1;

/// Tag of `arith.addi`: high-level integer addition.
pub const KIND_ADDI: usize = 2;

/// Tag of `ll.func`: a lowered function definition the backend can compile.
pub const KIND_LL_FUNC: usize = 3;

/// Tag of `ll.return`: the lowered terminator.
pub const KIND_LL_RETURN: usize = 4;

/// Tag of `ll.add`: lowered wrapping integer addition.
pub const KIND_LL_ADD: usize = 5;

pub open spec fn func_func_decl() -> KindModel {
    KindModel {
        name: "func.func"@,
        n_operands: Option::Some(0),
        n_results: Option::Some(0),
        uniform: false,
        terminator: false,
        sem: Sem::Opaque,
    }
}

pub open spec fn func_return_decl() -> KindModel {
    KindModel {
        name: "func.return"@,
        n_operands: Option::None,
        n_results: Option::Some(0),
        uniform: false,
        terminator: true,
        sem: Sem::Opaque,
    }
}

pub open spec fn arith_addi_decl() -> KindModel {
    KindModel {
        name: "arith.addi"@,
        n_operands: Option::Some(2),
        n_results: Option::Some(1),
        uniform: true,
        terminator: false,
        sem: Sem::Opaque,
    }
}

pub open spec fn ll_func_decl() -> KindModel {
    KindModel {
        name: "ll.func"@,
        n_operands: Option::Some(0),
        n_results: Option::Some(0),
        uniform: false,
        terminator: false,
        sem: Sem::FuncDef,
    }
}

pub open spec fn ll_return_decl() -> KindModel {
    KindModel {
        name: "ll.return"@,
        n_operands: Option::None,
        n_results: Option::Some(0),
        uniform: false,
        terminator: true,
        sem: Sem::Ret,
    }
}

pub open spec fn ll_add_decl() -> KindModel {
    KindModel {
        name: "ll.add"@,
        n_operands: Option::Some(2),
        n_results: Option::Some(1),
        uniform: true,
        terminator: false,
        sem: Sem::IAdd,
    }
}

impl Context {
    /// A context with the standard dialects loaded: the high-level `func`
    /// and `arith` kinds and their low-level `ll` counterparts.
    pub fn standard() -> (ctx: Context)
        ensures
            ctx@.kinds.len() == 6,
            ctx@.kinds[KIND_FUNC as int] == func_func_decl(),
            ctx@.kinds[KIND_RETURN as int] == func_return_decl(),
            ctx@.kinds[KIND_ADDI as int] == arith_addi_decl(),
            ctx@.kinds[KIND_LL_FUNC as int] == ll_func_decl(),
            ctx@.kinds[KIND_LL_RETURN as int] == ll_return_decl(),
            ctx@.kinds[KIND_LL_ADD as int] == ll_add_decl(),
            wf_context(ctx@),
    {
        let mut kinds: Vec<KindDecl> = Vec::new();
        kinds.push(
            KindDecl {
                name: "func.func".to_owned(),
                n_operands: Option::Some(0),
                n_results: Option::Some(0),
                uniform: false,
                terminator: false,
                sem: Sem::Opaque,
            },
        );
        kinds.push(
            KindDecl {
                name: "func.return".to_owned(),
                n_operands: Option::None,
                n_results: Option::Some(0),
                uniform: false,
                terminator: true,
                sem: Sem::Opaque,
            },
        );
        kinds.push(
            KindDecl {
                name: "arith.addi".to_owned(),
                n_operands: Option::Some(2),
                n_results: Option::Some(1),
                uniform: true,
                terminator: false,
                sem: Sem::Opaque,
            },
        );
        kinds.push(
            KindDecl {
                name: "ll.func".to_owned(),
                n_operands: Option::Some(0),
                n_results: Option::Some(0),
                uniform: false,
                terminator: false,
                sem: Sem::FuncDef,
            },
        );
        kinds.push(
            KindDecl {
                name: "ll.return".to_owned(),
                n_operands: Option::None,
                n_results: Option::Some(0),
                uniform: false,
                terminator: true,
                sem: Sem::Ret,
            },
        );
        kinds.push(
            KindDecl {
                name: "ll.add".to_owned(),
                n_operands: Option::Some(2),
                n_results: Option::Some(1),
                uniform: true,
                terminator: false,
                sem: Sem::IAdd,
            },
        );
        let ctx = Context { kinds };
        proof {
            reveal_strlit("func.func");
            reveal_strlit("func.return");
            reveal_strlit("arith.addi");
            reveal_strlit("ll.func");
            reveal_strlit("ll.return");
            reveal_strlit("ll.add");
            assert(kind_name_ok("func.func"@));
            assert(kind_name_ok("func.return"@));
            assert(kind_name_ok("arith.addi"@));
            assert(kind_name_ok("ll.func"@));
            assert(kind_name_ok("ll.return"@));
            assert(kind_name_ok("ll.add"@));
            let gm = ctx@.kinds;
            assert(gm[0].name == "func.func"@);
            assert(gm[1].name == "func.return"@);
            assert(gm[2].name == "arith.addi"@);
            assert(gm[3].name == "ll.func"@);
            assert(gm[4].name == "ll.return"@);
            assert(gm[5].name == "ll.add"@);
            assert(("func.func"@)[0] == 'f');
            assert(("ll.return"@)[0] == 'l');
            assert forall|i: int| 0 <= i < gm.len() implies kind_name_ok(
                #[trigger] gm[i].name,
            ) by {}
            assert forall|i: int, j: int| 0 <= i < j < gm.len() implies gm[i].name != gm[j].name by {}
        }
        ctx
    }
}

} // verus!
