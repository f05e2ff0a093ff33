//! Queries on the typed program that the detectors share: the absolute path
//! of a definition, the definition that a call goes to, and the unsafety of
//! a function type.

use crate::analysis::AnalysisErrorKind;
use crate::ir::{Callee, DefId, DefPathData, Expr, ExprKind, ImplHeader, Program, Res, Ty, Unsafety};
use crate::paths::symbols;
use vstd::prelude::*;
use vstd::string::StringExecFns;

verus! {

/// Why a query on the typed program failed.
#[derive(Clone, Copy, Debug, PartialEq, Eq, Structural)]
pub enum ExtError {
    NonFunctionType,
    InvalidOwner,
    UnsupportedCall,
    UnhandledCall,
}

impl ExtError {
    pub open spec fn class(self) -> AnalysisErrorKind {
        match self {
            ExtError::NonFunctionType => AnalysisErrorKind::Unreachable,
            ExtError::InvalidOwner => AnalysisErrorKind::Unreachable,
            ExtError::UnsupportedCall => AnalysisErrorKind::OutOfScope,
            ExtError::UnhandledCall => AnalysisErrorKind::Unimplemented,
        }
    }

    pub fn kind(&self) -> (kind: AnalysisErrorKind)
        ensures
            kind == self.class(),
    {
        match self {
            ExtError::NonFunctionType => AnalysisErrorKind::Unreachable,
            ExtError::InvalidOwner => AnalysisErrorKind::Unreachable,
            ExtError::UnsupportedCall => AnalysisErrorKind::OutOfScope,
            ExtError::UnhandledCall => AnalysisErrorKind::Unimplemented,
        }
    }
}

/// The component that an implementation adds below its enclosing module:
/// `<impl Trait for Type>`, or `<impl Type>` for an inherent one.
pub open spec fn impl_label(h: ImplHeader) -> Seq<char> {
    match h.trait_ref {
        Some(t) => "<impl "@ + t.path@ + " for "@ + h.self_ty@ + ">"@,
        None => "<impl "@ + h.self_ty@ + ">"@,
    }
}

/// The single component that stands for an implementation which lives
/// beside its type or its trait: the trait reference, or `<Type>`.
pub open spec fn qualified_label(h: ImplHeader) -> Seq<char> {
    match h.trait_ref {
        Some(t) => t.debug@,
        None => "<"@ + h.self_ty@ + ">"@,
    }
}

/// Whether an implementation enclosed by `parent` lives in the module of
/// its self type or of its trait.
pub open spec fn colocated(p: Program, parent: Option<DefId>, h: ImplHeader) -> bool {
    &&& parent is Some
    &&& {
        ||| h.self_home matches Some(t) && p.parent(t) == parent
        ||| h.trait_ref matches Some(tr) && p.parent(tr.def) == parent
    }
}

/// The absolute path of `id`, followed through at most `fuel` definitions.
///
/// A crate root is its name. A named definition adds its name to the path
/// of its parent; a foreign block and a constructor add nothing. An inherent
/// implementation that lives beside its struct, enum or union has the path
/// of that type, so that a method is found under the type's name. Any other
/// implementation beside its type or trait is one component by itself, and
/// one that lives elsewhere adds a component to its parent's path.
/// An unknown `id` has the empty path, and so has a definition without a
/// parent that is no crate root.
pub open spec fn def_path_within(p: Program, id: DefId, fuel: nat) -> Seq<Seq<char>>
    decreases fuel,
{
    if fuel == 0 || !p.has(id) {
        Seq::empty()
    } else {
        let d = p.def(id);
        let above = match d.parent {
            Some(parent) => def_path_within(p, parent, (fuel - 1) as nat),
            None => Seq::empty(),
        };
        match d.data {
            DefPathData::CrateRoot { name } => seq![name@],
            DefPathData::ForeignMod => above,
            DefPathData::Ctor => above,
            DefPathData::Named(name) => above.push(name@),
            DefPathData::Impl(h) => {
                if colocated(p, d.parent, h) {
                    if h.trait_ref is None && h.self_adt is Some {
                        def_path_within(p, h.self_adt->0, (fuel - 1) as nat)
                    } else {
                        seq![qualified_label(h)]
                    }
                } else {
                    above.push(impl_label(h))
                }
            },
        }
    }
}

/// The absolute path of `id` in `p`. No path is longer than the table of
/// definitions, so that many steps are enough wherever the parents form a
/// tree.
pub open spec fn def_path(p: Program, id: DefId) -> Seq<Seq<char>> {
    def_path_within(p, id, p.defs@.len())
}

/// Whether `rank` puts every definition of `p` above the definitions that
/// its path is made from: its parent, and for an implementation the type
/// that it is written for.
pub open spec fn ranks(p: Program, rank: spec_fn(DefId) -> nat) -> bool {
    forall|id: DefId| #[trigger]
        p.has(id) ==> {
            &&& p.def(id).parent matches Some(m) ==> p.has(m) ==> rank(m) < rank(id)
            &&& p.def(id).data matches DefPathData::Impl(h) ==> h.self_adt matches Some(a) ==> p.has(
                a,
            ) ==> rank(a) < rank(id)
        }
}

/// Where the definitions can be ranked, a path is complete as soon as it
/// may be followed through more definitions than the rank of where it
/// starts: to follow it further changes nothing.
pub proof fn lemma_fuel_suffices(p: Program, rank: spec_fn(DefId) -> nat, id: DefId, fuel: nat)
    requires
        ranks(p, rank),
        fuel > rank(id),
    ensures
        def_path_within(p, id, fuel) == def_path_within(p, id, rank(id) + 1),
    decreases rank(id),
{
    if p.has(id) {
        let d = p.def(id);
        let more = (fuel - 1) as nat;
        let less = rank(id);
        match d.parent {
            Some(m) => {
                if p.has(m) {
                    lemma_fuel_suffices(p, rank, m, more);
                    lemma_fuel_suffices(p, rank, m, less);
                }
                assert(def_path_within(p, m, more) == def_path_within(p, m, less));
            },
            None => {},
        }
        match d.data {
            DefPathData::Impl(h) => {
                match h.self_adt {
                    Some(a) => {
                        if p.has(a) {
                            lemma_fuel_suffices(p, rank, a, more);
                            lemma_fuel_suffices(p, rank, a, less);
                        }
                        assert(def_path_within(p, a, more) == def_path_within(p, a, less));
                    },
                    None => {},
                }
            },
            _ => {},
        }
    }
}

/// Where the definitions can be ranked below the size of the table,
/// `def_path` is the whole path: no number of steps beyond the size of the
/// table makes it longer.
pub proof fn lemma_def_path_is_whole(
    p: Program,
    rank: spec_fn(DefId) -> nat,
    id: DefId,
    fuel: nat,
)
    requires
        ranks(p, rank),
        rank(id) < p.defs@.len(),
        fuel >= p.defs@.len(),
    ensures
        def_path_within(p, id, fuel) == def_path(p, id),
{
    lemma_fuel_suffices(p, rank, id, fuel);
    lemma_fuel_suffices(p, rank, id, p.defs@.len());
}

/// The definition that the call `e` goes to. `Ok(None)` is for an
/// expression that is no call, and for a method call that type checking
/// left unresolved.
pub open spec fn fn_def_of(p: Program, e: Expr) -> Result<Option<DefId>, ExtError> {
    if p.body(e.owner) is None {
        Err(ExtError::InvalidOwner)
    } else {
        match e.kind {
            ExprKind::Call(Callee::Path(Res::Def(id))) => Ok(Some(id)),
            ExprKind::Call(Callee::Path(Res::Other)) => Err(ExtError::UnhandledCall),
            ExprKind::Call(Callee::Field) => Err(ExtError::UnsupportedCall),
            ExprKind::Call(Callee::Other) => Err(ExtError::UnhandledCall),
            ExprKind::MethodCall(resolved) => Ok(resolved),
            _ => Ok(None),
        }
    }
}

/// Gives a program its extension.
pub trait TyCtxtExt<'p> {
    fn ext(self) -> TyCtxtExtension<'p>;
}

impl<'p> TyCtxtExt<'p> for &'p Program {
    fn ext(self) -> (e: TyCtxtExtension<'p>)
        ensures
            e.program() == *self,
    {
        TyCtxtExtension { tcx: self }
    }
}

/// Queries on a program beyond looking up its tables.
#[derive(Clone, Copy)]
pub struct TyCtxtExtension<'p> {
    tcx: &'p Program,
}

impl<'p> TyCtxtExtension<'p> {
    pub closed spec fn program(self) -> Program {
        *self.tcx
    }

    /// The unsafety of a function type; other types have none.
    pub fn fn_type_unsafety(self, ty: &Ty) -> (r: Result<Unsafety, ExtError>)
        ensures
            r == match *ty {
                Ty::FnDef(u) => Ok::<Unsafety, ExtError>(u),
                Ty::FnPtr(u) => Ok(u),
                Ty::Closure(u) => Ok(u),
                _ => Err(ExtError::NonFunctionType),
            },
    {
        match ty {
            Ty::FnDef(u) => Ok(*u),
            Ty::FnPtr(u) => Ok(*u),
            Ty::Closure(u) => Ok(*u),
            _ => Err(ExtError::NonFunctionType),
        }
    }

    /// Whether the absolute path of `def_id` is `syms`, symbol for symbol.
    pub fn match_def_path(self, def_id: DefId, syms: &[&str]) -> (b: bool)
        ensures
            b == (def_path(self.program(), def_id) == syms@.map_values(|s: &str| s@)),
    {
        let names = self.get_def_path(def_id);
        let ghost want = syms@.map_values(|s: &str| s@);
        let ghost have = symbols(names@);
        if names.len() != syms.len() {
            assert(have.len() != want.len());
            return false;
        }
        let mut i: usize = 0;
        while i < names.len()
            invariant
                i <= names.len(),
                names.len() == syms.len(),
                want == syms@.map_values(|s: &str| s@),
                have == symbols(names@),
                have == def_path(self.program(), def_id),
                forall|k: int| 0 <= k < i ==> have[k] == want[k],
            decreases names.len() - i,
        {
            let sym: String = syms[i].to_owned();
            if names[i] != sym {
                assert(have[i as int] != want[i as int]);
                return false;
            }
            i += 1;
        }
        assert(have =~= want);
        true
    }

    /// The absolute path of `def_id`.
    pub fn get_def_path(&self, def_id: DefId) -> (path: Vec<String>)
        ensures
            symbols(path@) == def_path(self.program(), def_id),
    {
        path_within(self.tcx, def_id, self.tcx.defs.len())
    }
}

fn home_is(program: &Program, of: Option<DefId>, parent: DefId) -> (b: bool)
    ensures
        b == (of matches Some(t) && program.parent(t) == Some(parent)),
{
    match of {
        Some(t) => match program.parent_of(t) {
            Some(m) => m.index == parent.index,
            None => false,
        },
        None => false,
    }
}

fn lives_beside(program: &Program, parent: Option<DefId>, h: &ImplHeader) -> (b: bool)
    ensures
        b == colocated(*program, parent, *h),
{
    match parent {
        Some(m) => {
            let beside_type = home_is(program, h.self_home, m);
            let beside_trait = match &h.trait_ref {
                Some(tr) => home_is(program, Some(tr.def), m),
                None => false,
            };
            beside_type || beside_trait
        },
        None => false,
    }
}

fn label_of_impl(h: &ImplHeader) -> (label: String)
    ensures
        label@ == impl_label(*h),
{
    let mut label = String::from_str("<impl ");
    match &h.trait_ref {
        Some(t) => {
            label.append(t.path.as_str());
            label.append(" for ");
        },
        None => {},
    }
    label.append(h.self_ty.as_str());
    label.append(">");
    label
}

fn label_of_qualified(h: &ImplHeader) -> (label: String)
    ensures
        label@ == qualified_label(*h),
{
    match &h.trait_ref {
        Some(t) => t.debug.clone(),
        None => {
            let mut label = String::from_str("<");
            label.append(h.self_ty.as_str());
            label.append(">");
            label
        },
    }
}

fn path_above(program: &Program, parent: Option<DefId>, fuel: usize) -> (path: Vec<String>)
    ensures
        symbols(path@) == match parent {
            Some(m) => def_path_within(*program, m, fuel as nat),
            None => Seq::empty(),
        },
    decreases fuel, 1nat,
{
    match parent {
        Some(m) => path_within(program, m, fuel),
        None => {
            let path: Vec<String> = Vec::new();
            path
        },
    }
}

fn path_within(program: &Program, id: DefId, fuel: usize) -> (path: Vec<String>)
    ensures
        symbols(path@) == def_path_within(*program, id, fuel as nat),
    decreases fuel, 0nat,
{
    let mut path: Vec<String> = Vec::new();
    if fuel == 0 {
        return path;
    }
    let d = match program.get(id) {
        Some(d) => d,
        None => {
            return path;
        },
    };
    match &d.data {
        DefPathData::CrateRoot { name } => {
            path.push(name.clone());
            path
        },
        DefPathData::ForeignMod => path_above(program, d.parent, fuel - 1),
        DefPathData::Ctor => path_above(program, d.parent, fuel - 1),
        DefPathData::Named(name) => {
            let mut path = path_above(program, d.parent, fuel - 1);
            path.push(name.clone());
            path
        },
        DefPathData::Impl(h) => {
            if lives_beside(program, d.parent, h) {
                match (&h.trait_ref, h.self_adt) {
                    (None, Some(adt)) => path_within(program, adt, fuel - 1),
                    _ => {
                        let label = label_of_qualified(h);
                        path.push(label);
                        path
                    },
                }
            } else {
                let mut path = path_above(program, d.parent, fuel - 1);
                let label = label_of_impl(h);
                path.push(label);
                path
            }
        },
    }
}

/// Gives an expression its extension.
pub trait ExprExt<'p> {
    fn ext(self) -> ExprExtension<'p>;
}

impl<'p> ExprExt<'p> for &'p Expr {
    fn ext(self) -> (e: ExprExtension<'p>)
        ensures
            e.expr() == *self,
    {
        ExprExtension { expr: self }
    }
}

/// Queries on an expression.
#[derive(Clone, Copy)]
pub struct ExprExtension<'p> {
    expr: &'p Expr,
}

impl<'p> ExprExtension<'p> {
    pub closed spec fn expr(self) -> Expr {
        *self.expr
    }

    /// The definition that the call goes to, or why it is not known.
    pub fn resolve_fn_def(self, tcx: &Program) -> (r: Result<Option<DefId>, ExtError>)
        ensures
            r == fn_def_of(*tcx, self.expr()),
    {
        if tcx.body_of(self.expr.owner).is_none() {
            return Err(ExtError::InvalidOwner);
        }
        match self.expr.kind {
            ExprKind::Call(callee) => match callee {
                Callee::Path(res) => match res {
                    Res::Def(def_id) => Ok(Some(def_id)),
                    _ => Err(ExtError::UnhandledCall),
                },
                Callee::Field => Err(ExtError::UnsupportedCall),
                _ => Err(ExtError::UnhandledCall),
            },
            ExprKind::MethodCall(resolved) => Ok(resolved),
            _ => Ok(None),
        }
    }

    /// The definition that the call goes to, if the expression is a call
    /// whose callee is known.
    pub fn as_fn_def_id(self, tcx: &Program) -> (def_id: Option<DefId>)
        ensures
            def_id == match fn_def_of(*tcx, self.expr()) {
                Ok(found) => found,
                Err(_) => None,
            },
    {
        match self.resolve_fn_def(tcx) {
            Ok(found) => found,
            Err(_) => None,
        }
    }
}

} // verus!
