//! The typed program as the detectors read it: definitions with their place
//! in the module tree, the shapes of types, and function bodies as sequences
//! of statements.
//!
//! Everything here is plain data. Whoever holds the compiler's typed
//! representation fills these tables; nothing in this crate changes them.

use crate::report::Span;
use vstd::prelude::*;

verus! {

/// Identifier of a definition: its index in the program's table.
#[derive(Clone, Copy, Debug, PartialEq, Eq, Hash, Structural)]
pub struct DefId {
    pub index: usize,
}

/// Whether a function may only be called from an unsafe context.
#[derive(Clone, Copy, Debug, PartialEq, Eq, Structural)]
pub enum Unsafety {
    Unsafe,
    Normal,
}

/// The bounds written on one generic parameter.
#[derive(Clone, Copy, Debug, PartialEq, Eq, Structural)]
pub struct Bounds {
    pub send: bool,
    pub sync: bool,
    pub copy: bool,
}

/// The shape of a type, as far as the detectors look into it.
#[derive(Debug, PartialEq, Eq)]
pub enum Ty {
    /// A generic parameter, by its position among the parameters in scope.
    Param(usize),
    RawPtr(Box<Ty>),
    Ref(Box<Ty>),
    /// A struct, enum or union with its generic arguments.
    Adt { def: DefId, args: Vec<Ty> },
    /// The zero-size marker that carries a type without storing a value of it.
    Phantom(Box<Ty>),
    FnDef(Unsafety),
    FnPtr(Unsafety),
    Closure(Unsafety),
    Other,
}

impl Ty {
    /// Whether a value of this type holds, or points to, a value of the
    /// generic parameter `param`. What stands inside the marker type is not
    /// held.
    pub open spec fn mentions(self, param: usize) -> bool
        decreases self,
    {
        match self {
            Ty::Param(i) => i == param,
            Ty::RawPtr(t) => t.mentions(param),
            Ty::Ref(t) => t.mentions(param),
            Ty::Adt { def, args } => exists|k: int|
                0 <= k < args@.len() && (#[trigger] args@[k]).mentions(param),
            _ => false,
        }
    }

    pub fn has_param(&self, param: usize) -> (b: bool)
        ensures
            b == self.mentions(param),
        decreases self,
    {
        match self {
            Ty::Param(i) => *i == param,
            Ty::RawPtr(t) => t.has_param(param),
            Ty::Ref(t) => t.has_param(param),
            Ty::Adt { def, args } => {
                let mut k: usize = 0;
                while k < args.len()
                    invariant
                        k <= args.len(),
                        self is Adt,
                        self->args == *args,
                        forall|i: int| 0 <= i < k ==> !(#[trigger] args@[i]).mentions(param),
                    decreases args.len() - k,
                {
                    assert(decreases_to!(*self => args@[k as int]));
                    if args[k].has_param(param) {
                        return true;
                    }
                    k += 1;
                }
                false
            },
            _ => false,
        }
    }
}

/// The trait that an implementation is written for, as printed.
#[derive(Debug, PartialEq, Eq)]
pub struct TraitRef {
    pub def: DefId,
    /// The trait's path alone.
    pub path: String,
    /// The trait reference in full, in its debugging form.
    pub debug: String,
}

/// What the path of an implementation is made from.
#[derive(Debug, PartialEq, Eq)]
pub struct ImplHeader {
    /// The self type as printed.
    pub self_ty: String,
    /// The definition of the self type, where it is a struct, enum or union.
    pub self_adt: Option<DefId>,
    /// The definition that stands for the self type when its home module is
    /// asked for: that of the type itself, or of the type it points to.
    pub self_home: Option<DefId>,
    pub trait_ref: Option<TraitRef>,
}

/// What a definition contributes to its path.
#[derive(Debug, PartialEq, Eq)]
pub enum DefPathData {
    CrateRoot { name: String },
    Impl(ImplHeader),
    /// A block of foreign items; it has no name of its own.
    ForeignMod,
    /// The constructor of a tuple or unit struct; it goes by the struct's name.
    Ctor,
    /// Any other definition, by its name as printed.
    Named(String),
}

/// How the callee of a call resolves.
#[derive(Clone, Copy, Debug, PartialEq, Eq, Structural)]
pub enum Res {
    Def(DefId),
    /// A local variable, a primitive, or a resolution error.
    Other,
}

/// The expression that stands in callee position of a call.
#[derive(Clone, Copy, Debug, PartialEq, Eq, Structural)]
pub enum Callee {
    Path(Res),
    /// A field that holds something callable, as in `(self.0)(x)`.
    Field,
    Other,
}

#[derive(Clone, Copy, Debug, PartialEq, Eq, Structural)]
pub enum ExprKind {
    Call(Callee),
    /// A method call with the definition that type checking resolved it to.
    MethodCall(Option<DefId>),
    /// A dereference of a raw pointer.
    RawDeref,
    Other,
}

#[derive(Clone, Copy, Debug, PartialEq, Eq, Structural)]
pub struct Expr {
    /// The definition in whose body the expression stands.
    pub owner: DefId,
    pub kind: ExprKind,
    pub span: Span,
}

/// One statement of a function body.
#[derive(Debug, PartialEq, Eq)]
pub struct Stmt {
    pub expr: Expr,
    /// The control-flow region that the statement stands in.
    pub region: u32,
    /// The local variable that the statement assigns, if any.
    pub defines: Option<u32>,
    /// The local variables that the statement reads: receiver and arguments.
    pub uses: Vec<u32>,
    /// The type of the value that the statement operates on.
    pub operand: Ty,
}

/// The statements of one function or closure, in source order.
#[derive(Debug, PartialEq, Eq)]
pub struct TypedBody {
    pub stmts: Vec<Stmt>,
}

#[derive(Debug, PartialEq, Eq)]
pub struct FnItem {
    /// Whether the function can be called from outside the analyzed unit.
    pub reachable: bool,
    /// Absent for declarations without a body and for foreign items.
    pub body: Option<TypedBody>,
}

#[derive(Debug, PartialEq, Eq)]
pub struct AdtItem {
    /// The declared bounds of each generic parameter.
    pub generics: Vec<Bounds>,
    /// The types of the fields, over the type's own parameters.
    pub fields: Vec<Ty>,
}

/// What an implementation implements.
#[derive(Clone, Copy, Debug, PartialEq, Eq, Structural)]
pub enum ImplOf {
    Send,
    Sync,
    Drop,
    Other,
}

/// An implementation that is written out in the program.
#[derive(Debug, PartialEq, Eq)]
pub struct ImplItem {
    pub of: ImplOf,
    /// The bounds written on each generic parameter of the implementation.
    pub generics: Vec<Bounds>,
    /// The implementing type, over the implementation's parameters.
    pub self_ty: Ty,
    /// For a destructor: the definition of its `drop` method.
    pub drop_fn: Option<DefId>,
}

#[derive(Debug, PartialEq, Eq)]
pub enum Item {
    Fn(FnItem),
    Adt(AdtItem),
    Impl(ImplItem),
    Trait,
    Other,
}

#[derive(Debug, PartialEq, Eq)]
pub struct Definition {
    /// The enclosing definition; absent for a crate root.
    pub parent: Option<DefId>,
    pub data: DefPathData,
    pub span: Span,
    pub item: Item,
}

/// A type-checked program: the table of its definitions and of those it uses
/// from other crates.
#[derive(Debug, PartialEq, Eq)]
pub struct Program {
    pub defs: Vec<Definition>,
}

impl Program {
    /// Whether `id` names a definition of this program.
    pub open spec fn has(self, id: DefId) -> bool {
        id.index < self.defs@.len()
    }

    /// The definition that `id` names.
    pub open spec fn def(self, id: DefId) -> Definition
        recommends
            self.has(id),
    {
        self.defs@[id.index as int]
    }

    /// The enclosing definition of `id`, where `id` names a definition that
    /// has one.
    pub open spec fn parent(self, id: DefId) -> Option<DefId> {
        if self.has(id) {
            self.def(id).parent
        } else {
            None
        }
    }

    /// The body of `id`, where `id` names a function that has one.
    pub open spec fn body(self, id: DefId) -> Option<TypedBody> {
        if self.has(id) {
            match self.def(id).item {
                Item::Fn(f) => f.body,
                _ => None,
            }
        } else {
            None
        }
    }

    /// Whether `id` names a method declared in a trait, which whoever
    /// implements the trait supplies.
    pub open spec fn is_trait_method(self, id: DefId) -> bool {
        &&& self.has(id)
        &&& self.def(id).item is Fn
        &&& self.parent(id) matches Some(p)
        &&& self.has(p)
        &&& self.def(p).item is Trait
    }

    pub fn get(&self, id: DefId) -> (d: Option<&Definition>)
        ensures
            d == if self.has(id) {
                Some(&self.def(id))
            } else {
                None
            },
    {
        if id.index < self.defs.len() {
            Some(&self.defs[id.index])
        } else {
            None
        }
    }

    pub fn parent_of(&self, id: DefId) -> (p: Option<DefId>)
        ensures
            p == self.parent(id),
    {
        match self.get(id) {
            Some(d) => d.parent,
            None => None,
        }
    }

    pub fn body_of(&self, id: DefId) -> (b: Option<&TypedBody>)
        ensures
            b == match self.body(id) {
                Some(body) => Some(&body),
                None => None,
            },
    {
        match self.get(id) {
            Some(d) => match &d.item {
                Item::Fn(f) => match &f.body {
                    Some(body) => Some(body),
                    None => None,
                },
                _ => None,
            },
            None => None,
        }
    }

    pub fn trait_method(&self, id: DefId) -> (b: bool)
        ensures
            b == self.is_trait_method(id),
    {
        match self.get(id) {
            Some(d) => match (&d.item, d.parent) {
                (Item::Fn(_), Some(p)) => match self.get(p) {
                    Some(pd) => match &pd.item {
                        Item::Trait => true,
                        _ => false,
                    },
                    None => false,
                },
                _ => false,
            },
            None => false,
        }
    }
}

} // verus!
