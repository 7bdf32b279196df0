//! The tree model the two engines operate on.
//!
//! The host's program tree is abstracted to the node kinds the engines
//! read or replace: identifiers (tagged with whether the host's scope
//! resolution left them free), member accesses, calls (including
//! dynamic imports), string literals, the three declaration kinds that
//! carry a module-path string, and an opaque "other" node that only
//! carries children.

use vstd::prelude::*;

verus! {

/// The property part of a member access: a static name, or a computed
/// sub-expression (`a[b]`).
#[derive(Debug, PartialEq, Eq)]
pub enum MemberProp {
    Named(String),
    Computed(Box<Expr>),
}

/// What a call expression calls: the dynamic-import keyword, or an
/// ordinary callee expression.
#[derive(Debug, PartialEq, Eq)]
pub enum Callee {
    Import,
    Expr(Box<Expr>),
}

/// An expression node.
#[derive(Debug, PartialEq, Eq)]
pub enum Expr {
    /// An identifier; `free` records whether the host's scope
    /// resolution bound it to nothing but the ambient scope.
    Ident { name: String, free: bool },
    /// A member access `obj.prop` or `obj[prop]`.
    Member { obj: Box<Expr>, prop: MemberProp },
    /// A call; a dynamic import is a call whose callee is `Import`.
    Call { callee: Callee, args: Vec<Expr> },
    /// A string literal.
    StrLit(String),
    /// Any other node shape, reduced to its expression children.
    Other(Vec<Expr>),
}

/// A top-level item of a module.
#[derive(Debug, PartialEq, Eq)]
#[allow(inconsistent_fields)]
pub enum ModuleItem {
    /// `import ... from "src"`.
    ImportDecl { src: String },
    /// `export { ... } from "src"` (the source is optional).
    NamedExport { src: Option<String> },
    /// `export * from "src"`.
    ExportAll { src: String },
    /// A statement, reduced to its expression.
    Stmt(Expr),
}

/// One program/module: a list of items.
#[derive(Debug, PartialEq, Eq)]
pub struct Program {
    pub items: Vec<ModuleItem>,
}

/// Mathematical view of `MemberProp`.
pub enum MemberPropV {
    Named(Seq<char>),
    Computed(Box<ExprV>),
}

/// Mathematical view of `Callee`.
pub enum CalleeV {
    Import,
    Expr(Box<ExprV>),
}

/// Mathematical view of `Expr`.
pub enum ExprV {
    Ident { name: Seq<char>, free: bool },
    Member { obj: Box<ExprV>, prop: MemberPropV },
    Call { callee: CalleeV, args: Seq<ExprV> },
    StrLit(Seq<char>),
    Other(Seq<ExprV>),
}

/// Mathematical view of `ModuleItem`.
#[allow(inconsistent_fields)]
pub enum ModuleItemV {
    ImportDecl { src: Seq<char> },
    NamedExport { src: Option<Seq<char>> },
    ExportAll { src: Seq<char> },
    Stmt(ExprV),
}

/// Mathematical view of `Program`.
pub struct ProgramV {
    pub items: Seq<ModuleItemV>,
}

pub open spec fn member_prop_view(p: MemberProp) -> MemberPropV
    decreases p, 0int,
{
    match p {
        MemberProp::Named(s) => MemberPropV::Named(s@),
        MemberProp::Computed(e) => MemberPropV::Computed(Box::new(expr_view(*e))),
    }
}

pub open spec fn callee_view(c: Callee) -> CalleeV
    decreases c, 0int,
{
    match c {
        Callee::Import => CalleeV::Import,
        Callee::Expr(e) => CalleeV::Expr(Box::new(expr_view(*e))),
    }
}

pub open spec fn expr_view(e: Expr) -> ExprV
    decreases e, 0int,
{
    match e {
        Expr::Ident { name, free } => ExprV::Ident { name: name@, free },
        Expr::Member { obj, prop } => ExprV::Member {
            obj: Box::new(expr_view(*obj)),
            prop: member_prop_view(prop),
        },
        Expr::Call { callee, args } => ExprV::Call {
            callee: callee_view(callee),
            args: exprs_view_from(args, 0),
        },
        Expr::StrLit(s) => ExprV::StrLit(s@),
        Expr::Other(children) => ExprV::Other(exprs_view_from(children, 0)),
    }
}

pub open spec fn exprs_view_from(v: Vec<Expr>, i: int) -> Seq<ExprV>
    decreases v, v@.len() - i,
{
    if i < 0 || i >= v@.len() {
        Seq::empty()
    } else {
        seq![expr_view(v[i])] + exprs_view_from(v, i + 1)
    }
}

/// The view of a vector of expressions, elementwise.
pub open spec fn exprs_view(v: Vec<Expr>) -> Seq<ExprV> {
    exprs_view_from(v, 0)
}

proof fn lemma_exprs_view_from(v: Vec<Expr>, i: int)
    requires
        0 <= i <= v@.len(),
    ensures
        exprs_view_from(v, i).len() == v@.len() - i,
        forall|j: int| i <= j < v@.len() ==> exprs_view_from(v, i)[j - i] == expr_view(v@[j]),
    decreases v@.len() - i,
{
    if i < v@.len() {
        lemma_exprs_view_from(v, i + 1);
    }
}

/// `exprs_view` is the elementwise image of `expr_view`.
pub broadcast proof fn lemma_exprs_view(v: Vec<Expr>)
    ensures
        (#[trigger] exprs_view(v)).len() == v@.len(),
        forall|j: int| 0 <= j < v@.len() ==> exprs_view(v)[j] == expr_view(v@[j]),
{
    lemma_exprs_view_from(v, 0);
}

pub open spec fn module_item_view(item: ModuleItem) -> ModuleItemV {
    match item {
        ModuleItem::ImportDecl { src } => ModuleItemV::ImportDecl { src: src@ },
        ModuleItem::NamedExport { src } => ModuleItemV::NamedExport {
            src: match src {
                Some(s) => Some(s@),
                None => None,
            },
        },
        ModuleItem::ExportAll { src } => ModuleItemV::ExportAll { src: src@ },
        ModuleItem::Stmt(e) => ModuleItemV::Stmt(expr_view(e)),
    }
}

impl View for MemberProp {
    type V = MemberPropV;

    open spec fn view(&self) -> MemberPropV {
        member_prop_view(*self)
    }
}

impl View for Callee {
    type V = CalleeV;

    open spec fn view(&self) -> CalleeV {
        callee_view(*self)
    }
}

impl View for Expr {
    type V = ExprV;

    open spec fn view(&self) -> ExprV {
        expr_view(*self)
    }
}

impl View for ModuleItem {
    type V = ModuleItemV;

    open spec fn view(&self) -> ModuleItemV {
        module_item_view(*self)
    }
}

impl View for Program {
    type V = ProgramV;

    open spec fn view(&self) -> ProgramV {
        ProgramV { items: self.items@.map_values(|i: ModuleItem| module_item_view(i)) }
    }
}

} // verus!
