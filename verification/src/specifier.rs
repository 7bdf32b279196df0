//! The module-specifier rewriting pass.
//!
//! Four sites carry a module-path string: the source of an import
//! declaration, the optional source of a named re-export, the source
//! of an "export all" declaration, and the first argument of a
//! dynamic-import call when that argument is a plain string literal.
//! The pass recurses into children first, then rewrites the site's
//! string in place if the configured strategy reports a rewrite.

use vstd::prelude::*;

use crate::ast::{
    expr_view, exprs_view, lemma_exprs_view, Callee, CalleeV, Expr, ExprV, MemberProp,
    MemberPropV, ModuleItem, ModuleItemV, Program, ProgramV,
};
use crate::extensions;
use crate::patterns;

verus! {

/// The specifier rewriting pass, with one of the two interchangeable
/// strategies.
pub enum SpecifierRewriter {
    Extensions(extensions::TransformVisitor),
    Patterns(patterns::TransformVisitor),
}

/// The string a site ends up with: the rewrite, or the original when
/// the strategy reports "unchanged".
pub open spec fn spec_rewrite_opt(
    rw: spec_fn(Seq<char>) -> Option<Seq<char>>,
    s: Seq<char>,
) -> Seq<char> {
    match rw(s) {
        Some(t) => t,
        None => s,
    }
}

/// The pass over one expression: children first, then the
/// dynamic-import site if this is one.
pub open spec fn spec_rewrite_expr(rw: spec_fn(Seq<char>) -> Option<Seq<char>>, e: ExprV) -> ExprV
    decreases e, 1int,
{
    match e {
        ExprV::Ident { .. } => e,
        ExprV::StrLit(_) => e,
        ExprV::Member { obj, prop } => ExprV::Member {
            obj: Box::new(spec_rewrite_expr(rw, *obj)),
            prop: match prop {
                MemberPropV::Named(p) => MemberPropV::Named(p),
                MemberPropV::Computed(pe) => MemberPropV::Computed(
                    Box::new(spec_rewrite_expr(rw, *pe)),
                ),
            },
        },
        ExprV::Call { callee, args } => {
            let args2 = spec_rewrite_exprs(rw, args);
            match callee {
                CalleeV::Import => if args2.len() > 0 {
                    match args2[0] {
                        ExprV::StrLit(s0) => match rw(s0) {
                            Some(t) => ExprV::Call {
                                callee: CalleeV::Import,
                                args: args2.update(0, ExprV::StrLit(t)),
                            },
                            None => ExprV::Call { callee: CalleeV::Import, args: args2 },
                        },
                        _ => ExprV::Call { callee: CalleeV::Import, args: args2 },
                    }
                } else {
                    ExprV::Call { callee: CalleeV::Import, args: args2 }
                },
                CalleeV::Expr(ce) => ExprV::Call {
                    callee: CalleeV::Expr(Box::new(spec_rewrite_expr(rw, *ce))),
                    args: args2,
                },
            }
        },
        ExprV::Other(children) => ExprV::Other(spec_rewrite_exprs(rw, children)),
    }
}

/// The pass over a list of expressions, elementwise.
pub open spec fn spec_rewrite_exprs(
    rw: spec_fn(Seq<char>) -> Option<Seq<char>>,
    es: Seq<ExprV>,
) -> Seq<ExprV>
    decreases es, 2int,
{
    if es.len() == 0 {
        Seq::empty()
    } else {
        seq![spec_rewrite_expr(rw, es[0])] + spec_rewrite_exprs(rw, es.drop_first())
    }
}

/// The pass over one module item: the three declaration sites, and
/// statements for the dynamic-import sites inside them.
pub open spec fn spec_rewrite_item(
    rw: spec_fn(Seq<char>) -> Option<Seq<char>>,
    item: ModuleItemV,
) -> ModuleItemV {
    match item {
        ModuleItemV::ImportDecl { src } => ModuleItemV::ImportDecl {
            src: spec_rewrite_opt(rw, src),
        },
        ModuleItemV::NamedExport { src } => ModuleItemV::NamedExport {
            src: match src {
                Some(s) => Some(spec_rewrite_opt(rw, s)),
                None => None,
            },
        },
        ModuleItemV::ExportAll { src } => ModuleItemV::ExportAll {
            src: spec_rewrite_opt(rw, src),
        },
        ModuleItemV::Stmt(e) => ModuleItemV::Stmt(spec_rewrite_expr(rw, e)),
    }
}

/// The pass over a list of items, elementwise.
pub open spec fn spec_rewrite_items(
    rw: spec_fn(Seq<char>) -> Option<Seq<char>>,
    items: Seq<ModuleItemV>,
) -> Seq<ModuleItemV>
    decreases items.len(),
{
    if items.len() == 0 {
        Seq::empty()
    } else {
        seq![spec_rewrite_item(rw, items[0])] + spec_rewrite_items(rw, items.drop_first())
    }
}

/// The pass over a whole program.
pub open spec fn spec_rewrite_program(
    rw: spec_fn(Seq<char>) -> Option<Seq<char>>,
    p: ProgramV,
) -> ProgramV {
    ProgramV { items: spec_rewrite_items(rw, p.items) }
}

/// The elementwise reading of the pass over a list of expressions.
proof fn lemma_rewrite_exprs(rw: spec_fn(Seq<char>) -> Option<Seq<char>>, es: Seq<ExprV>)
    ensures
        spec_rewrite_exprs(rw, es).len() == es.len(),
        forall|j: int|
            0 <= j < es.len() ==> spec_rewrite_exprs(rw, es)[j] == spec_rewrite_expr(rw, es[j]),
    decreases es.len(),
{
    if es.len() > 0 {
        assert(forall|j: int|
            0 <= j < es.drop_first().len() ==> #[trigger] es.drop_first()[j] == es[j + 1]);
        lemma_rewrite_exprs(rw, es.drop_first());
    }
}

/// The elementwise reading of the pass over a list of items.
proof fn lemma_rewrite_items(rw: spec_fn(Seq<char>) -> Option<Seq<char>>, items: Seq<ModuleItemV>)
    ensures
        spec_rewrite_items(rw, items).len() == items.len(),
        forall|j: int|
            0 <= j < items.len() ==> spec_rewrite_items(rw, items)[j] == spec_rewrite_item(
                rw,
                items[j],
            ),
    decreases items.len(),
{
    if items.len() > 0 {
        assert(forall|j: int|
            0 <= j < items.drop_first().len() ==> #[trigger] items.drop_first()[j] == items[j
                + 1]);
        lemma_rewrite_items(rw, items.drop_first());
    }
}

impl SpecifierRewriter {
    /// What this rewriter does to one specifier string: a rewritten
    /// string, or "unchanged".
    pub open spec fn rw(self) -> spec_fn(Seq<char>) -> Option<Seq<char>> {
        match self {
            SpecifierRewriter::Extensions(v) => |s: Seq<char>|
                extensions::spec_rewrite_specifier(v.config.extensions.deep_view(), s),
            SpecifierRewriter::Patterns(v) => |s: Seq<char>|
                patterns::spec_rewrite_specifier(v.config.rules.deep_view(), s),
        }
    }

    /// The suffix strategy is always usable; the pattern strategy
    /// needs every configured pattern to compile.
    pub open spec fn wf(self) -> bool {
        match self {
            SpecifierRewriter::Extensions(_) => true,
            SpecifierRewriter::Patterns(v) => v.wf(),
        }
    }

    /// Check that this rewriter's configuration is usable.
    pub fn validate(&self) -> (b: bool)
        ensures
            b == self.wf(),
    {
        match self {
            SpecifierRewriter::Extensions(_) => true,
            SpecifierRewriter::Patterns(v) => v.validate(),
        }
    }

    fn rewrite(&self, s: &str) -> (r: Option<String>)
        requires
            self.wf(),
        ensures
            ({
                let o = self.rw()(s@);
                match r {
                    Some(v) => o == Some(v@),
                    None => o is None,
                }
            }),
    {
        match self {
            SpecifierRewriter::Extensions(v) => v.rewrite_import_specifier(s),
            SpecifierRewriter::Patterns(v) => v.rewrite_import_specifier(s),
        }
    }

    fn transform_exprs(&self, es: &Vec<Expr>) -> (r: Vec<Expr>)
        requires
            self.wf(),
        ensures
            exprs_view(r) =~= spec_rewrite_exprs(self.rw(), exprs_view(*es)),
        decreases *es, 0int,
    {
        let ghost rw = self.rw();
        let n = es.len();
        let mut out: Vec<Expr> = Vec::new();
        let mut i: usize = 0;
        proof {
            lemma_exprs_view(*es);
            lemma_rewrite_exprs(rw, exprs_view(*es));
        }
        while i < n
            invariant
                self.wf(),
                rw == self.rw(),
                n == es@.len(),
                i <= n,
                out@.len() == i,
                exprs_view(*es).len() == n,
                forall|j: int| 0 <= j < n ==> exprs_view(*es)[j] == expr_view(es@[j]),
                forall|j: int|
                    0 <= j < i ==> expr_view(#[trigger] out@[j]) == spec_rewrite_expr(
                        rw,
                        exprs_view(*es)[j],
                    ),
            decreases n - i,
        {
            let t = self.transform_expr(&es[i]);
            out.push(t);
            i += 1;
        }
        proof {
            lemma_exprs_view(out);
            lemma_rewrite_exprs(rw, exprs_view(*es));
        }
        out
    }

    /// The pass over one expression: children first, then the
    /// dynamic-import site if this is one.
    #[verifier::rlimit(50)]
    pub fn transform_expr(&self, e: &Expr) -> (r: Expr)
        requires
            self.wf(),
        ensures
            r@ == spec_rewrite_expr(self.rw(), e@),
        decreases *e, 1int,
    {
        let ghost rw = self.rw();
        match e {
            Expr::Ident { name, free } => {
                let t = Expr::Ident { name: name.clone(), free: *free };
                proof {
                    assert(t@ == e@);
                }
                t
            },
            Expr::StrLit(s) => {
                let t = Expr::StrLit(s.clone());
                proof {
                    assert(t@ == e@);
                }
                t
            },
            Expr::Member { obj, prop } => {
                proof {
                    assert(*e == Expr::Member { obj: *obj, prop: *prop });
                    assert(e@ == ExprV::Member {
                        obj: Box::new(expr_view(**obj)),
                        prop: crate::ast::member_prop_view(*prop),
                    });
                }
                let o = self.transform_expr(obj);
                match prop {
                    MemberProp::Named(p) => {
                        let t = Expr::Member { obj: Box::new(o), prop: MemberProp::Named(p.clone()) };
                        proof {
                            assert(t@ == ExprV::Member {
                                obj: Box::new(o@),
                                prop: MemberPropV::Named(p@),
                            });
                        }
                        t
                    },
                    MemberProp::Computed(pe) => {
                        let pp = self.transform_expr(pe);
                        let t = Expr::Member {
                            obj: Box::new(o),
                            prop: MemberProp::Computed(Box::new(pp)),
                        };
                        proof {
                            assert(expr_view(*t->Member_obj) == o@);
                            assert(crate::ast::member_prop_view(t->Member_prop)
                                == MemberPropV::Computed(Box::new(pp@)));
                            assert(t@ == ExprV::Member {
                                obj: Box::new(o@),
                                prop: MemberPropV::Computed(Box::new(pp@)),
                            });
                        }
                        t
                    },
                }
            },
            Expr::Call { callee, args } => {
                proof {
                    assert(*e == Expr::Call { callee: *callee, args: *args });
                    assert(e@ == ExprV::Call {
                        callee: crate::ast::callee_view(*callee),
                        args: exprs_view(*args),
                    });
                }
                match callee {
                    Callee::Import => {
                        let ghost args_v = spec_rewrite_exprs(rw, exprs_view(*args));
                        let mut args2 = self.transform_exprs(args);
                        proof {
                            lemma_exprs_view(args2);
                        }
                        let replacement: Option<String> = if args2.len() > 0 {
                            match &args2[0] {
                                Expr::StrLit(s0) => self.rewrite(s0.as_str()),
                                _ => None,
                            }
                        } else {
                            None
                        };
                        match replacement {
                            Some(t0) => {
                                let ghost before = args2@;
                                proof {
                                    assert(args_v[0] matches ExprV::StrLit(s0v) && rw(s0v)
                                        == Some(t0@));
                                }
                                args2.set(0, Expr::StrLit(t0));
                                let t = Expr::Call { callee: Callee::Import, args: args2 };
                                proof {
                                    lemma_exprs_view(t->Call_args);
                                    assert(t->Call_args@ == before.update(0, Expr::StrLit(t0)));
                                    assert(exprs_view(t->Call_args) =~= args_v.update(
                                        0,
                                        ExprV::StrLit(t0@),
                                    ));
                                    assert(t@ == ExprV::Call {
                                        callee: CalleeV::Import,
                                        args: args_v.update(0, ExprV::StrLit(t0@)),
                                    });
                                    assert(t@ == spec_rewrite_expr(rw, e@));
                                }
                                t
                            },
                            None => {
                                let t = Expr::Call { callee: Callee::Import, args: args2 };
                                proof {
                                    lemma_exprs_view(t->Call_args);
                                    assert(t@ == ExprV::Call {
                                        callee: CalleeV::Import,
                                        args: exprs_view(t->Call_args),
                                    });
                                }
                                t
                            },
                        }
                    },
                    Callee::Expr(ce) => {
                        let c = self.transform_expr(ce);
                        let args2 = self.transform_exprs(args);
                        let t = Expr::Call { callee: Callee::Expr(Box::new(c)), args: args2 };
                        proof {
                            assert(crate::ast::callee_view(t->Call_callee) == CalleeV::Expr(
                                Box::new(c@),
                            ));
                            assert(t@ == ExprV::Call {
                                callee: CalleeV::Expr(Box::new(c@)),
                                args: exprs_view(t->Call_args),
                            });
                        }
                        t
                    },
                }
            },
            Expr::Other(children) => {
                proof {
                    assert(*e == Expr::Other(*children));
                    assert(e@ == ExprV::Other(exprs_view(*children)));
                }
                let ts = self.transform_exprs(children);
                let t = Expr::Other(ts);
                proof {
                    assert(t@ == ExprV::Other(exprs_view(t->Other_0)));
                }
                t
            },
        }
    }

    /// The pass over one module item: children first, then this
    /// item's specifier site, if it has one and the strategy reports
    /// a rewrite.
    pub fn transform_item(&self, item: &ModuleItem) -> (r: ModuleItem)
        requires
            self.wf(),
        ensures
            r@ == spec_rewrite_item(self.rw(), item@),
    {
        match item {
            ModuleItem::ImportDecl { src } => {
                let s = match self.rewrite(src.as_str()) {
                    Some(t) => t,
                    None => src.clone(),
                };
                ModuleItem::ImportDecl { src: s }
            },
            ModuleItem::NamedExport { src } => {
                let s = match src {
                    Some(s0) => match self.rewrite(s0.as_str()) {
                        Some(t) => Some(t),
                        None => Some(s0.clone()),
                    },
                    None => None,
                };
                ModuleItem::NamedExport { src: s }
            },
            ModuleItem::ExportAll { src } => {
                let s = match self.rewrite(src.as_str()) {
                    Some(t) => t,
                    None => src.clone(),
                };
                ModuleItem::ExportAll { src: s }
            },
            ModuleItem::Stmt(e) => ModuleItem::Stmt(self.transform_expr(e)),
        }
    }

    /// The whole pass over one program.
    pub fn process(&self, program: &Program) -> (r: Program)
        requires
            self.wf(),
        ensures
            r@ == spec_rewrite_program(self.rw(), program@),
    {
        let ghost rw = self.rw();
        let ghost iv = program@.items;
        proof {
            assert(iv.len() == program.items@.len());
            assert(forall|j: int|
                0 <= j < program.items@.len() ==> iv[j] == crate::ast::module_item_view(
                    #[trigger] program.items@[j],
                ));
            lemma_rewrite_items(rw, iv);
        }
        let n = program.items.len();
        let mut out: Vec<ModuleItem> = Vec::new();
        let mut i: usize = 0;
        while i < n
            invariant
                self.wf(),
                rw == self.rw(),
                iv == program@.items,
                n == program.items@.len(),
                iv.len() == n,
                forall|j: int|
                    0 <= j < n ==> iv[j] == crate::ast::module_item_view(
                        #[trigger] program.items@[j],
                    ),
                i <= n,
                out@.len() == i,
                forall|j: int|
                    0 <= j < i ==> crate::ast::module_item_view(#[trigger] out@[j])
                        == spec_rewrite_item(rw, iv[j]),
            decreases n - i,
        {
            let t = self.transform_item(&program.items[i]);
            out.push(t);
            i += 1;
        }
        let result = Program { items: out };
        proof {
            lemma_rewrite_items(rw, iv);
            assert(result@.items =~= spec_rewrite_items(rw, iv));
        }
        result
    }

    /// The whole pass, behind the configuration check: `None` exactly
    /// when the configuration is unusable (a pattern that does not
    /// compile), the rewritten program otherwise.
    pub fn process_checked(&self, program: &Program) -> (r: Option<Program>)
        ensures
            match r {
                Some(t) => self.wf() && t@ == spec_rewrite_program(self.rw(), program@),
                None => !self.wf(),
            },
    {
        if self.validate() {
            Some(self.process(program))
        } else {
            None
        }
    }
}

} // verus!
