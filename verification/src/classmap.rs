//! The lenient chain-resolving pass.
//!
//! Same chain extraction and table walk as the strict pass, but with
//! the lenient matching policy: anything short of a full-depth leaf
//! match — no matching prefix, a partial match, or a full match that
//! ends on a branch — is silently a no-op, never an error. The pass
//! is therefore total.

use vstd::prelude::*;

use crate::ast::{
    expr_view, exprs_view, lemma_exprs_view, Callee, CalleeV, Expr, ExprV, MemberProp,
    MemberPropV, ModuleItem, ModuleItemV, Program, ProgramV,
};
use crate::remapper::{chain_of, spec_chain_of};
use crate::strutil::str_eq;

verus! {

/// One level of the dotted-path configuration table of the lenient
/// pass.
#[derive(Debug, PartialEq, Eq)]
pub enum ClassMap {
    /// A terminal replacement value.
    Leaf(String),
    /// Named sub-tables; keys are unique within a branch.
    Branch(Vec<(String, ClassMap)>),
}

/// The lenient pass's configuration: the nested table.
pub struct Config {
    pub classmap: ClassMap,
}

/// The lenient chain-resolving pass itself.
pub struct Transform {
    pub config: Config,
}

/// First entry of `entries` whose key reads as `key`.
pub open spec fn spec_lookup(entries: Seq<(String, ClassMap)>, key: Seq<char>) -> Option<ClassMap>
    decreases entries.len(),
{
    if entries.len() == 0 {
        None
    } else if entries[0].0@ == key {
        Some(entries[0].1)
    } else {
        spec_lookup(entries.drop_first(), key)
    }
}

/// Lenient resolution: the leaf at full depth, or nothing.
pub open spec fn spec_resolve_lenient(node: ClassMap, path: Seq<Seq<char>>) -> Option<String>
    decreases path.len(),
{
    if path.len() == 0 {
        match node {
            ClassMap::Leaf(s) => Some(s),
            ClassMap::Branch(_) => None,
        }
    } else {
        match node {
            ClassMap::Leaf(_) => None,
            ClassMap::Branch(entries) => match spec_lookup(entries@, path[0]) {
                Some(child) => spec_resolve_lenient(child, path.drop_first()),
                None => None,
            },
        }
    }
}

/// What the lenient resolver yields for one expression: a replacement
/// string, or nothing.
pub open spec fn spec_apply_classmap(m: ClassMap, e: ExprV) -> Option<Seq<char>> {
    match spec_chain_of(e) {
        None => None,
        Some(path) => match spec_resolve_lenient(m, path) {
            Some(s) => Some(s@),
            None => None,
        },
    }
}

/// The lenient pass over one expression: replace it on a full-depth
/// leaf match, otherwise keep its shape and recurse into its
/// children.
pub open spec fn spec_classmap_expr(m: ClassMap, e: ExprV) -> ExprV
    decreases e, 1int,
{
    match spec_apply_classmap(m, e) {
        Some(s) => ExprV::StrLit(s),
        None => spec_classmap_children(m, e),
    }
}

/// The lenient pass over the children of an unreplaced expression.
pub open spec fn spec_classmap_children(m: ClassMap, e: ExprV) -> ExprV
    decreases e, 0int,
{
    match e {
        ExprV::Ident { .. } => e,
        ExprV::StrLit(_) => e,
        ExprV::Member { obj, prop } => ExprV::Member {
            obj: Box::new(spec_classmap_expr(m, *obj)),
            prop: match prop {
                MemberPropV::Named(p) => MemberPropV::Named(p),
                MemberPropV::Computed(pe) => MemberPropV::Computed(
                    Box::new(spec_classmap_expr(m, *pe)),
                ),
            },
        },
        ExprV::Call { callee, args } => ExprV::Call {
            callee: match callee {
                CalleeV::Import => CalleeV::Import,
                CalleeV::Expr(ce) => CalleeV::Expr(Box::new(spec_classmap_expr(m, *ce))),
            },
            args: spec_classmap_exprs(m, args),
        },
        ExprV::Other(children) => ExprV::Other(spec_classmap_exprs(m, children)),
    }
}

/// The lenient pass over a list of expressions, elementwise.
pub open spec fn spec_classmap_exprs(m: ClassMap, es: Seq<ExprV>) -> Seq<ExprV>
    decreases es, 2int,
{
    if es.len() == 0 {
        Seq::empty()
    } else {
        seq![spec_classmap_expr(m, es[0])] + spec_classmap_exprs(m, es.drop_first())
    }
}

/// The lenient pass over one module item.
pub open spec fn spec_classmap_item(m: ClassMap, item: ModuleItemV) -> ModuleItemV {
    match item {
        ModuleItemV::Stmt(e) => ModuleItemV::Stmt(spec_classmap_expr(m, e)),
        other => other,
    }
}

/// The lenient pass over a list of items, elementwise.
pub open spec fn spec_classmap_items(m: ClassMap, items: Seq<ModuleItemV>) -> Seq<ModuleItemV>
    decreases items.len(),
{
    if items.len() == 0 {
        Seq::empty()
    } else {
        seq![spec_classmap_item(m, items[0])] + spec_classmap_items(m, items.drop_first())
    }
}

/// The lenient pass over a whole program.
pub open spec fn spec_classmap_program(m: ClassMap, p: ProgramV) -> ProgramV {
    ProgramV { items: spec_classmap_items(m, p.items) }
}

/// The elementwise reading of the lenient pass over a list of
/// expressions.
proof fn lemma_classmap_exprs(m: ClassMap, es: Seq<ExprV>)
    ensures
        spec_classmap_exprs(m, es).len() == es.len(),
        forall|j: int|
            0 <= j < es.len() ==> spec_classmap_exprs(m, es)[j] == spec_classmap_expr(m, es[j]),
    decreases es.len(),
{
    if es.len() > 0 {
        assert(forall|j: int|
            0 <= j < es.drop_first().len() ==> #[trigger] es.drop_first()[j] == es[j + 1]);
        lemma_classmap_exprs(m, es.drop_first());
    }
}

/// The elementwise reading of the lenient pass over a list of items.
proof fn lemma_classmap_items(m: ClassMap, items: Seq<ModuleItemV>)
    ensures
        spec_classmap_items(m, items).len() == items.len(),
        forall|j: int|
            0 <= j < items.len() ==> spec_classmap_items(m, items)[j] == spec_classmap_item(
                m,
                items[j],
            ),
    decreases items.len(),
{
    if items.len() > 0 {
        assert(forall|j: int|
            0 <= j < items.drop_first().len() ==> #[trigger] items.drop_first()[j] == items[j
                + 1]);
        lemma_classmap_items(m, items.drop_first());
    }
}

fn lookup<'a>(entries: &'a Vec<(String, ClassMap)>, key: &str) -> (r: Option<&'a ClassMap>)
    ensures
        match r {
            Some(c) => spec_lookup(entries@, key@) == Some(*c),
            None => spec_lookup(entries@, key@) is None,
        },
{
    let n = entries.len();
    let mut i: usize = 0;
    proof {
        assert(entries@.skip(0) =~= entries@);
    }
    while i < n
        invariant
            n == entries@.len(),
            i <= n,
            spec_lookup(entries@, key@) == spec_lookup(entries@.skip(i as int), key@),
        decreases n - i,
    {
        proof {
            assert(entries@.skip(i as int)[0] == entries@[i as int]);
            assert(entries@.skip(i as int).drop_first() =~= entries@.skip(i as int + 1));
        }
        if str_eq(entries[i].0.as_str(), key) {
            return Some(&entries[i].1);
        }
        i += 1;
    }
    proof {
        assert(entries@.skip(n as int) =~= Seq::<(String, ClassMap)>::empty());
    }
    None
}

impl ClassMap {
    /// Lenient resolution of the tail of a dotted path: the leaf at
    /// full depth, or nothing.
    fn resolve_from(&self, path: &Vec<String>, from: usize) -> (r: Option<String>)
        requires
            from <= path@.len(),
        ensures
            ({
                let s = spec_resolve_lenient(*self, path.deep_view().skip(from as int));
                match r {
                    Some(v) => s == Some(v),
                    None => s is None,
                }
            }),
        decreases path@.len() - from,
    {
        let ghost rest = path.deep_view().skip(from as int);
        if from == path.len() {
            proof {
                assert(rest.len() == 0);
            }
            match self {
                ClassMap::Leaf(s) => Some(s.clone()),
                ClassMap::Branch(_) => None,
            }
        } else {
            proof {
                assert(rest[0] == path@[from as int]@);
                assert(rest.drop_first() =~= path.deep_view().skip(from as int + 1));
            }
            match self {
                ClassMap::Leaf(_) => None,
                ClassMap::Branch(entries) => match lookup(entries, path[from].as_str()) {
                    Some(child) => child.resolve_from(path, from + 1),
                    None => None,
                },
            }
        }
    }

    /// Lenient resolution of a dotted path, root segment first.
    pub fn resolve(&self, path: &Vec<String>) -> (r: Option<String>)
        ensures
            ({
                let s = spec_resolve_lenient(*self, path.deep_view());
                match r {
                    Some(v) => s == Some(v),
                    None => s is None,
                }
            }),
    {
        proof {
            assert(path.deep_view().skip(0) =~= path.deep_view());
        }
        self.resolve_from(path, 0)
    }
}

impl Default for ClassMap {
    /// The default table is an empty branch: it matches nothing.
    fn default() -> (r: Self)
        ensures
            r matches ClassMap::Branch(entries) && entries@.len() == 0,
    {
        ClassMap::Branch(Vec::new())
    }
}

impl Transform {
    /// Resolve one expression's chain against the table: `Some(s)` to
    /// replace the expression by the literal `s`, `None` to leave it
    /// in place — never an error.
    pub fn apply_classmap(&self, e: &Expr) -> (r: Option<String>)
        ensures
            ({
                let s = spec_apply_classmap(self.config.classmap, e@);
                match r {
                    Some(v) => s == Some(v@),
                    None => s is None,
                }
            }),
    {
        match chain_of(e) {
            None => None,
            Some(path) => self.config.classmap.resolve(&path),
        }
    }

    fn transform_exprs(&self, es: &Vec<Expr>) -> (r: Vec<Expr>)
        ensures
            exprs_view(r) =~= spec_classmap_exprs(self.config.classmap, exprs_view(*es)),
        decreases *es, 0int,
    {
        let ghost m = self.config.classmap;
        let n = es.len();
        let mut out: Vec<Expr> = Vec::new();
        let mut i: usize = 0;
        proof {
            lemma_exprs_view(*es);
            lemma_classmap_exprs(m, exprs_view(*es));
        }
        while i < n
            invariant
                m == self.config.classmap,
                n == es@.len(),
                i <= n,
                out@.len() == i,
                exprs_view(*es).len() == n,
                forall|j: int| 0 <= j < n ==> exprs_view(*es)[j] == expr_view(es@[j]),
                forall|j: int|
                    0 <= j < i ==> expr_view(#[trigger] out@[j]) == spec_classmap_expr(
                        m,
                        exprs_view(*es)[j],
                    ),
            decreases n - i,
        {
            let t = self.transform_expr(&es[i]);
            out.push(t);
            i += 1;
        }
        proof {
            lemma_exprs_view(out);
            lemma_classmap_exprs(m, exprs_view(*es));
        }
        out
    }

    /// The lenient pass over one expression: replace it on a
    /// full-depth leaf match, otherwise keep its shape and recurse
    /// into its children.
    #[verifier::rlimit(50)]
    pub fn transform_expr(&self, e: &Expr) -> (r: Expr)
        ensures
            r@ == spec_classmap_expr(self.config.classmap, e@),
        decreases *e, 1int,
    {
        let ghost m = self.config.classmap;
        match self.apply_classmap(e) {
            Some(s) => {
                let t = Expr::StrLit(s);
                proof {
                    assert(t@ == ExprV::StrLit(t->StrLit_0@));
                }
                t
            },
            None => {
                proof {
                    assert(spec_classmap_expr(m, e@) == spec_classmap_children(m, e@));
                }
                match e {
                    Expr::Ident { name, free } => {
                        let t = Expr::Ident { name: name.clone(), free: *free };
                        proof {
                            assert(t@ == e@);
                        }
                        t
                    },
                    Expr::StrLit(s) => {
                        let t = Expr::StrLit(s.clone());
                        proof {
                            assert(t@ == e@);
                        }
                        t
                    },
                    Expr::Member { obj, prop } => {
                        proof {
                            assert(*e == Expr::Member { obj: *obj, prop: *prop });
                            assert(e@ == ExprV::Member {
                                obj: Box::new(expr_view(**obj)),
                                prop: crate::ast::member_prop_view(*prop),
                            });
                        }
                        let o = self.transform_expr(obj);
                        match prop {
                            MemberProp::Named(p) => {
                                let t = Expr::Member {
                                    obj: Box::new(o),
                                    prop: MemberProp::Named(p.clone()),
                                };
                                proof {
                                    assert(t@ == ExprV::Member {
                                        obj: Box::new(o@),
                                        prop: MemberPropV::Named(p@),
                                    });
                                }
                                t
                            },
                            MemberProp::Computed(pe) => {
                                let pp = self.transform_expr(pe);
                                let t = Expr::Member {
                                    obj: Box::new(o),
                                    prop: MemberProp::Computed(Box::new(pp)),
                                };
                                proof {
                                    assert(expr_view(*t->Member_obj) == o@);
                                    assert(crate::ast::member_prop_view(t->Member_prop)
                                        == MemberPropV::Computed(Box::new(pp@)));
                                    assert(t@ == ExprV::Member {
                                        obj: Box::new(o@),
                                        prop: MemberPropV::Computed(Box::new(pp@)),
                                    });
                                }
                                t
                            },
                        }
                    },
                    Expr::Call { callee, args } => {
                        proof {
                            assert(*e == Expr::Call { callee: *callee, args: *args });
                            assert(e@ == ExprV::Call {
                                callee: crate::ast::callee_view(*callee),
                                args: exprs_view(*args),
                            });
                        }
                        match callee {
                            Callee::Import => {
                                let ts = self.transform_exprs(args);
                                let t = Expr::Call { callee: Callee::Import, args: ts };
                                proof {
                                    assert(t@ == ExprV::Call {
                                        callee: CalleeV::Import,
                                        args: exprs_view(t->Call_args),
                                    });
                                }
                                t
                            },
                            Callee::Expr(ce) => {
                                let c = self.transform_expr(ce);
                                let ts = self.transform_exprs(args);
                                let t = Expr::Call {
                                    callee: Callee::Expr(Box::new(c)),
                                    args: ts,
                                };
                                proof {
                                    assert(crate::ast::callee_view(t->Call_callee)
                                        == CalleeV::Expr(Box::new(c@)));
                                    assert(t@ == ExprV::Call {
                                        callee: CalleeV::Expr(Box::new(c@)),
                                        args: exprs_view(t->Call_args),
                                    });
                                }
                                t
                            },
                        }
                    },
                    Expr::Other(children) => {
                        proof {
                            assert(*e == Expr::Other(*children));
                            assert(e@ == ExprV::Other(exprs_view(*children)));
                        }
                        let ts = self.transform_exprs(children);
                        let t = Expr::Other(ts);
                        proof {
                            assert(t@ == ExprV::Other(exprs_view(t->Other_0)));
                        }
                        t
                    },
                }
            },
        }
    }

    /// The lenient pass over one module item.
    fn transform_item(&self, item: &ModuleItem) -> (r: ModuleItem)
        ensures
            r@ == spec_classmap_item(self.config.classmap, item@),
    {
        match item {
            ModuleItem::Stmt(e) => ModuleItem::Stmt(self.transform_expr(e)),
            ModuleItem::ImportDecl { src } => ModuleItem::ImportDecl { src: src.clone() },
            ModuleItem::NamedExport { src } => {
                let s = match src {
                    Some(s0) => Some(s0.clone()),
                    None => None,
                };
                ModuleItem::NamedExport { src: s }
            },
            ModuleItem::ExportAll { src } => ModuleItem::ExportAll { src: src.clone() },
        }
    }

    /// The whole lenient pass over one program: total, never an
    /// error.
    pub fn process(&self, program: &Program) -> (r: Program)
        ensures
            r@ == spec_classmap_program(self.config.classmap, program@),
    {
        let ghost m = self.config.classmap;
        let ghost iv = program@.items;
        proof {
            assert(iv.len() == program.items@.len());
            assert(forall|j: int|
                0 <= j < program.items@.len() ==> iv[j] == crate::ast::module_item_view(
                    #[trigger] program.items@[j],
                ));
            lemma_classmap_items(m, iv);
        }
        let n = program.items.len();
        let mut out: Vec<ModuleItem> = Vec::new();
        let mut i: usize = 0;
        while i < n
            invariant
                m == self.config.classmap,
                iv == program@.items,
                n == program.items@.len(),
                iv.len() == n,
                forall|j: int|
                    0 <= j < n ==> iv[j] == crate::ast::module_item_view(
                        #[trigger] program.items@[j],
                    ),
                i <= n,
                out@.len() == i,
                forall|j: int|
                    0 <= j < i ==> crate::ast::module_item_view(#[trigger] out@[j])
                        == spec_classmap_item(m, iv[j]),
            decreases n - i,
        {
            let t = self.transform_item(&program.items[i]);
            out.push(t);
            i += 1;
        }
        let result = Program { items: out };
        proof {
            lemma_classmap_items(m, iv);
            assert(result@.items =~= spec_classmap_items(m, iv));
        }
        result
    }
}

} // verus!
