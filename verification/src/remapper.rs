//! The strict chain-resolving pass.
//!
//! Every expression of the tree is inspected: a dotted chain of member
//! accesses ending (leftmost) in a free identifier is resolved against
//! the configured mapping table. A full-depth match of a leaf replaces
//! the whole expression by a string literal and its children are not
//! visited; no match at all leaves the expression in place and the
//! pass recurses into its children; a partial match is a configuration
//! error that fails the whole pass. The pass is transactional: on
//! failure no partially rewritten tree is handed back.

use vstd::prelude::*;

use crate::ast::{
    expr_view, exprs_view, lemma_exprs_view, Callee, CalleeV, Expr, ExprV, MemberProp,
    MemberPropV, ModuleItem, ModuleItemV, Program, ProgramV,
};
use crate::mapping::{spec_resolve, Mapping, MappingError, MappingErrorV, Resolved};

verus! {

/// The pass's configuration: the nested mapping table.
pub struct PluginConfig {
    pub mapping: Mapping,
}

/// The strict chain-resolving pass itself.
pub struct TransformVisitor {
    pub config: PluginConfig,
}

/// The dotted chain of `e`, root identifier first, if `e` is a chain
/// of static member accesses ending in a free identifier; `None` for
/// every other expression shape.
pub open spec fn spec_chain_of(e: ExprV) -> Option<Seq<Seq<char>>>
    decreases e,
{
    match e {
        ExprV::Ident { name, free } => if free {
            Some(seq![name])
        } else {
            None
        },
        ExprV::Member { obj, prop } => match prop {
            MemberPropV::Named(p) => match spec_chain_of(*obj) {
                Some(c) => Some(c.push(p)),
                None => None,
            },
            MemberPropV::Computed(_) => None,
        },
        _ => None,
    }
}

/// A chain always has at least its root segment.
pub proof fn lemma_chain_nonempty(e: ExprV)
    ensures
        spec_chain_of(e) matches Some(c) ==> c.len() >= 1,
    decreases e,
{
    match e {
        ExprV::Member { obj, prop } => match prop {
            MemberPropV::Named(_) => {
                lemma_chain_nonempty(*obj);
            },
            _ => {},
        },
        _ => {},
    }
}

/// What the resolver yields for one expression: an error, a
/// replacement string, or nothing.
pub open spec fn spec_apply_mapping(m: Mapping, e: ExprV) -> Result<
    Option<Seq<char>>,
    MappingErrorV,
> {
    match spec_chain_of(e) {
        None => Ok(None),
        Some(path) => match spec_resolve(m, path) {
            Resolved::Hit(s) => Ok(Some(s@)),
            Resolved::Stuck(d) => if d == 0 {
                Ok(None)
            } else {
                Err(MappingErrorV::NotANode(path.take(d + 1)))
            },
            Resolved::NotLeaf => Err(MappingErrorV::NotALeaf(path)),
        },
    }
}

/// The pass over one expression: replace it if its chain hits a leaf,
/// fail on a partial match, and otherwise keep its shape and recurse
/// into its children.
pub open spec fn spec_remap_expr(m: Mapping, e: ExprV) -> Result<ExprV, MappingErrorV>
    decreases e, 1int,
{
    match spec_apply_mapping(m, e) {
        Err(er) => Err(er),
        Ok(Some(s)) => Ok(ExprV::StrLit(s)),
        Ok(None) => spec_remap_children(m, e),
    }
}

/// The pass over the children of an expression whose own chain did not
/// resolve: the expression keeps its shape and every child is passed
/// over, leftmost first; the first error aborts.
pub open spec fn spec_remap_children(m: Mapping, e: ExprV) -> Result<ExprV, MappingErrorV>
    decreases e, 0int,
{
    match e {
        ExprV::Ident { .. } => Ok(e),
        ExprV::StrLit(_) => Ok(e),
        ExprV::Member { obj, prop } => match spec_remap_expr(m, *obj) {
            Err(er) => Err(er),
            Ok(o) => match prop {
                MemberPropV::Named(p) => Ok(ExprV::Member {
                    obj: Box::new(o),
                    prop: MemberPropV::Named(p),
                }),
                MemberPropV::Computed(pe) => match spec_remap_expr(m, *pe) {
                    Err(er) => Err(er),
                    Ok(pp) => Ok(ExprV::Member {
                        obj: Box::new(o),
                        prop: MemberPropV::Computed(Box::new(pp)),
                    }),
                },
            },
        },
        ExprV::Call { callee, args } => match callee {
            CalleeV::Import => match spec_remap_exprs(m, args) {
                Err(er) => Err(er),
                Ok(ts) => Ok(ExprV::Call { callee: CalleeV::Import, args: ts }),
            },
            CalleeV::Expr(ce) => match spec_remap_expr(m, *ce) {
                Err(er) => Err(er),
                Ok(c) => match spec_remap_exprs(m, args) {
                    Err(er) => Err(er),
                    Ok(ts) => Ok(ExprV::Call {
                        callee: CalleeV::Expr(Box::new(c)),
                        args: ts,
                    }),
                },
            },
        },
        ExprV::Other(children) => match spec_remap_exprs(m, children) {
            Err(er) => Err(er),
            Ok(ts) => Ok(ExprV::Other(ts)),
        },
    }
}

/// The pass over a list of expressions, leftmost first; the first
/// error aborts.
pub open spec fn spec_remap_exprs(m: Mapping, es: Seq<ExprV>) -> Result<Seq<ExprV>, MappingErrorV>
    decreases es, 2int,
{
    if es.len() == 0 {
        Ok(Seq::empty())
    } else {
        match spec_remap_expr(m, es[0]) {
            Err(er) => Err(er),
            Ok(t) => match spec_remap_exprs(m, es.drop_first()) {
                Err(er) => Err(er),
                Ok(ts) => Ok(seq![t] + ts),
            },
        }
    }
}

/// The pass over one module item: only statements hold expressions.
pub open spec fn spec_remap_item(m: Mapping, item: ModuleItemV) -> Result<
    ModuleItemV,
    MappingErrorV,
> {
    match item {
        ModuleItemV::Stmt(e) => match spec_remap_expr(m, e) {
            Err(er) => Err(er),
            Ok(t) => Ok(ModuleItemV::Stmt(t)),
        },
        other => Ok(other),
    }
}

/// The pass over a whole program, item by item; the first error
/// aborts.
pub open spec fn spec_remap_items(m: Mapping, items: Seq<ModuleItemV>) -> Result<
    Seq<ModuleItemV>,
    MappingErrorV,
>
    decreases items.len(),
{
    if items.len() == 0 {
        Ok(Seq::empty())
    } else {
        match spec_remap_item(m, items[0]) {
            Err(er) => Err(er),
            Ok(t) => match spec_remap_items(m, items.drop_first()) {
                Err(er) => Err(er),
                Ok(ts) => Ok(seq![t] + ts),
            },
        }
    }
}

pub open spec fn spec_remap_program(m: Mapping, p: ProgramV) -> Result<ProgramV, MappingErrorV> {
    match spec_remap_items(m, p.items) {
        Err(er) => Err(er),
        Ok(items) => Ok(ProgramV { items }),
    }
}

/// How a chain extends through one static member access.
proof fn lemma_chain_member(x: ExprV, p: Seq<char>)
    ensures
        spec_chain_of(ExprV::Member { obj: Box::new(x), prop: MemberPropV::Named(p) })
            == match spec_chain_of(x) {
                Some(c) => Some(c.push(p)),
                None => None::<Seq<Seq<char>>>,
            },
{
}

#[verifier::rlimit(50)]
pub(crate) fn chain_of(e: &Expr) -> (r: Option<Vec<String>>)
    ensures
        match r {
            Some(v) => spec_chain_of(e@) == Some(v.deep_view()) && v@.len() >= 1,
            None => spec_chain_of(e@) is None,
        },
    decreases *e,
{
    match e {
        Expr::Ident { name, free } => {
            if *free {
                let mut v: Vec<String> = Vec::new();
                v.push(name.clone());
                proof {
                    assert(v.deep_view() =~= seq![name@]);
                }
                Some(v)
            } else {
                proof {
                    assert(spec_chain_of(e@) is None);
                }
                None
            }
        },
        Expr::Member { obj, prop } => {
            proof {
                assert(*e == Expr::Member { obj: *obj, prop: *prop });
                assert(e@ == expr_view(*e));
                assert(expr_view(*e) == ExprV::Member {
                    obj: Box::new(expr_view(**obj)),
                    prop: crate::ast::member_prop_view(*prop),
                });
            }
            match prop {
                MemberProp::Named(p) => {
                    proof {
                        assert(crate::ast::member_prop_view(MemberProp::Named(*p))
                            == MemberPropV::Named(p@));
                        lemma_chain_member(expr_view(**obj), p@);
                    }
                    match chain_of(obj) {
                        Some(mut v) => {
                            let ghost before = v.deep_view();
                            v.push(p.clone());
                            proof {
                                assert(v.deep_view() =~= before.push(p@));
                            }
                            Some(v)
                        },
                        None => None,
                    }
                },
                MemberProp::Computed(_) => {
                    proof {
                        assert(spec_chain_of(e@) is None);
                    }
                    None
                },
            }
        },
        Expr::Call { .. } => None,
        Expr::StrLit(_) => None,
        Expr::Other(_) => None,
    }
}

impl TransformVisitor {
    /// Resolve one expression's chain against the mapping table:
    /// `Ok(Some(s))` to replace the expression by the literal `s`,
    /// `Ok(None)` to leave it in place, `Err` on a partial match.
    pub fn apply_mapping(&self, e: &Expr) -> (r: Result<Option<String>, MappingError>)
        ensures
            ({
                let s = spec_apply_mapping(self.config.mapping, e@);
                match r {
                    Ok(o) => s matches Ok(so) && match o {
                        Some(v) => so == Some(v@),
                        None => so is None,
                    },
                    Err(er) => s matches Err(ev) && er@ == ev,
                }
            }),
    {
        match chain_of(e) {
            None => Ok(None),
            Some(path) => {
                proof {
                    crate::mapping::lemma_stuck_depth(self.config.mapping, path.deep_view());
                }
                match self.config.mapping.resolve(&path) {
                    Ok(o) => Ok(o),
                    Err(er) => Err(er),
                }
            },
        }
    }
}

/// When every element's pass succeeds, the pass over the list succeeds
/// elementwise.
proof fn lemma_remap_exprs_ok(m: Mapping, es: Seq<ExprV>)
    requires
        forall|j: int| 0 <= j < es.len() ==> (#[trigger] spec_remap_expr(m, es[j])) is Ok,
    ensures
        spec_remap_exprs(m, es) matches Ok(rs) && rs.len() == es.len() && forall|j: int|
            0 <= j < es.len() ==> rs[j] == spec_remap_expr(m, es[j])->Ok_0,
    decreases es.len(),
{
    if es.len() > 0 {
        assert(forall|j: int|
            0 <= j < es.drop_first().len() ==> #[trigger] es.drop_first()[j] == es[j + 1]);
        assert(spec_remap_expr(m, es[0]) is Ok);
        lemma_remap_exprs_ok(m, es.drop_first());
        let head = seq![spec_remap_expr(m, es[0])->Ok_0];
        let tail = spec_remap_exprs(m, es.drop_first())->Ok_0;
        let rs = spec_remap_exprs(m, es)->Ok_0;
        assert(rs == head + tail);
        assert forall|j: int| 0 <= j < es.len() implies rs[j] == spec_remap_expr(
            m,
            es[j],
        )->Ok_0 by {
            if j > 0 {
                assert(rs[j] == tail[j - 1]);
            }
        }
    }
}

/// The first element whose pass fails decides the error of the pass
/// over the list.
proof fn lemma_remap_exprs_err(m: Mapping, es: Seq<ExprV>, i: int)
    requires
        0 <= i < es.len(),
        spec_remap_expr(m, es[i]) is Err,
        forall|j: int| 0 <= j < i ==> (#[trigger] spec_remap_expr(m, es[j])) is Ok,
    ensures
        spec_remap_exprs(m, es) == Result::<Seq<ExprV>, MappingErrorV>::Err(
            spec_remap_expr(m, es[i])->Err_0,
        ),
    decreases es.len(),
{
    if i > 0 {
        assert(forall|j: int|
            0 <= j < es.drop_first().len() ==> #[trigger] es.drop_first()[j] == es[j + 1]);
        assert(spec_remap_expr(m, es[0]) is Ok);
        lemma_remap_exprs_err(m, es.drop_first(), i - 1);
    } else {
        assert(spec_remap_expr(m, es[0]) is Err);
    }
}

impl TransformVisitor {
    /// The pass over a list of child expressions, leftmost first; the
    /// first error aborts.
    fn transform_exprs(&self, es: &Vec<Expr>) -> (r: Result<Vec<Expr>, MappingError>)
        ensures
            ({
                let s = spec_remap_exprs(self.config.mapping, exprs_view(*es));
                match r {
                    Ok(ts) => s matches Ok(sv) && exprs_view(ts) =~= sv,
                    Err(er) => s matches Err(ev) && er@ == ev,
                }
            }),
        decreases *es, 0int,
    {
        let ghost m = self.config.mapping;
        let n = es.len();
        let mut out: Vec<Expr> = Vec::new();
        let mut i: usize = 0;
        proof {
            lemma_exprs_view(*es);
        }
        while i < n
            invariant
                m == self.config.mapping,
                n == es@.len(),
                i <= n,
                out@.len() == i,
                exprs_view(*es).len() == n,
                forall|j: int| 0 <= j < n ==> exprs_view(*es)[j] == expr_view(es@[j]),
                forall|j: int|
                    0 <= j < i ==> (#[trigger] spec_remap_expr(m, exprs_view(*es)[j])) is Ok,
                forall|j: int|
                    0 <= j < i ==> expr_view(#[trigger] out@[j]) == spec_remap_expr(
                        m,
                        exprs_view(*es)[j],
                    )->Ok_0,
            decreases n - i,
        {
            match self.transform_expr(&es[i]) {
                Err(er) => {
                    proof {
                        lemma_remap_exprs_err(m, exprs_view(*es), i as int);
                    }
                    return Err(er);
                },
                Ok(t) => {
                    out.push(t);
                },
            }
            i += 1;
        }
        proof {
            lemma_remap_exprs_ok(m, exprs_view(*es));
            lemma_exprs_view(out);
            assert(exprs_view(out) =~= spec_remap_exprs(m, exprs_view(*es))->Ok_0);
        }
        Ok(out)
    }

    /// The pass over one expression: replace it on a full-depth leaf
    /// match, fail on a partial match, and otherwise keep its shape
    /// and recurse into its children.
    #[verifier::rlimit(50)]
    pub fn transform_expr(&self, e: &Expr) -> (r: Result<Expr, MappingError>)
        ensures
            ({
                let s = spec_remap_expr(self.config.mapping, e@);
                match r {
                    Ok(t) => s matches Ok(tv) && t@ == tv,
                    Err(er) => s matches Err(ev) && er@ == ev,
                }
            }),
        decreases *e, 1int,
    {
        let ghost m = self.config.mapping;
        match self.apply_mapping(e) {
            Err(er) => Err(er),
            Ok(Some(s)) => {
                let t = Expr::StrLit(s);
                proof {
                    assert(t@ == ExprV::StrLit(t->StrLit_0@));
                }
                Ok(t)
            },
            Ok(None) => {
                proof {
                    assert(spec_remap_expr(m, e@) == spec_remap_children(m, e@));
                }
                match e {
                    Expr::Ident { name, free } => {
                        let t = Expr::Ident { name: name.clone(), free: *free };
                        proof {
                            assert(t@ == e@);
                        }
                        Ok(t)
                    },
                    Expr::StrLit(s) => {
                        let t = Expr::StrLit(s.clone());
                        proof {
                            assert(t@ == e@);
                        }
                        Ok(t)
                    },
                    Expr::Member { obj, prop } => {
                        proof {
                            assert(*e == Expr::Member { obj: *obj, prop: *prop });
                            assert(e@ == ExprV::Member {
                                obj: Box::new(expr_view(**obj)),
                                prop: crate::ast::member_prop_view(*prop),
                            });
                        }
                        match self.transform_expr(obj) {
                            Err(er) => Err(er),
                            Ok(o) => match prop {
                                MemberProp::Named(p) => {
                                    let t = Expr::Member {
                                        obj: Box::new(o),
                                        prop: MemberProp::Named(p.clone()),
                                    };
                                    proof {
                                        assert(t@ == ExprV::Member {
                                            obj: Box::new(o@),
                                            prop: MemberPropV::Named(p@),
                                        });
                                    }
                                    Ok(t)
                                },
                                MemberProp::Computed(pe) => match self.transform_expr(pe) {
                                    Err(er) => Err(er),
                                    Ok(pp) => {
                                        let t = Expr::Member {
                                            obj: Box::new(o),
                                            prop: MemberProp::Computed(Box::new(pp)),
                                        };
                                        proof {
                                            assert(expr_view(*t->Member_obj) == o@);
                                            assert(crate::ast::member_prop_view(t->Member_prop)
                                                == MemberPropV::Computed(Box::new(pp@)));
                                            assert(t@ == ExprV::Member {
                                                obj: Box::new(o@),
                                                prop: MemberPropV::Computed(Box::new(pp@)),
                                            });
                                        }
                                        Ok(t)
                                    },
                                },
                            },
                        }
                    },
                    Expr::Call { callee, args } => {
                        proof {
                            assert(*e == Expr::Call { callee: *callee, args: *args });
                            assert(e@ == ExprV::Call {
                                callee: crate::ast::callee_view(*callee),
                                args: exprs_view(*args),
                            });
                        }
                        match callee {
                            Callee::Import => match self.transform_exprs(args) {
                                Err(er) => Err(er),
                                Ok(ts) => {
                                    let t = Expr::Call { callee: Callee::Import, args: ts };
                                    proof {
                                        assert(t@ == ExprV::Call {
                                            callee: CalleeV::Import,
                                            args: exprs_view(ts),
                                        });
                                    }
                                    Ok(t)
                                },
                            },
                            Callee::Expr(ce) => match self.transform_expr(ce) {
                                Err(er) => Err(er),
                                Ok(c) => match self.transform_exprs(args) {
                                    Err(er) => Err(er),
                                    Ok(ts) => {
                                        let t = Expr::Call {
                                            callee: Callee::Expr(Box::new(c)),
                                            args: ts,
                                        };
                                        proof {
                                            assert(crate::ast::callee_view(t->Call_callee)
                                                == CalleeV::Expr(Box::new(c@)));
                                            assert(t@ == ExprV::Call {
                                                callee: CalleeV::Expr(Box::new(c@)),
                                                args: exprs_view(ts),
                                            });
                                        }
                                        Ok(t)
                                    },
                                },
                            },
                        }
                    },
                    Expr::Other(children) => {
                        proof {
                            assert(*e == Expr::Other(*children));
                            assert(e@ == ExprV::Other(exprs_view(*children)));
                        }
                        match self.transform_exprs(children) {
                            Err(er) => Err(er),
                            Ok(ts) => {
                                let t = Expr::Other(ts);
                                proof {
                                    assert(t@ == ExprV::Other(exprs_view(ts)));
                                }
                                Ok(t)
                            },
                        }
                    },
                }
            },
        }
    }
}

/// When every item's pass succeeds, the pass over the item list
/// succeeds elementwise.
proof fn lemma_remap_items_ok(m: Mapping, items: Seq<ModuleItemV>)
    requires
        forall|j: int| 0 <= j < items.len() ==> (#[trigger] spec_remap_item(m, items[j])) is Ok,
    ensures
        spec_remap_items(m, items) matches Ok(rs) && rs.len() == items.len() && forall|j: int|
            0 <= j < items.len() ==> rs[j] == spec_remap_item(m, items[j])->Ok_0,
    decreases items.len(),
{
    if items.len() > 0 {
        assert(forall|j: int|
            0 <= j < items.drop_first().len() ==> #[trigger] items.drop_first()[j] == items[j
                + 1]);
        assert(spec_remap_item(m, items[0]) is Ok);
        lemma_remap_items_ok(m, items.drop_first());
        let head = seq![spec_remap_item(m, items[0])->Ok_0];
        let tail = spec_remap_items(m, items.drop_first())->Ok_0;
        let rs = spec_remap_items(m, items)->Ok_0;
        assert(rs == head + tail);
        assert forall|j: int| 0 <= j < items.len() implies rs[j] == spec_remap_item(
            m,
            items[j],
        )->Ok_0 by {
            if j > 0 {
                assert(rs[j] == tail[j - 1]);
            }
        }
    }
}

/// The first item whose pass fails decides the error of the pass over
/// the item list.
proof fn lemma_remap_items_err(m: Mapping, items: Seq<ModuleItemV>, i: int)
    requires
        0 <= i < items.len(),
        spec_remap_item(m, items[i]) is Err,
        forall|j: int| 0 <= j < i ==> (#[trigger] spec_remap_item(m, items[j])) is Ok,
    ensures
        spec_remap_items(m, items) == Result::<Seq<ModuleItemV>, MappingErrorV>::Err(
            spec_remap_item(m, items[i])->Err_0,
        ),
    decreases items.len(),
{
    if i > 0 {
        assert(forall|j: int|
            0 <= j < items.drop_first().len() ==> #[trigger] items.drop_first()[j] == items[j
                + 1]);
        assert(spec_remap_item(m, items[0]) is Ok);
        lemma_remap_items_err(m, items.drop_first(), i - 1);
    } else {
        assert(spec_remap_item(m, items[0]) is Err);
    }
}

impl TransformVisitor {
    /// The pass over one module item; only a statement holds an
    /// expression to pass over.
    fn transform_item(&self, item: &ModuleItem) -> (r: Result<ModuleItem, MappingError>)
        ensures
            ({
                let s = spec_remap_item(self.config.mapping, item@);
                match r {
                    Ok(t) => s matches Ok(tv) && t@ == tv,
                    Err(er) => s matches Err(ev) && er@ == ev,
                }
            }),
    {
        match item {
            ModuleItem::Stmt(e) => match self.transform_expr(e) {
                Err(er) => Err(er),
                Ok(t) => Ok(ModuleItem::Stmt(t)),
            },
            ModuleItem::ImportDecl { src } => Ok(ModuleItem::ImportDecl { src: src.clone() }),
            ModuleItem::NamedExport { src } => {
                let s = match src {
                    Some(s) => Some(s.clone()),
                    None => None,
                };
                Ok(ModuleItem::NamedExport { src: s })
            },
            ModuleItem::ExportAll { src } => Ok(ModuleItem::ExportAll { src: src.clone() }),
        }
    }

    /// The whole pass over one program: the tree with every chain
    /// resolved, or the first configuration error. The pass is
    /// transactional: on an error no tree is handed back.
    pub fn process(&self, program: &Program) -> (r: Result<Program, MappingError>)
        ensures
            ({
                let s = spec_remap_program(self.config.mapping, program@);
                match r {
                    Ok(t) => s matches Ok(tv) && t@ == tv,
                    Err(er) => s matches Err(ev) && er@ == ev,
                }
            }),
    {
        let ghost m = self.config.mapping;
        let ghost iv = program@.items;
        proof {
            assert(iv.len() == program.items@.len());
            assert(forall|j: int|
                0 <= j < program.items@.len() ==> iv[j] == crate::ast::module_item_view(
                    #[trigger] program.items@[j],
                ));
        }
        let n = program.items.len();
        let mut out: Vec<ModuleItem> = Vec::new();
        let mut i: usize = 0;
        while i < n
            invariant
                m == self.config.mapping,
                iv == program@.items,
                n == program.items@.len(),
                iv.len() == n,
                forall|j: int|
                    0 <= j < n ==> iv[j] == crate::ast::module_item_view(
                        #[trigger] program.items@[j],
                    ),
                i <= n,
                out@.len() == i,
                forall|j: int| 0 <= j < i ==> (#[trigger] spec_remap_item(m, iv[j])) is Ok,
                forall|j: int|
                    0 <= j < i ==> crate::ast::module_item_view(#[trigger] out@[j])
                        == spec_remap_item(m, iv[j])->Ok_0,
            decreases n - i,
        {
            match self.transform_item(&program.items[i]) {
                Err(er) => {
                    proof {
                        lemma_remap_items_err(m, iv, i as int);
                    }
                    return Err(er);
                },
                Ok(t) => {
                    out.push(t);
                },
            }
            i += 1;
        }
        let result = Program { items: out };
        proof {
            lemma_remap_items_ok(m, iv);
            assert(result@.items =~= spec_remap_items(m, iv)->Ok_0);
        }
        Ok(result)
    }
}

/// A dotted chain that matches a leaf at full depth is replaced by
/// exactly that leaf's value; nothing beneath the original expression
/// is passed over, since the whole expression gives way to the
/// literal.
pub proof fn lemma_full_match_replaces(m: Mapping, e: ExprV, path: Seq<Seq<char>>, s: String)
    requires
        spec_chain_of(e) == Some(path),
        spec_resolve(m, path) == Resolved::Hit(s),
    ensures
        spec_remap_expr(m, e) == Ok::<ExprV, MappingErrorV>(ExprV::StrLit(s@)),
{
}

/// An expression whose chain has no matching prefix at all — or that
/// is no chain — keeps its shape, and each of its children is passed
/// over on its own.
pub proof fn lemma_no_match_recurses(m: Mapping, e: ExprV)
    requires
        match spec_chain_of(e) {
            Some(path) => spec_resolve(m, path) == Resolved::Stuck(0),
            None => true,
        },
    ensures
        spec_remap_expr(m, e) == spec_remap_children(m, e),
{
}

/// A chain that consumes at least one segment without ending on a
/// leaf at full depth fails the pass, rather than passing through
/// silently.
pub proof fn lemma_partial_match_fails(m: Mapping, e: ExprV, path: Seq<Seq<char>>)
    requires
        spec_chain_of(e) == Some(path),
        match spec_resolve(m, path) {
            Resolved::Hit(_) => false,
            Resolved::Stuck(d) => d >= 1,
            Resolved::NotLeaf => true,
        },
    ensures
        spec_remap_expr(m, e) is Err,
{
}

/// If the pass fails on any item of a program, the pass over the
/// whole program fails: no partially rewritten tree is handed back.
pub proof fn lemma_error_aborts_program(m: Mapping, p: ProgramV, i: int)
    requires
        0 <= i < p.items.len(),
        spec_remap_item(m, p.items[i]) is Err,
    ensures
        spec_remap_program(m, p) is Err,
{
    lemma_items_err_somewhere(m, p.items, i);
}

proof fn lemma_items_err_somewhere(m: Mapping, items: Seq<ModuleItemV>, i: int)
    requires
        0 <= i < items.len(),
        spec_remap_item(m, items[i]) is Err,
    ensures
        spec_remap_items(m, items) is Err,
    decreases items.len(),
{
    if items.len() > 0 && !(spec_remap_item(m, items[0]) is Err) {
        assert(i > 0);
        assert(items.drop_first()[i - 1] == items[i]);
        lemma_items_err_somewhere(m, items.drop_first(), i - 1);
    }
}

} // verus!
