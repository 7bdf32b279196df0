use swc_remapper::ast::{Callee, Expr, MemberProp, ModuleItem, Program};
use swc_remapper::classmap::{ClassMap, Config, Transform};
use swc_remapper::extensions;
use swc_remapper::mapping::{Mapping, MappingError};
use swc_remapper::patterns;
use swc_remapper::remapper::{PluginConfig, TransformVisitor};
use swc_remapper::specifier::SpecifierRewriter;

fn free_ident(name: &str) -> Expr {
    Expr::Ident {
        name: name.to_string(),
        free: true,
    }
}

fn bound_ident(name: &str) -> Expr {
    Expr::Ident {
        name: name.to_string(),
        free: false,
    }
}

fn member(obj: Expr, prop: &str) -> Expr {
    Expr::Member {
        obj: Box::new(obj),
        prop: MemberProp::Named(prop.to_string()),
    }
}

fn chain(root: &str, props: &[&str]) -> Expr {
    let mut e = free_ident(root);
    for p in props {
        e = member(e, p);
    }
    e
}

fn leaf(s: &str) -> Mapping {
    Mapping::Leaf(s.to_string())
}

fn branch(entries: Vec<(&str, Mapping)>) -> Mapping {
    Mapping::Branch(
        entries
            .into_iter()
            .map(|(k, v)| (k.to_string(), v))
            .collect(),
    )
}

fn strict_visitor(mapping: Mapping) -> TransformVisitor {
    TransformVisitor {
        config: PluginConfig { mapping },
    }
}

fn lodash_map_table() -> Mapping {
    branch(vec![("lodash", branch(vec![("map", leaf("_map"))]))])
}

fn ext_rewriter(rules: &[(&str, &str)]) -> SpecifierRewriter {
    SpecifierRewriter::Extensions(extensions::TransformVisitor {
        config: extensions::PluginConfig {
            extensions: rules
                .iter()
                .map(|(a, b)| (a.to_string(), b.to_string()))
                .collect(),
        },
    })
}

fn pat_rewriter(rules: &[(&str, &str)]) -> SpecifierRewriter {
    SpecifierRewriter::Patterns(patterns::TransformVisitor {
        config: patterns::PluginConfig {
            rules: rules
                .iter()
                .map(|(a, b)| (a.to_string(), b.to_string()))
                .collect(),
        },
    })
}

fn import_program(src: &str) -> Program {
    Program {
        items: vec![ModuleItem::ImportDecl {
            src: src.to_string(),
        }],
    }
}

fn import_src(p: &Program) -> String {
    match &p.items[0] {
        ModuleItem::ImportDecl { src } => src.clone(),
        other => panic!("expected an import declaration, got {:?}", other),
    }
}

#[test]
fn full_depth_leaf_match_replaces_expression() {
    let v = strict_visitor(lodash_map_table());
    let r = v.transform_expr(&chain("lodash", &["map"])).unwrap();
    assert_eq!(r, Expr::StrLit("_map".to_string()));
}

#[test]
fn bound_identifier_never_matches() {
    let v = strict_visitor(lodash_map_table());
    let e = member(bound_ident("lodash"), "map");
    let r = v.transform_expr(&e).unwrap();
    assert_eq!(r, member(bound_ident("lodash"), "map"));
}

#[test]
fn unmatched_chain_left_unchanged_and_children_still_visited() {
    let v = strict_visitor(lodash_map_table());
    // `f(lodash.map)`: the call is no chain, `f` matches nothing, but
    // the argument is still replaced.
    let e = Expr::Call {
        callee: Callee::Expr(Box::new(free_ident("f"))),
        args: vec![chain("lodash", &["map"])],
    };
    let r = v.transform_expr(&e).unwrap();
    assert_eq!(
        r,
        Expr::Call {
            callee: Callee::Expr(Box::new(free_ident("f"))),
            args: vec![Expr::StrLit("_map".to_string())],
        }
    );
}

#[test]
fn partial_match_fails_with_not_a_node() {
    let v = strict_visitor(lodash_map_table());
    let err = v
        .transform_expr(&chain("lodash", &["map", "extra"]))
        .unwrap_err();
    assert_eq!(
        err,
        MappingError::NotANode(vec![
            "lodash".to_string(),
            "map".to_string(),
            "extra".to_string()
        ])
    );
    assert_eq!(
        err.message(),
        "lodash.map.extra isn't a node of the provided mapping"
    );
}

#[test]
fn shorter_partial_match_reports_first_extra_segment() {
    let v = strict_visitor(lodash_map_table());
    let err = v
        .transform_expr(&chain("lodash", &["x", "y"]))
        .unwrap_err();
    assert_eq!(
        err,
        MappingError::NotANode(vec!["lodash".to_string(), "x".to_string()])
    );
    assert_eq!(err.message(), "lodash.x isn't a node of the provided mapping");
}

#[test]
fn full_match_on_branch_fails_with_not_a_leaf() {
    let v = strict_visitor(lodash_map_table());
    let err = v.transform_expr(&free_ident("lodash")).unwrap_err();
    assert_eq!(err, MappingError::NotALeaf(vec!["lodash".to_string()]));
    assert_eq!(
        err.message(),
        "lodash isn't an ending node (leaf) of the provided mapping"
    );
}

#[test]
fn error_aborts_whole_program() {
    let v = strict_visitor(lodash_map_table());
    let p = Program {
        items: vec![
            ModuleItem::Stmt(chain("lodash", &["map"])),
            ModuleItem::Stmt(free_ident("lodash")),
        ],
    };
    assert!(v.process(&p).is_err());
}

#[test]
fn no_matching_prefix_is_a_quiet_no_op() {
    let v = strict_visitor(lodash_map_table());
    let r = v.transform_expr(&chain("other", &["map"])).unwrap();
    assert_eq!(r, chain("other", &["map"]));
}

#[test]
fn empty_branch_matches_nothing() {
    let v = strict_visitor(Mapping::default());
    let r = v.transform_expr(&chain("lodash", &["map"])).unwrap();
    assert_eq!(r, chain("lodash", &["map"]));
}

#[test]
fn lenient_partial_match_is_a_no_op() {
    let t = Transform {
        config: Config {
            classmap: ClassMap::Branch(vec![(
                "lodash".to_string(),
                ClassMap::Branch(vec![("map".to_string(), ClassMap::Leaf("_map".to_string()))]),
            )]),
        },
    };
    // Partial match: no error, no change.
    assert_eq!(
        t.transform_expr(&chain("lodash", &["x"])),
        chain("lodash", &["x"])
    );
    // A bare branch hit: no error, no change.
    assert_eq!(t.transform_expr(&free_ident("lodash")), free_ident("lodash"));
    // Full-depth leaf hit: replaced.
    assert_eq!(
        t.transform_expr(&chain("lodash", &["map"])),
        Expr::StrLit("_map".to_string())
    );
}

#[test]
fn lenient_default_matches_nothing() {
    let t = Transform {
        config: Config {
            classmap: ClassMap::default(),
        },
    };
    assert_eq!(
        t.transform_expr(&chain("lodash", &["map"])),
        chain("lodash", &["map"])
    );
}

#[test]
fn extension_rule_rewrites_suffix() {
    let rw = ext_rewriter(&[(".ts", ".js"), (".tsx", ".js")]);
    let out = rw.process_checked(&import_program("./a.ts")).unwrap();
    assert_eq!(import_src(&out), "./a.js");
}

#[test]
fn extension_rule_without_match_reports_unchanged() {
    let rw = ext_rewriter(&[(".ts", ".js"), (".tsx", ".js")]);
    let out = rw.process_checked(&import_program("./a.mjs")).unwrap();
    assert_eq!(import_src(&out), "./a.mjs");
}

#[test]
fn extension_first_match_wins() {
    let rw = ext_rewriter(&[(".tsx", ".first"), ("x", ".second")]);
    let out = rw.process_checked(&import_program("./a.tsx")).unwrap();
    assert_eq!(import_src(&out), "./a.first");
}

#[test]
fn extension_identity_rewrite_reports_unchanged() {
    let v = extensions::TransformVisitor {
        config: extensions::PluginConfig {
            extensions: vec![(".ts".to_string(), ".ts".to_string())],
        },
    };
    assert_eq!(v.rewrite_import_specifier("./a.ts"), None);
    assert_eq!(
        v.rewrite_extension("./a.ts"),
        Some("./a.ts".to_string())
    );
}

#[test]
fn extension_rewrite_is_idempotent_on_example_rules() {
    let rw = ext_rewriter(&[(".ts", ".js"), (".tsx", ".js")]);
    let once = rw.process_checked(&import_program("./a.ts")).unwrap();
    let twice = rw.process_checked(&once).unwrap();
    assert_eq!(once, twice);
}

#[test]
fn pattern_rules_apply_in_order_cumulatively() {
    let rw = pat_rewriter(&[("^@app/", "./src/"), ("/index$", "")]);
    let out = rw.process_checked(&import_program("@app/utils/index")).unwrap();
    assert_eq!(import_src(&out), "./src/utils");
}

#[test]
fn pattern_rewrite_is_idempotent_on_example_rules() {
    let rw = pat_rewriter(&[("^@app/", "./src/"), ("/index$", "")]);
    let once = rw.process_checked(&import_program("@app/utils/index")).unwrap();
    let twice = rw.process_checked(&once).unwrap();
    assert_eq!(once, twice);
}

#[test]
fn pattern_capture_groups_are_expanded() {
    let rw = pat_rewriter(&[("^lib/([a-z]+)\\.ts$", "dist/$1.js")]);
    let out = rw.process_checked(&import_program("lib/util.ts")).unwrap();
    assert_eq!(import_src(&out), "dist/util.js");
}

#[test]
fn network_urls_are_never_rewritten() {
    let rw = pat_rewriter(&[("a", "b"), ("\\.js$", ".mjs")]);
    let out = rw
        .process_checked(&import_program("https://cdn.example.com/a.js"))
        .unwrap();
    assert_eq!(import_src(&out), "https://cdn.example.com/a.js");
    let out = rw
        .process_checked(&import_program("http://cdn.example.com/a.js"))
        .unwrap();
    assert_eq!(import_src(&out), "http://cdn.example.com/a.js");
}

#[test]
fn invalid_pattern_is_rejected() {
    let rw = pat_rewriter(&[("(", "x")]);
    assert!(!rw.validate());
    assert_eq!(rw.process_checked(&import_program("./a.ts")), None);
}

#[test]
fn all_four_sites_are_rewritten() {
    let rw = ext_rewriter(&[(".ts", ".js")]);
    let p = Program {
        items: vec![
            ModuleItem::ImportDecl {
                src: "./a.ts".to_string(),
            },
            ModuleItem::NamedExport {
                src: Some("./b.ts".to_string()),
            },
            ModuleItem::ExportAll {
                src: "./c.ts".to_string(),
            },
            ModuleItem::Stmt(Expr::Call {
                callee: Callee::Import,
                args: vec![Expr::StrLit("./d.ts".to_string())],
            }),
        ],
    };
    let out = rw.process_checked(&p).unwrap();
    assert_eq!(
        out,
        Program {
            items: vec![
                ModuleItem::ImportDecl {
                    src: "./a.js".to_string(),
                },
                ModuleItem::NamedExport {
                    src: Some("./b.js".to_string()),
                },
                ModuleItem::ExportAll {
                    src: "./c.js".to_string(),
                },
                ModuleItem::Stmt(Expr::Call {
                    callee: Callee::Import,
                    args: vec![Expr::StrLit("./d.js".to_string())],
                }),
            ],
        }
    );
}

#[test]
fn sourceless_named_export_left_alone() {
    let rw = ext_rewriter(&[(".ts", ".js")]);
    let p = Program {
        items: vec![ModuleItem::NamedExport { src: None }],
    };
    let out = rw.process_checked(&p).unwrap();
    assert_eq!(out, Program { items: vec![ModuleItem::NamedExport { src: None }] });
}

#[test]
fn non_literal_dynamic_import_argument_left_alone() {
    let rw = ext_rewriter(&[(".ts", ".js")]);
    let p = Program {
        items: vec![ModuleItem::Stmt(Expr::Call {
            callee: Callee::Import,
            args: vec![free_ident("path")],
        })],
    };
    let out = rw.process_checked(&p).unwrap();
    assert_eq!(
        out,
        Program {
            items: vec![ModuleItem::Stmt(Expr::Call {
                callee: Callee::Import,
                args: vec![free_ident("path")],
            })],
        }
    );
}

#[test]
fn end_to_end_both_engines() {
    // `import x from "./a.ts"` plus the expression `lodash.map`, a
    // mapping `{"lodash": {"map": "_map"}}` and the extension rule
    // `(".ts", ".js")`.
    let p = Program {
        items: vec![
            ModuleItem::ImportDecl {
                src: "./a.ts".to_string(),
            },
            ModuleItem::Stmt(chain("lodash", &["map"])),
        ],
    };
    let resolver = strict_visitor(lodash_map_table());
    let p = resolver.process(&p).unwrap();
    let rw = ext_rewriter(&[(".ts", ".js")]);
    let p = rw.process_checked(&p).unwrap();
    assert_eq!(
        p,
        Program {
            items: vec![
                ModuleItem::ImportDecl {
                    src: "./a.js".to_string(),
                },
                ModuleItem::Stmt(Expr::StrLit("_map".to_string())),
            ],
        }
    );
}

#[test]
fn computed_member_access_is_no_chain_but_children_are_visited() {
    let v = strict_visitor(lodash_map_table());
    let e = Expr::Member {
        obj: Box::new(bound_ident("table")),
        prop: MemberProp::Computed(Box::new(chain("lodash", &["map"]))),
    };
    let r = v.transform_expr(&e).unwrap();
    assert_eq!(
        r,
        Expr::Member {
            obj: Box::new(bound_ident("table")),
            prop: MemberProp::Computed(Box::new(Expr::StrLit("_map".to_string()))),
        }
    );
}

#[test]
fn empty_suffix_rule_appends() {
    let v = extensions::TransformVisitor {
        config: extensions::PluginConfig {
            extensions: vec![("".to_string(), ".js".to_string())],
        },
    };
    assert_eq!(v.rewrite_extension("a"), Some("a.js".to_string()));
    assert_eq!(v.rewrite_import_specifier("a"), Some("a.js".to_string()));
}

#[test]
fn empty_rule_lists_change_nothing() {
    let ext = ext_rewriter(&[]);
    let out = ext.process_checked(&import_program("./a.ts")).unwrap();
    assert_eq!(import_src(&out), "./a.ts");
    let pat = pat_rewriter(&[]);
    let out = pat.process_checked(&import_program("./a.ts")).unwrap();
    assert_eq!(import_src(&out), "./a.ts");
}

#[test]
fn deep_chain_resolves_through_three_levels() {
    let table = branch(vec![(
        "a",
        branch(vec![("b", branch(vec![("c", leaf("replaced"))]))]),
    )]);
    let v = strict_visitor(table);
    let r = v.transform_expr(&chain("a", &["b", "c"])).unwrap();
    assert_eq!(r, Expr::StrLit("replaced".to_string()));
}

#[test]
fn lenient_pass_recurses_into_children() {
    let t = Transform {
        config: Config {
            classmap: ClassMap::Branch(vec![(
                "lodash".to_string(),
                ClassMap::Branch(vec![("map".to_string(), ClassMap::Leaf("_map".to_string()))]),
            )]),
        },
    };
    let e = Expr::Call {
        callee: Callee::Expr(Box::new(bound_ident("f"))),
        args: vec![chain("lodash", &["map"])],
    };
    assert_eq!(
        t.transform_expr(&e),
        Expr::Call {
            callee: Callee::Expr(Box::new(bound_ident("f"))),
            args: vec![Expr::StrLit("_map".to_string())],
        }
    );
}

#[test]
fn pattern_applies_every_rule_cumulatively_not_first_match() {
    // The second rule applies to the first rule's output.
    let rw = pat_rewriter(&[("^a", "b"), ("^b", "c")]);
    let out = rw.process_checked(&import_program("a-module")).unwrap();
    assert_eq!(import_src(&out), "c-module");
}

#[test]
fn pattern_identity_rewrite_reports_unchanged() {
    // Both rules fire, but their combined effect reproduces the input,
    // which counts as "unchanged".
    let rw = pat_rewriter(&[("^a", "b"), ("^b", "a")]);
    let out = rw.process_checked(&import_program("a-module")).unwrap();
    assert_eq!(import_src(&out), "a-module");
}
