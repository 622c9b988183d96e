use cargo_player::infer::{
    candidates_of, infer_from_trees, join_lines, merge_candidates, override_lines, override_name,
    push_candidate, remove_package, retain_outside, same_package_name, Manifest,
};
use cargo_player::syntax::{
    CodeBlock, Expression, FnItem, ImplBlock, ImplMember, ImportPath, ModItem, Statement,
    SyntaxItem,
};
use cargo_player::{extract_use, get_use, infer_deps, parse_file, File, TokenType};

fn manifest_of(code: &str) -> String {
    infer_deps(&[File::new("main", code)]).unwrap()
}

fn strings(names: &[&str]) -> Vec<String> {
    names.iter().map(|name| name.to_string()).collect()
}

fn use_name(name: &str) -> SyntaxItem {
    SyntaxItem::Use(ImportPath::Name(name.to_string()))
}

fn block(stmts: Vec<Statement>) -> CodeBlock {
    CodeBlock { stmts }
}

#[test]
fn end_to_end_without_override() {
    assert_eq!(
        "serde = \"*\"\nregex = \"*\"",
        manifest_of("use serde;\nfn main() { use regex; }\n")
    );
}

#[test]
fn end_to_end_with_override() {
    let code = "//# serde = { version = \"1.0\", features = [\"derive\"] }\nuse serde;\nuse regex;\n";
    assert_eq!(
        "serde = { version = \"1.0\", features = [\"derive\"] }\nregex = \"*\"",
        manifest_of(code)
    );
}

#[test]
fn override_takes_precedence() {
    let text = manifest_of("//# foo = \"1.2.3\"\nuse foo;\nuse bar;\n");
    let lines: Vec<&str> = text.lines().collect();
    assert_eq!(vec!["foo = \"1.2.3\"", "bar = \"*\""], lines);
    assert_eq!(1, lines.iter().filter(|line| line.starts_with("foo")).count());
}

#[test]
fn dash_and_underscore_name_the_same_package() {
    assert_eq!(
        "my-crate = \"1.0\"",
        manifest_of("//# my-crate = \"1.0\"\nuse my_crate;\n")
    );
    assert!(same_package_name("my-crate", "my_crate"));
    assert!(same_package_name("a_b-c", "a-b_c"));
    assert!(!same_package_name("my-crate", "my_crates"));
    assert!(!same_package_name("my-crate", "mycrate"));
    assert!(same_package_name("", ""));
}

#[test]
fn every_match_arm_is_walked() {
    assert_eq!(
        "a = \"*\"\nb = \"*\"",
        manifest_of("fn f() { match v { 0 => { use a; } 1 => { use b; } _ => () } }")
    );
}

#[test]
fn grouped_import_names_each_member() {
    assert_eq!(
        "some_lib = \"*\"\nsecond_lib = \"*\"",
        manifest_of("use { some_lib, second_lib };")
    );
}

#[test]
fn group_members_resolve_on_their_own() {
    assert_eq!(
        "a = \"*\"\nb = \"*\"\npkg = \"*\"",
        manifest_of("use { a::x, b::y };\nuse pkg::{c, d};")
    );
}

#[test]
fn import_in_closure_of_local_is_found() {
    assert_eq!("x = \"*\"", manifest_of("fn f() { let c = || { use x; }; }"));
}

#[test]
fn else_if_chain_is_walked() {
    let code = "fn f() { if a { use one; } else if b { use two; } else { use three; } }";
    assert_eq!("one = \"*\"\ntwo = \"*\"\nthree = \"*\"", manifest_of(code));
}

#[test]
fn deeply_nested_contexts_are_walked() {
    let code = r#"
use foobar;
use proc_macro;

mod baz {
    use bar;

    struct Baz;
    impl Baz {
        fn boo() {
            match 0 {
                0 => {
                    use zero;
                }

                1 => {
                    let bar = || {
                        use bazz;
                        async {
                            if bar {
                                use ifbar;
                            } else {
                                use elsebar;
                            }
                        }
                    };
                }
            }
        }

        fn baz() {
            while true {
                for i in 0..4 {
                    use yes;
                }
            }
        }
    }
}

fn hoo() {
    use hi;
}
"#;
    let mut deps = vec![];
    let mut mods = vec![];
    for item in parse_file(code).unwrap() {
        extract_use(TokenType::Item(item), &mut deps, &mut mods);
    }
    assert_eq!(
        strings(&[
            "foobar",
            "proc_macro",
            "bar",
            "zero",
            "bazz",
            "ifbar",
            "elsebar",
            "yes",
            "hi"
        ]),
        deps
    );
    assert_eq!(strings(&["baz"]), mods);
}

#[test]
fn reserved_roots_are_no_candidates() {
    let code = "use std::fmt;\nuse core::mem;\nuse crate::a;\nuse self::b;\nuse alloc::vec;\nuse super::c;\nuse stdx;\n";
    assert_eq!("stdx = \"*\"", manifest_of(code));
}

#[test]
fn no_identifier_is_listed_twice() {
    assert_eq!(
        "a = \"*\"\nb = \"*\"",
        manifest_of("use a;\nuse b::x;\nuse a::y as z;\nfn f() { use b; use a; }\n")
    );
}

#[test]
fn module_names_are_no_candidates() {
    let code = "mod helper;\nmod local { use dep; }\nuse helper::thing;\nuse local;\nuse other;\n";
    assert_eq!("dep = \"*\"\nother = \"*\"", manifest_of(code));
}

#[test]
fn module_declared_after_import_filters_it() {
    assert_eq!("", manifest_of("use late;\nfn f() { mod late {} }\n"));
}

#[test]
fn module_without_body_is_recorded_and_not_entered() {
    let mut deps = vec![];
    let mut mods = vec![];
    for item in parse_file("mod outside;\nmod inside { mod deeper; use dep; }").unwrap() {
        extract_use(TokenType::Item(item), &mut deps, &mut mods);
    }
    assert_eq!(strings(&["dep"]), deps);
    assert_eq!(strings(&["outside", "inside", "deeper"]), mods);
}

#[test]
fn glob_import_contributes_nothing() {
    assert_eq!("", manifest_of("use *;"));
    assert_eq!("a = \"*\"", manifest_of("use {*, a};"));
}

#[test]
fn files_contribute_on_their_own() {
    let files = [
        File::new("main", "use shared;\nuse first;\n"),
        File::new("second", "mod shared;\nuse shared::x;\nuse first;\nuse second;\n"),
    ];
    assert_eq!(
        "shared = \"*\"\nfirst = \"*\"\nsecond = \"*\"",
        infer_deps(&files).unwrap()
    );
}

#[test]
fn file_that_does_not_parse_contributes_nothing() {
    let files = [
        File::new("main", "//# kept = \"1\"\nuse broken;\nfn {"),
        File::new("other", "use fine;\n"),
    ];
    assert_eq!("kept = \"1\"\nfine = \"*\"", infer_deps(&files).unwrap());
}

#[test]
fn later_override_comes_first() {
    let files = [
        File::new("main", "//# a = \"1\"\n//# b = \"2\"\nuse a;\nuse c;\n"),
        File::new("other", "//# c = \"3\"\nuse d;\n"),
    ];
    assert_eq!(
        "c = \"3\"\nb = \"2\"\na = \"1\"\nd = \"*\"",
        infer_deps(&files).unwrap()
    );
}

#[test]
fn override_run_ends_at_first_other_line() {
    let code = "//# a = \"1\"\n\n//# b = \"2\"\nuse b;\n";
    assert_eq!("a = \"1\"\nb = \"*\"", manifest_of(code));
    assert_eq!(vec!["a = \"1\""], override_lines(code));
    assert!(override_lines("// comment\n//# a = \"1\"\n").is_empty());
    assert!(override_lines("").is_empty());
    assert!(override_lines("//#a\n").is_empty());
}

#[test]
fn override_lines_end_at_line_terminators() {
    assert_eq!(vec!["a", "b"], override_lines("//# a\r\n//# b"));
    assert_eq!(vec!["a\r"], override_lines("//# a\r"));
    assert_eq!(vec!["", "x "], override_lines("//# \n//# x \nrest"));
}

#[test]
fn override_without_name_removes_nothing() {
    assert_eq!(
        "[patch]\ndep = \"*\"",
        manifest_of("//# [patch]\nuse dep;\n")
    );
    assert_eq!(None, override_name("[patch]"));
    assert_eq!(None, override_name(""));
}

#[test]
fn override_name_is_trimmed_text_before_first_equal_sign() {
    assert_eq!(Some("serde"), override_name("serde = { version = \"1.0\" }"));
    assert_eq!(Some("a b"), override_name(" \t a b\u{a0} =x=y"));
    assert_eq!(Some(""), override_name("= 1"));
    assert_eq!(Some(""), override_name("   ="));
}

#[test]
fn empty_batch_gives_empty_manifest() {
    assert_eq!("", infer_deps(&[]).unwrap());
    assert_eq!("", manifest_of(""));
}

#[test]
fn manifest_from_trees_given_by_hand() {
    let tree = vec![
        use_name("serde"),
        SyntaxItem::Fn(FnItem {
            block: block(vec![Statement::Item(use_name("regex"))]),
        }),
    ];
    let files = [File::new("main", "//# regex = \"1\"\n")];
    assert_eq!(
        "regex = \"1\"\nserde = \"*\"",
        infer_from_trees(&files, vec![Some(tree)])
    );
    assert_eq!("regex = \"1\"", infer_from_trees(&files, vec![None]));
}

#[test]
fn walk_of_a_tree_given_by_hand() {
    let body = block(vec![
        Statement::Local(Some(Expression::Closure(Box::new(Expression::Block(block(
            vec![Statement::Item(use_name("in_closure"))],
        )))))),
        Statement::Local(None),
        Statement::Semi(Expression::If(
            block(vec![Statement::Item(use_name("in_then"))]),
            Some(Box::new(Expression::Block(block(vec![Statement::Item(
                use_name("in_else"),
            )])))),
        )),
        Statement::Expr(Expression::Match(vec![
            Expression::Unsafe(block(vec![Statement::Item(use_name("arm_one"))])),
            Expression::Other,
            Expression::Group(Box::new(Expression::Loop(block(vec![Statement::Item(
                use_name("arm_three"),
            )])))),
        ])),
        Statement::Item(SyntaxItem::Mod(ModItem {
            ident: "inner".to_string(),
            content: Some(vec![use_name("in_mod"), SyntaxItem::Other]),
        })),
        Statement::Item(SyntaxItem::Impl(ImplBlock {
            items: vec![
                ImplMember::Other,
                ImplMember::Method(block(vec![Statement::Item(use_name("in_method"))])),
            ],
        })),
    ]);
    let mut deps = strings(&["before"]);
    let mut mods = strings(&["earlier"]);
    extract_use(TokenType::Block(body), &mut deps, &mut mods);
    assert_eq!(
        strings(&[
            "before",
            "in_closure",
            "in_then",
            "in_else",
            "arm_one",
            "arm_three",
            "in_mod",
            "in_method"
        ]),
        deps
    );
    assert_eq!(strings(&["earlier", "inner"]), mods);
}

#[test]
fn module_token_stands_for_its_body() {
    let module = ModItem {
        ident: "m".to_string(),
        content: Some(vec![use_name("dep")]),
    };
    let mut deps = vec![];
    let mut mods = vec![];
    extract_use(TokenType::Mod(module), &mut deps, &mut mods);
    assert_eq!(strings(&["dep"]), deps);
    assert!(mods.is_empty());

    let module = ModItem {
        ident: "m".to_string(),
        content: None,
    };
    extract_use(TokenType::Mod(module), &mut deps, &mut mods);
    assert_eq!(strings(&["dep"]), deps);
    assert!(mods.is_empty());
}

#[test]
fn second_walk_of_same_tree_adds_nothing() {
    let code = "use a;\nmod m { use b; }\nfn f() { use c; use a; }\n";
    let mut deps = vec![];
    let mut mods = vec![];
    for item in parse_file(code).unwrap() {
        extract_use(TokenType::Item(item), &mut deps, &mut mods);
    }
    let first = deps.clone();
    for item in parse_file(code).unwrap() {
        extract_use(TokenType::Item(item), &mut deps, &mut mods);
    }
    assert_eq!(strings(&["a", "b", "c"]), first);
    assert_eq!(first, deps);
    assert_eq!(strings(&["m", "m"]), mods);
}

#[test]
fn get_use_resolves_each_shape() {
    let mut deps = vec![];
    get_use(ImportPath::Path("a".to_string()), &mut deps);
    get_use(ImportPath::Name("b".to_string()), &mut deps);
    get_use(ImportPath::Rename("c".to_string()), &mut deps);
    get_use(ImportPath::Other, &mut deps);
    get_use(
        ImportPath::Group(vec![
            ImportPath::Name("d".to_string()),
            ImportPath::Group(vec![
                ImportPath::Path("std".to_string()),
                ImportPath::Name("e".to_string()),
                ImportPath::Other,
            ]),
            ImportPath::Rename("a".to_string()),
            ImportPath::Name("f".to_string()),
        ]),
        &mut deps,
    );
    get_use(ImportPath::Group(vec![]), &mut deps);
    assert_eq!(strings(&["a", "b", "c", "d", "e", "f"]), deps);
}

#[test]
fn push_candidate_skips_reserved_and_known_names() {
    let mut deps = strings(&["known"]);
    for name in ["std", "core", "crate", "self", "alloc", "super", "known"] {
        push_candidate(name.to_string(), &mut deps);
    }
    assert_eq!(strings(&["known"]), deps);
    push_candidate("Std".to_string(), &mut deps);
    push_candidate("".to_string(), &mut deps);
    assert_eq!(strings(&["known", "Std", ""]), deps);
}

#[test]
fn candidates_of_one_file_are_filtered_by_its_modules() {
    let items = parse_file("use a;\nuse b;\nmod a {}\nuse c;\nmod d;\n").unwrap();
    assert_eq!(strings(&["b", "c"]), candidates_of(items));
    assert_eq!(
        strings(&["x", "z"]),
        retain_outside(strings(&["x", "y", "z", "y"]), &strings(&["y", "q"]))
    );
}

#[test]
fn merge_skips_names_that_are_there() {
    let mut deps = strings(&["a", "b"]);
    merge_candidates(&mut deps, strings(&["b", "c", "a", "d", "c"]));
    assert_eq!(strings(&["a", "b", "c", "d"]), deps);
}

#[test]
fn remove_package_takes_out_every_match() {
    let mut deps = strings(&["x", "a-b", "y", "a_b"]);
    remove_package(&mut deps, "a_b");
    assert_eq!(strings(&["x", "y"]), deps);
    remove_package(&mut deps, "absent");
    assert_eq!(strings(&["x", "y"]), deps);
    remove_package(&mut deps, "x");
    remove_package(&mut deps, "y");
    assert!(deps.is_empty());
}

#[test]
fn override_leaves_no_line_for_its_package() {
    let tree = vec![use_name("a_b"), use_name("c"), use_name("a-b")];
    let files = [File::new("main", "//# a-b = \"1\"\n")];
    assert_eq!(
        "a-b = \"1\"\nc = \"*\"",
        infer_from_trees(&files, vec![Some(tree)])
    );
}

#[test]
fn manifest_lines_and_text() {
    let mut m = Manifest::new(strings(&["a", "b", "c"]));
    m.apply("b = \"2\"");
    m.apply("plain");
    m.apply("c-x = 1");
    assert_eq!(strings(&["c-x = 1", "plain", "b = \"2\""]), m.overrides);
    assert_eq!(strings(&["a", "c"]), m.inferred);
    assert_eq!(
        strings(&["c-x = 1", "plain", "b = \"2\"", "a = \"*\"", "c = \"*\""]),
        m.lines()
    );
    assert_eq!(
        "c-x = 1\nplain\nb = \"2\"\na = \"*\"\nc = \"*\"",
        m.render()
    );
    m.apply_file("//# a=0\n//# z\nuse q;\n//# c = 1\n");
    assert_eq!("z\na=0\nc-x = 1\nplain\nb = \"2\"\nc = \"*\"", m.render());
}

#[test]
fn join_lines_puts_breaks_between_lines() {
    assert_eq!("", join_lines(&vec![]));
    assert_eq!("one", join_lines(&strings(&["one"])));
    assert_eq!("one\n\nthree", join_lines(&strings(&["one", "", "three"])));
    assert_eq!("", join_lines(&strings(&[""])));
    assert_eq!("\n", join_lines(&strings(&["", ""])));
}

#[test]
fn parse_failure_carries_message_and_place() {
    let error = parse_file("fn main() {\n    let = 1;\n}\n").unwrap_err();
    assert!(!error.message.is_empty());
    assert_eq!(2, error.line);
    assert_eq!(8, error.column);
    assert!(parse_file("fn main() {").is_err());
    assert!(parse_file("").unwrap().is_empty());
}

#[test]
fn parsed_tree_has_the_shape_of_the_text() {
    let items = parse_file("use a::b;\nmod m;\nstruct S;\nimpl S { const C: u8 = 0; fn f() { loop {} } }").unwrap();
    assert_eq!(4, items.len());
    assert!(matches!(&items[0], SyntaxItem::Use(ImportPath::Path(name)) if name == "a"));
    assert!(matches!(&items[1], SyntaxItem::Mod(m) if m.ident == "m" && m.content.is_none()));
    assert!(matches!(&items[2], SyntaxItem::Other));
    match &items[3] {
        SyntaxItem::Impl(block) => {
            assert_eq!(2, block.items.len());
            assert!(matches!(&block.items[0], ImplMember::Other));
            match &block.items[1] {
                ImplMember::Method(body) => {
                    assert_eq!(1, body.stmts.len());
                    assert!(matches!(
                        &body.stmts[0],
                        Statement::Expr(Expression::Loop(inner)) if inner.stmts.is_empty()
                    ));
                }
                other => panic!("{:?}", other),
            }
        }
        other => panic!("{:?}", other),
    }
}

#[test]
fn literals_of_every_kind_are_parsed() {
    assert_eq!(
        "after = \"*\"",
        manifest_of("fn f() { let s = c\"abc\"; let r = cr#\"x\"#; use after; }")
    );
    assert!(parse_file("const C: &core::ffi::CStr = c\"text\";").is_ok());
    assert_eq!(
        "a = \"*\"",
        manifest_of("fn f() { let b = (b\"x\", b'y', 'z', \"s\", r\"t\", 1u8, 2.5e3, true); use a; }")
    );
    let text = manifest_of("fn f() { let x = (/*ERROR*/); }\nuse b;");
    assert!(text == "b = \"*\"" || text.is_empty());
}

#[test]
fn statements_of_every_kind_are_walked() {
    assert_eq!(
        "m = \"*\"\nz = \"*\"",
        manifest_of(
            "fn f() { println!(\"x\"); use m; let Some(x) = y else { return; }; vec![1]; use z; }"
        )
    );
    let items = parse_file("fn f() { mac! {} a; b }").unwrap();
    match &items[0] {
        SyntaxItem::Fn(f) => {
            assert_eq!(3, f.block.stmts.len());
            assert!(matches!(&f.block.stmts[0], Statement::Other));
            assert!(matches!(&f.block.stmts[1], Statement::Semi(Expression::Other)));
            assert!(matches!(&f.block.stmts[2], Statement::Expr(Expression::Other)));
        }
        other => panic!("{:?}", other),
    }
}

#[test]
fn place_of_a_failure_counts_from_the_start_of_its_text() {
    for _ in 0..3 {
        assert!(parse_file("fn first() {}\nfn second() {}\n").is_ok());
        let error = parse_file("fn main() {\n    let = 1;\n}\n").unwrap_err();
        assert_eq!(2, error.line);
        assert_eq!(8, error.column);
    }
}

#[test]
fn odd_texts_are_parsed_or_rejected() {
    let texts = [
        "\u{feff}use a;",
        "#!/usr/bin/env run\nuse a;",
        "#![feature(x)]\nuse a;",
        "#!",
        "fn f<'a>(x: &'a str) -> &'a str { 'l: loop { break 'l; } }",
        "fn f() { let r#try = r#\"raw\"#; let x = br##\"b\"##; }",
        "fn f() { let c = c\"a\\0b\"; let d = cr\"x\"; let e = c\"\"; }",
        "fn f() { let x = (/*ERROR*/); }",
        "fn f() { let x = ( /*ERROR*/ ); let y = (/* ERROR */); let z = (/*error*/); }",
        "fn f() { 1__; 0x; 0b2; 1e; 1e+; 1.0e10f64; 0xffu8; 1_000usize; 9999999999999999999999999; }",
        "fn f() { '\\u{110000}'; '\\x80'; b'\\xff'; \"\\q\"; '' }",
        "fn f() { 'a; ' ; '\\'' }",
        "fn f() { \"unterminated }",
        "fn f() { /* unterminated",
        "fn f() { /* /* nested */ */ }",
        "fn f() { c }\nfn g() { c\" }",
        "fn \u{e9}t\u{e9}() { use \u{4e2d}\u{6587}; }",
        "fn f() { \u{200b} }",
        "fn f() { \u{1f600} }",
        "use a::{b, c::{d, e as f, *}, self};",
        "use ::a; use r#b; use crate::{self};",
        "mod m { mod n { mod o; } }",
        "impl<T> Tr for S<T> where T: X { type A = u8; const B: u8 = 0; fn f(&self) {} mac!(); }",
        "fn f() { const { use a; }; async move { use b; }.await; unsafe { use c; } }",
        "fn f() { if let Some(x) = y && z {} else if w {} else {} }",
        "fn f() { match x { A | B if c => {}, _ => (), } }",
        "fn f() { try { 1 }; for await x in y {} }",
        "fn f() { a.b::<C>().d?.e[f](g) as H..=i }",
        "fn f() -> impl Fn() { || || || {} }",
        "macro_rules! m { ($x:expr) => { $x }; }",
        "}{",
        ")(",
        "][",
        "fn f() { ( }",
        "\\",
        "@",
        "$",
        "#",
        "`",
        "~",
        "?",
        "'",
        "\"",
        "c\"",
        "cr#\"",
        "b'",
        "r#",
        "/",
        "//",
        "/**/",
        "/*!",
        "\r\n\r\n",
        "\0",
        "fn f() { let x: [u8; { use a; 1 }] = [0]; }",
        "fn f() { struct S; impl S { fn g() { use a; } } trait T { fn h() { use b; } } }",
        "extern \"C\" { fn f(); }\nunsafe extern \"C\" { safe fn g(); }",
        "pub(in crate::a) default unsafe impl !Send for S {}",
        "fn f() { let _ = &raw const x; let _ = builtin # offset_of(A, b); }",
        "fn f() { -1; - 1; -1.0; -0x1; --1; }",
    ];
    for text in texts {
        let parsed = parse_file(text);
        let manifest = manifest_of(text);
        if parsed.is_err() {
            assert_eq!("", manifest, "{:?}", text);
        }
    }
}
