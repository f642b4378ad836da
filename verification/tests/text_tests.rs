use prism_console::llm_client::{
    authorization, chat_completions_url, embeddings_url, endpoint_url, models_url,
};
use prism_console::rewriter::alias::AliasMap;
use prism_console::rewriter::python::{
    extract_module_from_from_import, extract_names_from_bulk_import, extract_router_ref,
};
use prism_console::rewriter::vue3::{
    collect_brace_block, extract_import_call_path, extract_quoted_string, extract_vue3_module_name,
    is_route_object_start, parse_lazy_const_import, parse_static_import, to_vue3_import_prefix,
};
use prism_console::text::{
    decimal, find, find_char, from_chars, is_comment_line, is_whitespace, join, lines, replace,
    replace_char, rfind_char, split_char, to_chars, trim, trim_end, trim_end_matches, trim_start,
    zero_padded,
};

fn chars(s: &str) -> Vec<char> {
    s.chars().collect()
}

fn text(v: &Vec<char>) -> String {
    v.iter().collect()
}

fn texts(v: &Vec<Vec<char>>) -> Vec<String> {
    v.iter().map(text).collect()
}

const SAMPLES: [&str; 18] = [
    "",
    " ",
    "a",
    "  a  ",
    "\t a b \r\n",
    "\r",
    "\n",
    "\n\n",
    "a\nb",
    "a\r\nb\r\n",
    "a\rb",
    "a\n\rb\r",
    "\u{a0}x\u{3000}",
    "\u{2003}\u{85}y\u{1680}\u{2028}",
    "x\u{200b}",
    "from a import b, c as d",
    "客户 名称\n不能为空",
    "a,,b,",
];

#[test]
fn test_url_trailing_slash_handling() {
    let base = "http://localhost:11434/v1/";
    let url = models_url(base);
    assert_eq!(url, "http://localhost:11434/v1/models");

    let base2 = "http://localhost:11434/v1";
    let url2 = models_url(base2);
    assert_eq!(url2, "http://localhost:11434/v1/models");
}

#[test]
fn addresses_and_authorisation() {
    assert_eq!(chat_completions_url("http://h/v1//"), "http://h/v1/chat/completions");
    assert_eq!(embeddings_url("http://h"), "http://h/embeddings");
    assert_eq!(endpoint_url("", "x"), "/x");
    assert_eq!(endpoint_url("///", "x"), "/x");
    assert_eq!(authorization(""), None);
    assert_eq!(authorization("sk"), Some("Bearer sk".to_string()));
}

#[test]
fn white_space_is_what_the_standard_says() {
    for code in 0..=0x10ffffu32 {
        if let Some(c) = char::from_u32(code) {
            assert_eq!(is_whitespace(c), c.is_whitespace(), "U+{:04X}", code);
        }
    }
}

#[test]
fn conversions_keep_the_characters() {
    for s in SAMPLES {
        assert_eq!(to_chars(s), chars(s));
        assert_eq!(from_chars(&chars(s)), s);
    }
}

#[test]
fn trimming_is_that_of_strings() {
    for s in SAMPLES {
        assert_eq!(text(&trim(&chars(s))), s.trim(), "{:?}", s);
        assert_eq!(text(&trim_start(&chars(s))), s.trim_start(), "{:?}", s);
        assert_eq!(text(&trim_end(&chars(s))), s.trim_end(), "{:?}", s);
    }
}

#[test]
fn lines_are_those_of_strings() {
    for s in SAMPLES {
        let expected: Vec<String> = s.lines().map(|l| l.to_string()).collect();
        assert_eq!(texts(&lines(&chars(s))), expected, "{:?}", s);
    }
    assert_eq!(texts(&lines(&chars("a\r\n\r\nb\r"))), vec!["a", "", "b\r"]);
}

#[test]
fn splitting_and_joining_are_those_of_strings() {
    for s in SAMPLES {
        for sep in [',', '\n', ' ', '/'] {
            let expected: Vec<String> = s.split(sep).map(|l| l.to_string()).collect();
            let parts = split_char(&chars(s), sep);
            assert_eq!(texts(&parts), expected, "{:?}", s);
            assert_eq!(text(&join(&parts, &vec![sep])), s);
            assert_eq!(text(&join(&parts, &chars(", "))), expected.join(", "));
        }
    }
    assert_eq!(text(&join(&vec![], &chars(","))), "");
    assert_eq!(text(&join(&vec![chars("")], &chars(","))), "");
    assert_eq!(text(&join(&vec![chars(""), chars("")], &chars(","))), ",");
}

#[test]
fn searching_is_that_of_strings() {
    let pats = ["", "a", " as ", "b", "\n", ",,", "名称", "import", "x"];
    for s in SAMPLES {
        let v = chars(s);
        for p in pats {
            let expected = s.find(p).map(|byte| s[..byte].chars().count());
            assert_eq!(find(&v, &chars(p)), expected, "{:?} in {:?}", p, s);
        }
        for c in ['a', ',', '\n', '称', ' '] {
            assert_eq!(find_char(&v, c), s.find(c).map(|b| s[..b].chars().count()));
            assert_eq!(rfind_char(&v, c), s.rfind(c).map(|b| s[..b].chars().count()));
        }
    }
}

#[test]
fn replacing_is_that_of_strings() {
    for s in SAMPLES {
        assert_eq!(text(&replace_char(&chars(s), ',', '.')), s.replace(',', "."));
        assert_eq!(text(&replace_char(&chars(s), 'a', 'a')), s);
        for (p, w) in [("a", "bb"), (",", ""), ("a,", "{a,}"), (" ", "  "), ("\r\n", "\n")] {
            assert_eq!(text(&replace(&chars(s), p, &chars(w))), s.replace(p, w), "{:?}", s);
        }
        assert_eq!(text(&replace(&chars(s), "", &chars("x"))), s);
    }
    assert_eq!(text(&replace(&chars("aaa"), "aa", &chars("b"))), "ba");
    assert_eq!(
        text(&replace(&chars("x{modules_dir}y{modules_dir}"), "{modules_dir}", &chars("src/views"))),
        "xsrc/viewsysrc/views"
    );
}

#[test]
fn trailing_matches_are_all_removed() {
    for (s, p) in [
        ("auth_router", "_router"),
        ("auth_router_router", "_router"),
        ("_router", "_router"),
        ("router", "_router"),
        ("a///", "/"),
        ("///", "/"),
        ("", "/"),
        ("abab", "ab"),
        ("aba", "ab"),
        ("index.vue.vue", ".vue"),
    ] {
        assert_eq!(text(&trim_end_matches(&chars(s), p)), s.trim_end_matches(p), "{:?}", s);
    }
    assert_eq!(text(&trim_end_matches(&chars("abc"), "")), "abc");
}

#[test]
fn comment_lines_begin_with_a_hash_or_two_slashes() {
    for s in ["#", "# x", "//", "// x", "#!/bin/sh", "///"] {
        assert!(is_comment_line(&chars(s)), "{:?}", s);
    }
    for s in ["", "/", "/ /", " #", "a # b", "/*", "*", "import x // y"] {
        assert!(!is_comment_line(&chars(s)), "{:?}", s);
    }
}

#[test]
fn numbers_are_written_in_decimal() {
    for n in [0u64, 1, 9, 10, 11, 99, 100, 12345, u32::MAX as u64, u64::MAX] {
        assert_eq!(text(&decimal(n)), n.to_string());
        assert_eq!(text(&zero_padded(n, 0)), n.to_string());
        assert_eq!(text(&zero_padded(n, 2)), format!("{:02}", n));
        assert_eq!(text(&zero_padded(n, 4)), format!("{:04}", n));
        assert_eq!(text(&zero_padded(n, 25)), format!("{:025}", n));
    }
}

#[test]
fn an_alias_map_keeps_the_latest_binding() {
    let mut m = AliasMap::new();
    assert_eq!(m.get(&chars("a")), None);
    assert!(!m.contains_key(&chars("a")));
    m.insert(chars("a"), chars("x"));
    m.insert(chars("b"), chars("y"));
    assert_eq!(m.get(&chars("a")), Some(chars("x")));
    assert_eq!(m.get(&chars("b")), Some(chars("y")));
    m.insert(chars("a"), chars("z"));
    assert_eq!(m.get(&chars("a")), Some(chars("z")));
    assert_eq!(m.get(&chars("b")), Some(chars("y")));
    assert_eq!(m.get(&chars("")), None);
    assert!(m.contains_key(&chars("b")));
}

#[test]
fn python_imports_are_read() {
    let p = chars("modules");
    let module = |l: &str| extract_module_from_from_import(&chars(l), &p).map(|m| text(&m));
    assert_eq!(module("from modules.auth.routes import router"), Some("auth".to_string()));
    assert_eq!(module("from modules.users import models"), Some("users".to_string()));
    assert_eq!(module("from   modules.users   import models"), Some("users".to_string()));
    assert_eq!(module("from fastapi import FastAPI"), None);
    assert_eq!(module("from modules import auth"), None);
    assert_eq!(module("from modules. import auth"), None);
    assert_eq!(module("from modules..x import auth"), None);
    assert_eq!(module("from modulesx.auth import a"), None);
    assert_eq!(module("from modules.auth import"), None);
    assert_eq!(module("import modules.auth"), None);
    assert_eq!(module(" from modules.auth import a"), None);
    let dotted = chars("src.views");
    assert_eq!(
        extract_module_from_from_import(&chars("from src.views.home.x import y"), &dotted),
        Some(chars("home"))
    );

    let bulk = |l: &str| extract_names_from_bulk_import(&chars(l), &p).map(|n| texts(&n));
    assert_eq!(bulk("from modules import auth, users"), Some(vec!["auth".to_string(), "users".to_string()]));
    assert_eq!(bulk("from modules import auth as a, , users as u,"), Some(vec!["auth".to_string(), "users".to_string()]));
    assert_eq!(bulk("from modules import "), None);
    assert_eq!(bulk("from modules import ,"), None);
    assert_eq!(bulk("from modules  import a"), None);
    assert_eq!(bulk("from modules.x import a"), None);

    let router = |l: &str| extract_router_ref(&chars(l)).map(|m| text(&m));
    assert_eq!(router("app.include_router(auth_router)"), Some("auth_router".to_string()));
    assert_eq!(router("app.include_router( a.b , prefix='/x')"), Some("a.b".to_string()));
    assert_eq!(router("app.include_router(a"), Some("a".to_string()));
    assert_eq!(router("app.include_router()"), None);
    assert_eq!(router("app.include_router(  , x)"), None);
    assert_eq!(router("app.include(x)"), None);
}

#[test]
fn vue3_imports_are_read() {
    assert_eq!(text(&to_vue3_import_prefix(&chars("src/views"))), "@/views");
    assert_eq!(text(&to_vue3_import_prefix(&chars("views"))), "@/views");
    assert_eq!(text(&to_vue3_import_prefix(&chars("src/pages"))), "@/pages");
    assert_eq!(text(&to_vue3_import_prefix(&chars("src/"))), "@/");
    let p = chars("@/views");
    let module = |l: &str| extract_vue3_module_name(&chars(l), &p).map(|m| text(&m));
    assert_eq!(module("@/views/dashboard/index.vue"), Some("dashboard".to_string()));
    assert_eq!(module("@/views/system/user/index.vue"), Some("system".to_string()));
    assert_eq!(module("@/components/Button.vue"), None);
    assert_eq!(module("../views/login/index.vue"), None);
    assert_eq!(module("@/views/Home.vue"), Some("Home".to_string()));
    assert_eq!(module("@/views/Home.vue.ts.ts"), Some("Home.vue".to_string()));
    assert_eq!(module("@/views/.vue"), None);
    assert_eq!(module("@/views"), None);
    assert_eq!(module("@/views/"), None);
    assert_eq!(module("@/views//x"), None);
    assert_eq!(module("@/viewsx/a/b"), None);

    let quoted = |l: &str| extract_quoted_string(&chars(l)).map(|m| text(&m));
    assert_eq!(quoted(" 'a' ;"), None);
    assert_eq!(quoted(" 'a';; "), Some("a".to_string()));
    assert_eq!(quoted("\"a'b\""), Some("a'b".to_string()));
    assert_eq!(quoted("''"), Some("".to_string()));
    assert_eq!(quoted("'"), None);
    assert_eq!(quoted("\""), None);
    assert_eq!(quoted("'a\""), None);
    assert_eq!(quoted("a"), None);
    assert_eq!(quoted(""), None);

    let call = |l: &str| extract_import_call_path(&chars(l)).map(|m| text(&m));
    assert_eq!(call("component: () => import('@/views/a/b.vue'),"), Some("@/views/a/b.vue".to_string()));
    assert_eq!(call("import( \"x\" ) import('y')"), Some("x".to_string()));
    assert_eq!(call("import('x'"), None);
    assert_eq!(call("import(x)"), None);
    assert_eq!(call("import 'x'"), None);

    let pair = |r: Option<(Vec<char>, Vec<char>)>| r.map(|(a, b)| (text(&a), text(&b)));
    let stat = |l: &str| pair(parse_static_import(&chars(l), &p));
    assert_eq!(
        stat("import DashboardView from '@/views/dashboard/index.vue'"),
        Some(("DashboardView".to_string(), "dashboard".to_string()))
    );
    assert_eq!(
        stat("import   A   from   \"@/views/a/index.vue\";"),
        Some(("A".to_string(), "a".to_string()))
    );
    assert_eq!(stat("import { A } from '@/views/a/index.vue'"), None);
    assert_eq!(stat("import type A from '@/views/a/index.vue'"), None);
    assert_eq!(stat("import A from '@/components/a.vue'"), None);
    assert_eq!(stat("import A from @/views/a/index.vue"), None);
    assert_eq!(stat("import '@/views/a/index.vue'"), None);
    assert_eq!(stat("const A = 1"), None);

    let lazy = |l: &str| pair(parse_lazy_const_import(&chars(l), &p));
    assert_eq!(
        lazy("const DashboardView = () => import('@/views/dashboard/index.vue')"),
        Some(("DashboardView".to_string(), "dashboard".to_string()))
    );
    assert_eq!(lazy("const A = 1"), None);
    assert_eq!(lazy("const A import('@/views/a/index.vue')"), None);
    assert_eq!(lazy("const A = () => import('@/other/a/index.vue')"), None);
    assert_eq!(lazy("let A = () => import('@/views/a/index.vue')"), None);
}

#[test]
fn route_objects_are_recognised() {
    for l in ["{", "{ }", "{}", "{  path: '/'", "{name : 'x',", "{ component: A }", "{redirect:", "{ children: [", "{ meta : {} }"] {
        assert!(is_route_object_start(&chars(l)), "{:?}", l);
    }
    for l in ["", "[", "{ createRouter } = x", "{ paths: 1 }", "{ path  : 1 }", "x {", "{ }}", "{ title: 'x' }"] {
        assert!(!is_route_object_start(&chars(l)), "{:?}", l);
    }
}

#[test]
fn brace_blocks_end_where_the_braces_close() {
    let ls: Vec<Vec<char>> =
        ["{", "  a: {", "  },", "}", "{ b }", "}{", "{{", "}", "x"].iter().map(|l| chars(l)).collect();
    assert_eq!(collect_brace_block(&ls, 0), 3);
    assert_eq!(collect_brace_block(&ls, 1), 2);
    assert_eq!(collect_brace_block(&ls, 2), 2);
    assert_eq!(collect_brace_block(&ls, 4), 4);
    assert_eq!(collect_brace_block(&ls, 5), 5);
    assert_eq!(collect_brace_block(&ls, 6), 8);
    assert_eq!(collect_brace_block(&ls, 8), 8);
}
