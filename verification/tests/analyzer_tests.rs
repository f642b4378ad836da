use prism_console::analyzer::{
    extract_dependencies, is_code_file, normalize_path, resolve_js_import, resolve_py_absolute_import,
    resolve_py_import, SourceFile,
};
use prism_console::models::DependencyEdge;

fn source(path: &str, content: &str) -> SourceFile {
    SourceFile { relative_path: path.to_string(), content: content.to_string() }
}

fn paths(list: &[&str]) -> Vec<String> {
    list.iter().map(|s| s.to_string()).collect()
}

fn chars(s: &str) -> Vec<char> {
    s.chars().collect()
}

fn char_lists(list: &[&str]) -> Vec<Vec<char>> {
    list.iter().map(|s| chars(s)).collect()
}

fn edge(source: &str, target: &str) -> DependencyEdge {
    DependencyEdge { source: source.to_string(), target: target.to_string() }
}

#[test]
fn test_normalize_path() {
    assert_eq!(normalize_path("src/./utils/../store.ts"), "src/store.ts");
    assert_eq!(normalize_path("./components/Button"), "components/Button");
    assert_eq!(normalize_path("a/b/../../c"), "c");
}

#[test]
fn normalize_path_edge_cases() {
    assert_eq!(normalize_path(""), "");
    assert_eq!(normalize_path("../a"), "a");
    assert_eq!(normalize_path("a//b/"), "a/b");
    assert_eq!(normalize_path("a/.."), "");
}

#[test]
fn test_extract_js_import_relative() {
    let sources = vec![
        source(
            "src/App.tsx",
            "import { Button } from './components/Button';\nimport React from 'react';\n",
        ),
        source("src/components/Button.tsx", "export function Button() {}"),
    ];
    let file_paths = paths(&["src/App.tsx", "src/components/Button.tsx"]);
    let edges = extract_dependencies(&sources, &file_paths).unwrap();
    assert_eq!(edges.len(), 1);
    assert_eq!(edges[0].source, "src/App.tsx");
    assert_eq!(edges[0].target, "src/components/Button.tsx");
}

#[test]
fn test_extract_js_import_ignores_packages() {
    let sources = vec![source(
        "index.ts",
        "import React from 'react';\nimport { toast } from 'sonner';\n",
    )];
    let file_paths = paths(&["index.ts"]);
    let edges = extract_dependencies(&sources, &file_paths).unwrap();
    assert!(edges.is_empty());
}

#[test]
fn test_extract_js_import_parent_dir() {
    let sources = vec![
        source("src/pages/Home.tsx", "import { store } from '../store';\n"),
        source("src/store.ts", "export const store = {};"),
    ];
    let file_paths = paths(&["src/pages/Home.tsx", "src/store.ts"]);
    let edges = extract_dependencies(&sources, &file_paths).unwrap();
    assert_eq!(edges.len(), 1);
    assert_eq!(edges[0].target, "src/store.ts");
}

#[test]
fn test_extract_js_import_index_resolution() {
    let sources = vec![
        source("src/App.tsx", "import { Foo } from './components';\n"),
        source("src/components/index.ts", "export const Foo = 1;"),
    ];
    let file_paths = paths(&["src/App.tsx", "src/components/index.ts"]);
    let edges = extract_dependencies(&sources, &file_paths).unwrap();
    assert_eq!(edges.len(), 1);
    assert_eq!(edges[0].target, "src/components/index.ts");
}

#[test]
fn extract_js_require_is_an_import() {
    let sources = vec![source("lib/a.js", "const b = require('./b');\n")];
    let file_paths = paths(&["lib/a.js", "lib/b.js"]);
    let edges = extract_dependencies(&sources, &file_paths).unwrap();
    assert_eq!(edges, vec![edge("lib/a.js", "lib/b.js")]);
}

#[test]
fn test_extract_python_relative_import() {
    let sources = vec![
        source("app/main.py", "from .utils import helper\n"),
        source("app/utils.py", "def helper(): pass"),
    ];
    let file_paths = paths(&["app/main.py", "app/utils.py"]);
    let edges = extract_dependencies(&sources, &file_paths).unwrap();
    assert_eq!(edges.len(), 1);
    assert_eq!(edges[0].source, "app/main.py");
    assert_eq!(edges[0].target, "app/utils.py");
}

#[test]
fn test_extract_fastapi_project_full() {
    let sources = vec![
        source("api/__init__.py", ""),
        source("api/v1/__init__.py", ""),
        source("api/v1/module_system/__init__.py", ""),
        source("api/v1/module_system/dict/__init__.py", ""),
        source(
            "api/v1/module_system/dict/controller.py",
            "from api.v1.module_system.dict.model import DictModel\nfrom api.v1.module_system.dict.schema import DictCreate\nfrom core.database import get_db\nfrom fastapi import APIRouter\n",
        ),
        source("api/v1/module_system/dict/model.py", "class DictModel: pass"),
        source("api/v1/module_system/dict/schema.py", "class DictCreate: pass"),
        source("api/v1/module_system/user/__init__.py", ""),
        source(
            "api/v1/module_system/user/controller.py",
            "from api.v1.module_system.user.model import UserModel\nimport api.v1.module_system.dict.model\n",
        ),
        source("api/v1/module_system/user/model.py", "class UserModel: pass"),
        source("core/__init__.py", ""),
        source("core/database.py", "def get_db(): pass"),
        source("utils/__init__.py", ""),
        source("utils/string_util.py", "def to_camel(): pass"),
    ];
    let file_paths: Vec<String> = sources.iter().map(|s| s.relative_path.clone()).collect();
    let edges = extract_dependencies(&sources, &file_paths).unwrap();

    let dict_ctrl_deps: Vec<&DependencyEdge> = edges
        .iter()
        .filter(|e| e.source == "api/v1/module_system/dict/controller.py")
        .collect();
    assert!(dict_ctrl_deps.len() >= 2);
    assert_eq!(dict_ctrl_deps.len(), 3);

    let user_ctrl_deps: Vec<&DependencyEdge> = edges
        .iter()
        .filter(|e| e.source == "api/v1/module_system/user/controller.py")
        .collect();
    assert!(user_ctrl_deps.len() >= 2);
    assert!(edges.len() > 0);
}

#[test]
fn test_extract_python_absolute_from_import() {
    let sources = vec![
        source(
            "api/v1/dict/controller.py",
            "from api.v1.dict.model import DictModel\nfrom api.v1.dict.schema import DictSchema\n",
        ),
        source("api/v1/dict/model.py", "class DictModel: pass"),
        source("api/v1/dict/schema.py", "class DictSchema: pass"),
    ];
    let file_paths =
        paths(&["api/v1/dict/controller.py", "api/v1/dict/model.py", "api/v1/dict/schema.py"]);
    let edges = extract_dependencies(&sources, &file_paths).unwrap();
    assert_eq!(edges.len(), 2);
    assert_eq!(edges[0].source, "api/v1/dict/controller.py");
    assert_eq!(edges[0].target, "api/v1/dict/model.py");
    assert_eq!(edges[1].source, "api/v1/dict/controller.py");
    assert_eq!(edges[1].target, "api/v1/dict/schema.py");
}

#[test]
fn test_extract_python_absolute_import_statement() {
    let sources = vec![
        source("api/v1/dict/controller.py", "import api.v1.dict.model\n"),
        source("api/v1/dict/model.py", "class DictModel: pass"),
    ];
    let file_paths = paths(&["api/v1/dict/controller.py", "api/v1/dict/model.py"]);
    let edges = extract_dependencies(&sources, &file_paths).unwrap();
    assert_eq!(edges.len(), 1);
    assert_eq!(edges[0].source, "api/v1/dict/controller.py");
    assert_eq!(edges[0].target, "api/v1/dict/model.py");
}

#[test]
fn test_extract_python_absolute_import_package() {
    let sources = vec![
        source("api/v1/dict/controller.py", "from api.v1.dict import something\n"),
        source("api/v1/dict/__init__.py", "something = 1"),
    ];
    let file_paths = paths(&["api/v1/dict/controller.py", "api/v1/dict/__init__.py"]);
    let edges = extract_dependencies(&sources, &file_paths).unwrap();
    assert_eq!(edges.len(), 1);
    assert_eq!(edges[0].target, "api/v1/dict/__init__.py");
}

#[test]
fn test_extract_python_absolute_import_with_prefix() {
    let sources = vec![
        source(
            "api/v1/module_system/config/controller.py",
            "from app.api.v1.module_system.config.param import ConfigQueryParams\nfrom app.common.request import PaginationService\nfrom app.api.v1.module_system.config.service import ConfigService\nfrom fastapi import APIRouter\n",
        ),
        source("api/v1/module_system/config/param.py", "class ConfigQueryParams: pass"),
        source("api/v1/module_system/config/service.py", "class ConfigService: pass"),
        source("common/request.py", "class PaginationService: pass"),
        source("core/dependencies.py", "pass"),
    ];
    let file_paths = paths(&[
        "api/v1/module_system/config/controller.py",
        "api/v1/module_system/config/param.py",
        "api/v1/module_system/config/service.py",
        "common/request.py",
        "core/dependencies.py",
    ]);
    let edges = extract_dependencies(&sources, &file_paths).unwrap();
    assert!(edges.len() >= 3);
    let targets: Vec<&str> = edges.iter().map(|e| e.target.as_str()).collect();
    assert!(targets.contains(&"api/v1/module_system/config/param.py"));
    assert!(targets.contains(&"api/v1/module_system/config/service.py"));
    assert!(targets.contains(&"common/request.py"));
}

#[test]
fn absolute_import_strips_one_segment_only() {
    let known = char_lists(&["c/d.py"]);
    assert_eq!(resolve_py_absolute_import(&chars("a.b.c.d"), &known), None);
    assert_eq!(resolve_py_absolute_import(&chars("b.c.d"), &known), Some(chars("c/d.py")));
    assert_eq!(resolve_py_absolute_import(&chars("c.d"), &known), Some(chars("c/d.py")));
}

#[test]
fn test_extract_python_absolute_import_ignores_third_party() {
    let sources = vec![source("main.py", "import os\nimport sys\nfrom fastapi import FastAPI\n")];
    let file_paths = paths(&["main.py"]);
    let edges = extract_dependencies(&sources, &file_paths).unwrap();
    assert!(edges.is_empty());
}

#[test]
fn test_extract_skips_comment_lines() {
    let sources = vec![
        source(
            "app/main.py",
            "# from .utils import helper\n// import something\nfrom .utils import helper\n",
        ),
        source("app/utils.py", "def helper(): pass"),
    ];
    let file_paths = paths(&["app/main.py", "app/utils.py"]);
    let edges = extract_dependencies(&sources, &file_paths).unwrap();
    assert_eq!(edges.len(), 1);
    assert_eq!(edges[0].target, "app/utils.py");
}

#[test]
fn indented_comment_makes_no_edge() {
    let sources = vec![source(
        "src/a.ts",
        "   // import { b } from './b'\n\t# import { b } from './b'\nimport { b } from './b'\n",
    )];
    let file_paths = paths(&["src/a.ts", "src/b.ts"]);
    let edges = extract_dependencies(&sources, &file_paths).unwrap();
    assert_eq!(edges, vec![edge("src/a.ts", "src/b.ts")]);
}

#[test]
fn test_extract_skips_non_code_files() {
    let sources = vec![
        source("readme.md", "import something from './foo';\n"),
        source("data.json", "{}"),
    ];
    let file_paths = paths(&["readme.md", "data.json"]);
    let edges = extract_dependencies(&sources, &file_paths).unwrap();
    assert!(edges.is_empty());
}

#[test]
fn repeated_import_makes_one_edge_per_line() {
    let sources = vec![source("a/x.py", "from .y import f\nfrom .y import g\n")];
    let file_paths = paths(&["a/x.py", "a/y.py"]);
    let edges = extract_dependencies(&sources, &file_paths).unwrap();
    assert_eq!(edges, vec![edge("a/x.py", "a/y.py"), edge("a/x.py", "a/y.py")]);
}

#[test]
fn js_import_probes_in_order() {
    let dir = chars("src");
    let known = char_lists(&["src/x/index.ts", "src/x.vue", "src/x.js"]);
    assert_eq!(resolve_js_import(&dir, &chars("./x"), &known), Some(chars("src/x.js")));
    let known = char_lists(&["src/x/index.ts", "src/x.vue", "src/x.js", "src/x"]);
    assert_eq!(resolve_js_import(&dir, &chars("./x"), &known), Some(chars("src/x")));
    let known = char_lists(&["src/x/index.jsx", "src/x/index.tsx"]);
    assert_eq!(resolve_js_import(&dir, &chars("./x"), &known), Some(chars("src/x/index.tsx")));
    assert_eq!(resolve_js_import(&dir, &chars("./y"), &known), None);
    assert_eq!(
        resolve_js_import(&chars(""), &chars("./x/index.jsx"), &known),
        None
    );
    assert_eq!(
        resolve_js_import(&chars(""), &chars("./src/x/index.jsx"), &known),
        Some(chars("src/x/index.jsx"))
    );
}

#[test]
fn relative_python_import_climbs_one_folder_per_extra_dot() {
    let known = char_lists(&["a/b/m.py", "a/m.py", "m/__init__.py", "a/b/c/m/__init__.py"]);
    let dir = chars("a/b/c");
    assert_eq!(resolve_py_import(&dir, &chars(".m"), &known), Some(chars("a/b/c/m/__init__.py")));
    assert_eq!(resolve_py_import(&dir, &chars("..m"), &known), Some(chars("a/b/m.py")));
    assert_eq!(resolve_py_import(&dir, &chars("...m"), &known), Some(chars("a/m.py")));
    assert_eq!(resolve_py_import(&dir, &chars("....m"), &known), Some(chars("m/__init__.py")));
    assert_eq!(resolve_py_import(&dir, &chars(".....m"), &known), Some(chars("m/__init__.py")));
    assert_eq!(resolve_py_import(&dir, &chars(".x.y"), &known), None);
}

#[test]
fn code_files_go_by_their_ending() {
    for name in ["a.ts", "a.tsx", "a.js", "a.jsx", "a.mjs", "a.cjs", "a.py", "a.rs", "a.vue", "a.svelte"] {
        assert!(is_code_file(&chars(name)), "{}", name);
    }
    for name in ["a.md", "a.json", "ts", "a.pyc", "a.TS", ""] {
        assert!(!is_code_file(&chars(name)), "{}", name);
    }
}

#[test]
fn one_line_makes_no_edge_twice() {
    let sources = vec![source("a.js", "import x from './x.py'\n")];
    let file_paths = paths(&["a.js", "x.py"]);
    let edges = extract_dependencies(&sources, &file_paths).unwrap();
    assert_eq!(edges, vec![edge("a.js", "x.py")]);
    let sources = vec![source("a.js", "import x from './y'\n")];
    let file_paths = paths(&["a.js", "x.py", "y.js"]);
    let edges = extract_dependencies(&sources, &file_paths).unwrap();
    assert_eq!(edges, vec![edge("a.js", "y.js"), edge("a.js", "x.py")]);
}

#[test]
fn every_edge_leads_to_a_known_file() {
    let sources = vec![
        source("pkg/a.py", "from .b import x\nfrom .c import y\nimport pkg.d\nimport os\n"),
        source("web/a.ts", "import b from './b'\nimport c from '../c'\nconst d = require('./d')\n"),
    ];
    let file_paths = paths(&["pkg/a.py", "pkg/b.py", "pkg/d/__init__.py", "web/a.ts", "web/b.vue", "web/d/index.js"]);
    let edges = extract_dependencies(&sources, &file_paths).unwrap();
    assert_eq!(
        edges,
        vec![
            edge("pkg/a.py", "pkg/b.py"),
            edge("pkg/a.py", "pkg/d/__init__.py"),
            edge("web/a.ts", "web/b.vue"),
            edge("web/a.ts", "web/d/index.js"),
        ]
    );
    for e in &edges {
        assert!(file_paths.contains(&e.target));
    }
}
