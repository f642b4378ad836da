use prism_console::error::AppError;
use prism_console::rewriter::generic::rewrite_generic_imports;
use prism_console::rewriter::python::{rewrite_python_imports, validate_python_imports};
use prism_console::rewriter::vue3::{rewrite_vue3_router, validate_vue3_imports};
use prism_console::rewriter::{
    get_generic_rewriter, get_rewriter, process_entry_file, validate_entry_file,
    FastApiImportRewriter, ImportRewriter, Vue3ImportRewriter,
};

fn names(list: &[&str]) -> Vec<String> {
    list.iter().map(|s| s.to_string()).collect()
}

#[test]
fn test_process_entry_file_missing_file() {
    let rewriter = FastApiImportRewriter;
    let result = process_entry_file(&rewriter, None, &[], "modules");
    assert!(result.is_none());
}

#[test]
fn test_process_entry_file_normal_rewrite() {
    let rewriter = FastApiImportRewriter;
    let selected = names(&["auth"]);
    let content = "from modules.auth.routes import router as auth_router\n\
                   from modules.users.routes import router as users_router\n\
                   app.include_router(auth_router)\n\
                   app.include_router(users_router)\n";
    let result = process_entry_file(&rewriter, Some(content), &selected, "modules").unwrap();
    assert!(result.contains("auth_router"));
    assert!(!result.contains("users_router"));
    assert_eq!(
        result,
        "from modules.auth.routes import router as auth_router\napp.include_router(auth_router)"
    );
}

#[test]
fn test_vue3_process_entry_file_integration() {
    let content = "import DashboardView from '@/views/dashboard/index.vue'\n\
                   import LoginView from '@/views/login/index.vue'\n\
                   \n\
                   const routes = [\n\
                   {\n\
                   path: '/dashboard',\n\
                   component: DashboardView,\n\
                   },\n\
                   {\n\
                   path: '/login',\n\
                   component: LoginView,\n\
                   },\n\
                   ]\n";
    let rewriter = Vue3ImportRewriter;
    let selected = names(&["dashboard"]);
    let result = process_entry_file(&rewriter, Some(content), &selected, "src/views").unwrap();
    assert!(result.contains("DashboardView"));
    assert!(!result.contains("LoginView"));
    assert!(result.contains("'/dashboard'"));
    assert!(!result.contains("'/login'"));
}

#[test]
fn test_validate_python_imports_all_exist() {
    let content = "from modules.auth.routes import router as auth_router\n\
                   from modules.users import models\n";
    let missing = validate_python_imports(content, &names(&["auth", "users"]), "modules");
    assert!(missing.is_empty());
}

#[test]
fn test_validate_python_imports_missing_module() {
    let content = "from modules.auth.routes import router\n\
                   from modules.users import models\n";
    let missing = validate_python_imports(content, &names(&["auth"]), "modules");
    assert_eq!(missing.len(), 1);
    assert_eq!(missing[0], "users");
}

#[test]
fn test_validate_python_bulk_import_missing() {
    let content = "from modules import auth, billing\n";
    let missing = validate_python_imports(content, &names(&["auth"]), "modules");
    assert_eq!(missing.len(), 1);
    assert_eq!(missing[0], "billing");
}

#[test]
fn test_validate_python_no_module_imports() {
    let content = "from fastapi import FastAPI\nimport uvicorn\n";
    let missing = validate_python_imports(content, &[], "modules");
    assert!(missing.is_empty());
}

#[test]
fn test_validate_vue3_imports_all_exist() {
    let content = "import DashboardView from '@/views/dashboard/index.vue'\n\
                   import LoginView from '@/views/login/index.vue'\n";
    let missing = validate_vue3_imports(content, &names(&["dashboard", "login"]), "src/views");
    assert!(missing.is_empty());
}

#[test]
fn test_validate_vue3_imports_missing_module() {
    let content = "import DashboardView from '@/views/dashboard/index.vue'\n\
                   import SettingsView from '@/views/settings/index.vue'\n";
    let missing = validate_vue3_imports(content, &names(&["dashboard"]), "src/views");
    assert_eq!(missing.len(), 1);
    assert_eq!(missing[0], "settings");
}

#[test]
fn test_validate_vue3_dynamic_import_missing() {
    let content = "const DashboardView = () => import('@/views/dashboard/index.vue')\n\
                   const AdminView = () => import('@/views/admin/index.vue')\n";
    let missing = validate_vue3_imports(content, &names(&["dashboard"]), "src/views");
    assert_eq!(missing.len(), 1);
    assert_eq!(missing[0], "admin");
}

#[test]
fn test_validate_vue3_no_module_imports() {
    let content = "import { createRouter } from 'vue-router'\n";
    let missing = validate_vue3_imports(content, &[], "src/views");
    assert!(missing.is_empty());
}

#[test]
fn test_validate_entry_file_missing_file_skips() {
    let rewriter = FastApiImportRewriter;
    let result = validate_entry_file(&rewriter, None, &[], "modules");
    assert!(result.is_ok());
}

#[test]
fn test_validate_entry_file_returns_error_on_missing_module() {
    let rewriter = FastApiImportRewriter;
    let content = "from modules.auth.routes import router\nfrom modules.ghost import api\n";
    let result = validate_entry_file(&rewriter, Some(content), &names(&["auth"]), "modules");
    assert!(result.is_err());
    let err_msg = result.unwrap_err().message();
    assert!(err_msg.contains("modules/ghost"));
    assert_eq!(
        err_msg,
        "构建失败：导入完整性校验失败：以下模块在构建目录中不存在 → modules/ghost"
    );
}

#[test]
fn the_validator_names_exactly_the_missing_module() {
    let rewritten = "from fastapi import FastAPI\n\
                     from modules.auth.routes import router as auth_router\n\
                     from modules.ghost.routes import router as ghost_router\n\
                     from modules.ghost import models\n\
                     app.include_router(auth_router)\n";
    let missing = validate_python_imports(rewritten, &names(&["auth", "users"]), "modules");
    assert_eq!(missing, names(&["ghost"]));
    let rewriter = get_rewriter("fastapi").unwrap();
    assert_eq!(rewriter.validate(rewritten, &names(&["auth", "users"]), "modules"), missing);
    assert_eq!(
        validate_entry_file(rewriter.as_ref(), Some(rewritten), &names(&["auth"]), "modules"),
        Err(AppError::BuildError(
            "导入完整性校验失败：以下模块在构建目录中不存在 → modules/ghost".to_string()
        ))
    );
    assert_eq!(
        validate_entry_file(rewriter.as_ref(), Some(rewritten), &names(&["ghost", "auth"]), "modules"),
        Ok(())
    );
}

#[test]
fn missing_modules_come_once_and_in_order() {
    let content = "from modules import b, a, b\nfrom modules.c.x import y\nfrom modules.a import z\n";
    assert_eq!(
        validate_python_imports(content, &[], "modules"),
        names(&["b", "a", "c"])
    );
    assert_eq!(validate_python_imports(content, &names(&["a"]), "modules"), names(&["b", "c"]));
    let content = "import A from '@/pages/a/A.vue'\n{ path: '/b', component: () => import('@/pages/b/B.vue') },\nconst C = () => import(\"@/pages/a/C.vue\");\n";
    assert_eq!(
        validate_vue3_imports(content, &[], "src/pages"),
        names(&["a", "b"])
    );
}

#[test]
fn a_commented_import_is_not_checked() {
    let content = "# from modules.ghost import api\n  // from modules.ghost import api\nfrom modules.auth import api\n";
    assert_eq!(validate_python_imports(content, &names(&["auth"]), "modules"), Vec::<String>::new());
    let content = "// import Ghost from '@/views/ghost/index.vue'\n  // component: () => import('@/views/ghost/index.vue')\n";
    assert_eq!(validate_vue3_imports(content, &[], "src/views"), Vec::<String>::new());
}

#[test]
fn alias_resolution_keeps_or_drops_both_lines() {
    let content = "from modules.auth.routes import router as auth_router\napp.include_router(auth_router)";
    assert_eq!(rewrite_python_imports(content, &names(&["auth"]), "modules"), content);
    assert_eq!(rewrite_python_imports(content, &names(&["billing"]), "modules"), "");
    assert_eq!(rewrite_python_imports(content, &[], "modules"), "");
}

#[test]
fn bulk_import_keeps_the_selected_names() {
    let content = "from modules import auth, billing, users";
    assert_eq!(
        rewrite_python_imports(content, &names(&["auth", "users"]), "modules"),
        "from modules import auth, users"
    );
    assert_eq!(rewrite_python_imports(content, &names(&["users", "billing", "auth"]), "modules"), content);
    assert_eq!(rewrite_python_imports(content, &names(&["other"]), "modules"), "");
    assert_eq!(
        rewrite_python_imports("    from modules import auth as a,  billing as b", &names(&["billing"]), "modules"),
        "from modules import billing"
    );
}

#[test]
fn statements_survive_in_their_order() {
    let content = "from modules.a.routes import router as a_router\n\
                   from modules.b.routes import router as b_router\n\
                   from modules.c.routes import router as c_router\n\
                   from modules.d.routes import router as d_router\n\
                   app.include_router(a_router)\n\
                   app.include_router(b_router)\n\
                   app.include_router(c_router)\n\
                   app.include_router(d_router)";
    let lines: Vec<&str> = content.lines().collect();
    let tags = ["a", "b", "c", "d", "a", "b", "c", "d"];
    for mask in 0..16u32 {
        let selected: Vec<String> = ["a", "b", "c", "d"]
            .iter()
            .enumerate()
            .filter(|(i, _)| mask & (1 << i) != 0)
            .map(|(_, m)| m.to_string())
            .collect();
        let expected: Vec<&str> = lines
            .iter()
            .zip(tags.iter())
            .filter(|(_, t)| selected.contains(&t.to_string()))
            .map(|(l, _)| *l)
            .collect();
        assert_eq!(rewrite_python_imports(content, &selected, "modules"), expected.join("\n"));
    }
}

#[test]
fn comment_lines_are_never_rewritten() {
    let content = "# from modules.users.routes import router as users_router\n\
                   from modules.users.routes import router as users_router\n\
                   # app.include_router(users_router)\n\
                   \t// app.include_router(users_router)\n\
                   app.include_router(users_router)\n\
                   # from modules import users, auth";
    assert_eq!(
        rewrite_python_imports(content, &names(&["auth"]), "modules"),
        "# from modules.users.routes import router as users_router\n\
         # app.include_router(users_router)\n\
         \t// app.include_router(users_router)\n\
         # from modules import users, auth"
    );
    let content = "// import LoginView from '@/views/login/index.vue'\n\
                   import LoginView from '@/views/login/index.vue'\n\
                   # const X = () => import('@/views/login/index.vue')\n\
                   const routes = [\n\
                   {\n\
                   // component: () => import('@/views/login/index.vue'),\n\
                   path: '/',\n\
                   },\n\
                   ]";
    assert_eq!(
        rewrite_vue3_router(content, &names(&["home"]), "src/views"),
        "// import LoginView from '@/views/login/index.vue'\n\
         # const X = () => import('@/views/login/index.vue')\n\
         const routes = [\n\
         {\n\
         // component: () => import('@/views/login/index.vue'),\n\
         path: '/',\n\
         },\n\
         ]"
    );
    let content = "// use modules::users;\nuse modules::users;\nuse modules::auth;";
    assert_eq!(
        rewrite_generic_imports(content, &names(&["auth"]), "modules", "use {modules_dir}::(\\w+)"),
        "// use modules::users;\nuse modules::auth;"
    );
}

#[test]
fn a_route_object_goes_only_where_all_its_modules_go() {
    let content = "const routes = [\n\
                   {\n\
                   path: '/admin',\n\
                   children: [\n\
                   { path: 'a', component: () => import('@/views/login/a.vue') },\n\
                   { path: 'b', component: () => import('@/views/dashboard/b.vue') },\n\
                   ],\n\
                   },\n\
                   {\n\
                   path: '/plain',\n\
                   redirect: '/admin',\n\
                   },\n\
                   { path: '/x', component: () => import('@/views/login/x.vue') },\n\
                   ]";
    let kept_all = rewrite_vue3_router(content, &names(&["dashboard"]), "src/views");
    assert_eq!(
        kept_all,
        "const routes = [\n\
         {\n\
         path: '/admin',\n\
         children: [\n\
         { path: 'a', component: () => import('@/views/login/a.vue') },\n\
         { path: 'b', component: () => import('@/views/dashboard/b.vue') },\n\
         ],\n\
         },\n\
         {\n\
         path: '/plain',\n\
         redirect: '/admin',\n\
         },\n\
         ]"
    );
    let none = rewrite_vue3_router(content, &[], "src/views");
    assert_eq!(none, "const routes = [\n{\npath: '/plain',\nredirect: '/admin',\n},\n]");
}

#[test]
fn a_block_that_never_closes_runs_to_the_end() {
    let content = "{\npath: '/a',\ncomponent: () => import('@/views/a/x.vue'),\nafter";
    assert_eq!(rewrite_vue3_router(content, &[], "src/views"), "");
    assert_eq!(rewrite_vue3_router(content, &names(&["a"]), "src/views"), content);
    let content = "{ path: '/a', component: () => import('@/views/a/x.vue') }\nafter";
    assert_eq!(rewrite_vue3_router(content, &[], "src/views"), "after");
}

#[test]
fn a_later_import_shadows_an_earlier_one() {
    let content = "from modules.auth.routes import router as r\n\
                   from modules.users.routes import router as r\n\
                   app.include_router(r)";
    assert_eq!(
        rewrite_python_imports(content, &names(&["auth"]), "modules"),
        "from modules.auth.routes import router as r"
    );
    assert_eq!(
        rewrite_python_imports(content, &names(&["users"]), "modules"),
        "from modules.users.routes import router as r\napp.include_router(r)"
    );
}

#[test]
fn router_names_follow_the_module_by_convention() {
    let content = "from modules import auth, users\n\
                   app.include_router(auth_router, prefix='/a')\n\
                   app.include_router(users_routes)\n\
                   app.include_router(other_router)\n\
                   app.include_router()\n\
                   app.include_router( users.router , tags=['u'])";
    assert_eq!(
        rewrite_python_imports(content, &names(&["auth"]), "modules"),
        "from modules import auth\n\
         app.include_router(auth_router, prefix='/a')\n\
         app.include_router(other_router)\n\
         app.include_router()"
    );
}

#[test]
fn line_endings_are_read_as_lines_and_written_as_line_feeds() {
    assert_eq!(rewrite_python_imports("a\r\nb\r\n", &[], "modules"), "a\nb");
    assert_eq!(rewrite_python_imports("a\n\nb\n", &[], "modules"), "a\n\nb");
    assert_eq!(rewrite_python_imports("\n", &[], "modules"), "");
    assert_eq!(rewrite_python_imports("a\rb\r", &[], "modules"), "a\rb\r");
    assert_eq!(rewrite_vue3_router("a\r\nb\r\n", &[], "src/views"), "a\nb");
}

#[test]
fn the_generic_rewriter_filters_by_the_first_group() {
    let content = "require 'sinatra'\nrequire_relative 'features/auth/app'\nrequire_relative 'features/billing/app'\nrun App";
    let pattern = "require_relative '{modules_dir}/([a-z_]+)/";
    assert_eq!(
        rewrite_generic_imports(content, &names(&["auth"]), "features", pattern),
        "require 'sinatra'\nrequire_relative 'features/auth/app'\nrun App"
    );
    assert_eq!(
        rewrite_generic_imports(content, &names(&["auth"]), "other", pattern),
        content
    );
    assert_eq!(rewrite_generic_imports(content, &names(&["auth"]), "features", "("), content);
    assert_eq!(
        rewrite_generic_imports("a\nb\n", &names(&["auth"]), "features", "("),
        "a\nb\n"
    );
    assert_eq!(
        rewrite_generic_imports(content, &[], "features", "require_relative '(?:{modules_dir})/(x)?"),
        content
    );
    assert_eq!(
        rewrite_generic_imports(content, &[], "features", "require_relative '{modules_dir}/"),
        content
    );
    assert_eq!(
        rewrite_generic_imports("use a::b::x;\nuse a::b::y;", &names(&["y"]), "a::b", "^use {modules_dir}::(\\w+);(?:{modules_dir})?$"),
        "use a::b::y;"
    );
}

#[test]
fn the_generic_rewriter_needs_a_file_and_a_pattern() {
    assert!(get_generic_rewriter("".to_string(), "x".to_string(), "".to_string()).is_none());
    assert!(get_generic_rewriter("app.rb".to_string(), "".to_string(), "y".to_string()).is_none());
    let rewriter = get_generic_rewriter(
        "app.rb".to_string(),
        "require_relative '{modules_dir}/(\\w+)/".to_string(),
        "".to_string(),
    )
    .unwrap();
    assert_eq!(rewriter.entry_file(), "app.rb");
    assert_eq!(
        rewriter.rewrite("require_relative 'f/a/x'\nrequire_relative 'f/b/x'", &names(&["b"]), "f"),
        "require_relative 'f/b/x'"
    );
    assert!(rewriter.validate("require_relative 'f/a/x'", &[], "f").is_empty());
}

#[test]
fn rewriters_know_their_entry_file() {
    assert_eq!(get_rewriter("fastapi").unwrap().entry_file(), "main.py");
    assert_eq!(get_rewriter("vue3").unwrap().entry_file(), "src/router/index.ts");
    assert!(get_rewriter("django").is_none());
    assert!(get_rewriter("").is_none());
    let content = "import A from '@/views/a/A.vue'\nimport B from '@/views/b/B.vue'";
    assert_eq!(
        get_rewriter("vue3").unwrap().rewrite(content, &names(&["b"]), ""),
        content
    );
    assert_eq!(
        get_rewriter("vue3").unwrap().rewrite(content, &names(&["b"]), "views"),
        "import B from '@/views/b/B.vue'"
    );
}

#[test]
fn the_validator_returns_names_and_the_error_shows_folders() {
    let content = "from modules.auth.routes import router\nfrom modules.users import models\n";
    assert_eq!(validate_python_imports(content, &names(&["auth"]), "modules"), names(&["users"]));
    let content = "from src.apps.auth.routes import router\nfrom src.apps import users, auth\n";
    assert_eq!(validate_python_imports(content, &names(&["auth"]), "src/apps"), names(&["users"]));
    let rewriter = get_rewriter("vue3").unwrap();
    let content = "import A from '@/views/a/A.vue'\nimport B from '@/views/b/B.vue'\n";
    assert_eq!(rewriter.validate(content, &names(&["b"]), "src/views"), names(&["a"]));
    assert_eq!(
        validate_entry_file(rewriter.as_ref(), Some(content), &[], "src/views"),
        Err(AppError::BuildError(
            "导入完整性校验失败：以下模块在构建目录中不存在 → src/views/a, src/views/b".to_string()
        ))
    );
}

fn is_subsequence(a: &[&str], b: &[&str]) -> bool {
    let mut rest = b.iter();
    a.iter().all(|x| rest.any(|y| y == x))
}

#[test]
fn rewritten_lines_are_lines_of_the_file() {
    let content = "from fastapi import FastAPI\n\
                   \x20   from modules.auth.routes import router as auth_router\n\
                   from modules.users.routes import router as users_router\n\
                   \x20   from modules.auth.routes import router as auth_router\n\
                   from modules import auth, users\n\
                   app = FastAPI()\n\
                   app.include_router(auth_router)\n\
                   app.include_router(users_router)\n";
    for selected in [names(&["auth", "users"]), names(&["auth"]), names(&["users"]), names(&[])] {
        let partial = selected.len() == 1;
        let result = rewrite_python_imports(content, &selected, "modules");
        let before: Vec<&str> = content.lines().collect();
        let after: Vec<&str> = result.lines().collect();
        if partial {
            assert!(!is_subsequence(&after, &before));
            assert!(after.contains(&format!("from modules import {}", selected[0]).as_str()));
        } else {
            assert!(is_subsequence(&after, &before), "{:?}", selected);
        }
        let kept = "    from modules.auth.routes import router as auth_router";
        let expected = if selected.contains(&"auth".to_string()) { 2 } else { 0 };
        assert_eq!(after.iter().filter(|l| **l == kept).count(), expected);
        for line in &after {
            let t = line.trim();
            if let Some(rest) = t.strip_prefix("from modules.") {
                let module = rest.split('.').next().unwrap();
                assert!(selected.iter().any(|s| s == module), "{}", line);
            }
        }
    }
}

#[test]
fn a_carriage_return_before_a_line_ending_is_not_read_back() {
    let result = rewrite_python_imports("a\r\r\nb", &[], "modules");
    assert_eq!(result, "a\r\nb");
    let before: Vec<&str> = "a\r\r\nb".lines().collect();
    let after: Vec<&str> = result.lines().collect();
    assert_eq!(before, vec!["a\r", "b"]);
    assert_eq!(after, vec!["a", "b"]);
}

#[test]
fn an_empty_last_line_is_not_read_back() {
    let once = rewrite_python_imports("x\n\n", &[], "modules");
    assert_eq!(once, "x\n");
    let twice = rewrite_python_imports(&once, &[], "modules");
    assert_eq!(twice, "x");
    assert_eq!(rewrite_python_imports(&twice, &[], "modules"), "x");
}
