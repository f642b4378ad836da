use prism_console::rewriter::python::rewrite_python_imports;
use prism_console::rewriter::vue3::rewrite_vue3_router;
use prism_console::rewriter::{get_rewriter, ImportRewriter};

#[test]
fn test_from_module_import_filtering() {
    let content = "\
from fastapi import FastAPI
from modules.auth.routes import router as auth_router
from modules.users.routes import router as users_router
from modules.orders.routes import router as orders_router

app = FastAPI()
app.include_router(auth_router)
app.include_router(users_router)
app.include_router(orders_router)";

    let selected = vec!["auth".to_string(), "orders".to_string()];
    let result = rewrite_python_imports(content, &selected, "modules");

    assert!(result.contains("from modules.auth.routes import router as auth_router"));
    assert!(!result.contains("users"));
    assert!(result.contains("from modules.orders.routes import router as orders_router"));
    assert!(result.contains("app.include_router(auth_router)"));
    assert!(!result.contains("app.include_router(users_router)"));
    assert!(result.contains("app.include_router(orders_router)"));
}

#[test]
fn test_from_module_import_submodule() {
    let content = "\
from modules.auth import routes as auth_routes
from modules.users import routes as users_routes

app.include_router(auth_routes.router)
app.include_router(users_routes.router)";

    let selected = vec!["auth".to_string()];
    let result = rewrite_python_imports(content, &selected, "modules");

    assert!(result.contains("from modules.auth import routes as auth_routes"));
    assert!(!result.contains("users"));
}

#[test]
fn test_bulk_import_filtering() {
    let content = "\
from modules import auth, users, orders

app.include_router(auth.router)
app.include_router(users.router)
app.include_router(orders.router)";

    let selected = vec!["auth".to_string(), "orders".to_string()];
    let result = rewrite_python_imports(content, &selected, "modules");

    assert!(result.contains("from modules import auth, orders"));
    assert!(!result.contains("users"));
    assert!(result.contains("app.include_router(auth.router)"));
    assert!(result.contains("app.include_router(orders.router)"));
}

#[test]
fn test_non_module_lines_preserved() {
    let content = "\
from fastapi import FastAPI
import uvicorn

app = FastAPI()

if __name__ == '__main__':
uvicorn.run(app)";

    let selected = vec!["auth".to_string()];
    let result = rewrite_python_imports(content, &selected, "modules");

    assert_eq!(result, content);
}

#[test]
fn test_empty_content() {
    let result = rewrite_python_imports("", &[], "modules");
    assert_eq!(result, "");
}

#[test]
fn test_custom_modules_dir() {
    let content = "\
from plugins.auth.routes import router as auth_router
from plugins.users.routes import router as users_router";

    let selected = vec!["auth".to_string()];
    let result = rewrite_python_imports(content, &selected, "plugins");

    assert!(result.contains("from plugins.auth.routes import router as auth_router"));
    assert!(!result.contains("users"));
}

#[test]
fn test_dotted_router_ref() {
    let content = "\
from modules import auth, users

app.include_router(modules.auth.router)
app.include_router(modules.users.router)";

    let selected = vec!["auth".to_string()];
    let result = rewrite_python_imports(content, &selected, "modules");

    assert!(result.contains("app.include_router(modules.auth.router)"));
    assert!(!result.contains("modules.users.router"));
}

#[test]
fn test_vue3_static_import_filtering() {
    let content = "\
import { createRouter, createWebHistory } from 'vue-router'
import DashboardView from '@/views/dashboard/index.vue'
import LoginView from '@/views/login/index.vue'
import SettingsView from '@/views/settings/index.vue'

const routes = [
  {
path: '/dashboard',
component: DashboardView,
  },
  {
path: '/login',
component: LoginView,
  },
  {
path: '/settings',
component: SettingsView,
  },
]

export default createRouter({
  history: createWebHistory(),
  routes,
})";

    let selected = vec!["dashboard".to_string(), "settings".to_string()];
    let result = rewrite_vue3_router(content, &selected, "src/views");

    assert!(result.contains("import DashboardView from '@/views/dashboard/index.vue'"));
    assert!(result.contains("import SettingsView from '@/views/settings/index.vue'"));
    assert!(!result.contains("LoginView"));
    assert!(result.contains("import { createRouter, createWebHistory } from 'vue-router'"));
    assert!(result.contains("'/dashboard'"));
    assert!(result.contains("'/settings'"));
    assert!(!result.contains("'/login'"));
}

#[test]
fn test_vue3_dynamic_import_filtering() {
    let content = "\
import { createRouter, createWebHistory } from 'vue-router'

const routes = [
  {
path: '/dashboard',
component: () => import('@/views/dashboard/index.vue'),
  },
  {
path: '/login',
component: () => import('@/views/login/index.vue'),
  },
  {
path: '/settings',
component: () => import('@/views/settings/index.vue'),
  },
]

export default createRouter({
  history: createWebHistory(),
  routes,
})";

    let selected = vec!["dashboard".to_string()];
    let result = rewrite_vue3_router(content, &selected, "src/views");

    assert!(result.contains("'/dashboard'"));
    assert!(result.contains("@/views/dashboard/index.vue"));
    assert!(!result.contains("'/login'"));
    assert!(!result.contains("'/settings'"));
    assert!(result.contains("createRouter"));
}

#[test]
fn test_vue3_const_lazy_import_filtering() {
    let content = "\
import { createRouter, createWebHistory } from 'vue-router'

const DashboardView = () => import('@/views/dashboard/index.vue')
const LoginView = () => import('@/views/login/index.vue')

const routes = [
  {
path: '/dashboard',
component: DashboardView,
  },
  {
path: '/login',
component: LoginView,
  },
]

export default createRouter({
  history: createWebHistory(),
  routes,
})";

    let selected = vec!["dashboard".to_string()];
    let result = rewrite_vue3_router(content, &selected, "src/views");

    assert!(result.contains("const DashboardView"));
    assert!(result.contains("'/dashboard'"));
    assert!(!result.contains("LoginView"));
    assert!(!result.contains("'/login'"));
}

#[test]
fn test_vue3_mixed_import_styles() {
    let content = "\
import { createRouter, createWebHistory } from 'vue-router'
import DashboardView from '@/views/dashboard/index.vue'

const routes = [
  {
path: '/dashboard',
component: DashboardView,
  },
  {
path: '/login',
component: () => import('@/views/login/index.vue'),
  },
  {
path: '/settings',
component: () => import('@/views/settings/index.vue'),
  },
]";

    let selected = vec!["dashboard".to_string(), "login".to_string()];
    let result = rewrite_vue3_router(content, &selected, "src/views");

    assert!(result.contains("DashboardView"));
    assert!(result.contains("'/dashboard'"));
    assert!(result.contains("'/login'"));
    assert!(!result.contains("'/settings'"));
}

#[test]
fn test_vue3_custom_modules_dir() {
    let content = "\
import HomeView from '@/pages/home/index.vue'
import AboutView from '@/pages/about/index.vue'

const routes = [
  {
path: '/',
component: HomeView,
  },
  {
path: '/about',
component: AboutView,
  },
]";

    let selected = vec!["home".to_string()];
    let result = rewrite_vue3_router(content, &selected, "src/pages");

    assert!(result.contains("HomeView"));
    assert!(result.contains("'/'"));
    assert!(!result.contains("AboutView"));
    assert!(!result.contains("'/about'"));
}

#[test]
fn test_vue3_non_module_imports_preserved() {
    let content = "\
import { createRouter, createWebHistory } from 'vue-router'
import type { RouteRecordRaw } from 'vue-router'
import { useAuth } from '@/composables/useAuth'

const routes: RouteRecordRaw[] = []

export default createRouter({
  history: createWebHistory(),
  routes,
})";

    let selected: Vec<String> = vec![];
    let result = rewrite_vue3_router(content, &selected, "src/views");

    assert!(result.contains("import { createRouter, createWebHistory } from 'vue-router'"));
    assert!(result.contains("import type { RouteRecordRaw } from 'vue-router'"));
    assert!(result.contains("import { useAuth } from '@/composables/useAuth'"));
}

#[test]
fn test_vue3_empty_content() {
    let result = rewrite_vue3_router("", &[], "src/views");
    assert_eq!(result, "");
}

#[test]
fn test_vue3_nested_module_path() {
    let content = "\
import UserView from '@/views/system/user/index.vue'
import RoleView from '@/views/system/role/index.vue'
import DashboardView from '@/views/dashboard/index.vue'

const routes = [
  {
path: '/system/user',
component: UserView,
  },
  {
path: '/system/role',
component: RoleView,
  },
  {
path: '/dashboard',
component: DashboardView,
  },
]";

    let selected = vec!["system".to_string()];
    let result = rewrite_vue3_router(content, &selected, "src/views");

    assert!(result.contains("UserView"));
    assert!(result.contains("RoleView"));
    assert!(!result.contains("DashboardView"));
}

#[test]
fn test_vue3_get_rewriter_returns_some() {
    let rewriter = get_rewriter("vue3");
    assert!(rewriter.is_some());
    assert_eq!(rewriter.unwrap().entry_file(), "src/router/index.ts");
}
