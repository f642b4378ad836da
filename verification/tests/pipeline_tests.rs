use prism_console::build_strategy::{get_builder, get_generic_builder, BuildStrategy};
use prism_console::error::AppError;
use prism_console::models::DependencyEdge;
use prism_console::pipeline::{
    build_result, check_disk_space, check_entry_file, default_excludes, expand_selection,
    finish_module_copy, format_timestamp, plan_build, stage_label, timestamp_suffix, BuildStage,
    BuildState, UtcTime,
};

fn names(list: &[&str]) -> Vec<String> {
    list.iter().map(|s| s.to_string()).collect()
}

fn failed(text: &str) -> Result<(), AppError> {
    Err(AppError::BuildError(text.to_string()))
}

fn run(outcomes: &[Result<(), AppError>]) -> (Vec<BuildStage>, BuildState) {
    let mut state = BuildState::new();
    let mut stages = vec![state.stage];
    for o in outcomes {
        state = state.advance(o.clone());
        stages.push(state.stage);
    }
    (stages, state)
}

#[test]
fn a_build_runs_through_its_stages() {
    let ok: Vec<Result<(), AppError>> = (0..9).map(|_| Ok(())).collect();
    let (stages, state) = run(&ok);
    assert_eq!(
        stages,
        vec![
            BuildStage::ValidateParams,
            BuildStage::AcquireWorkspace,
            BuildStage::CopySkeleton,
            BuildStage::ResolveClosure,
            BuildStage::CopyModules,
            BuildStage::RewriteEntry,
            BuildStage::ValidateEntry,
            BuildStage::Archive,
            BuildStage::ReleaseWorkspace,
            BuildStage::Done,
        ]
    );
    assert!(state.is_done());
    assert_eq!(state.failure, None);
    assert!(state.warnings.is_empty());
}

#[test]
fn a_failure_before_the_workspace_ends_the_build_at_once() {
    let (stages, state) = run(&[Err(AppError::ValidationError("x".to_string()))]);
    assert_eq!(stages, vec![BuildStage::ValidateParams, BuildStage::Done]);
    assert_eq!(state.failure, Some(AppError::ValidationError("x".to_string())));

    let (stages, state) = run(&[Ok(()), failed("no folder")]);
    assert_eq!(
        stages,
        vec![BuildStage::ValidateParams, BuildStage::AcquireWorkspace, BuildStage::Done]
    );
    assert_eq!(state.failure, Some(AppError::BuildError("no folder".to_string())));
}

#[test]
fn a_failure_with_the_workspace_removes_it_first() {
    for failing in 2..8usize {
        if failing == 3 {
            continue;
        }
        let mut outcomes: Vec<Result<(), AppError>> = (0..failing).map(|_| Ok(())).collect();
        outcomes.push(failed("broken"));
        if failing == 7 {
            outcomes.push(Ok(()));
        }
        outcomes.push(Ok(()));
        let (stages, state) = run(&outcomes);
        assert_eq!(stages[stages.len() - 2], BuildStage::ReleaseWorkspace, "stage {}", failing);
        assert_eq!(stages[stages.len() - 1], BuildStage::Done);
        assert_eq!(
            stages.iter().filter(|s| **s == BuildStage::ReleaseWorkspace).count(),
            1
        );
        assert_eq!(state.failure, Some(AppError::BuildError("broken".to_string())));
        assert!(state.warnings.is_empty());
        assert_eq!(
            stages.iter().filter(|s| **s == BuildStage::DiscardArchive).count(),
            if failing == 7 { 1 } else { 0 }
        );
    }
}

#[test]
fn an_archiving_fault_leaves_no_workspace() {
    let mut outcomes: Vec<Result<(), AppError>> = (0..7).map(|_| Ok(())).collect();
    outcomes.push(failed("disk full"));
    let (stages, state) = run(&outcomes);
    assert_eq!(stages[stages.len() - 2], BuildStage::Archive);
    assert_eq!(*stages.last().unwrap(), BuildStage::DiscardArchive);
    assert!(!state.is_done());
    let state = state.advance(failed("cannot remove the archive"));
    assert_eq!(state.stage, BuildStage::ReleaseWorkspace);
    let state = state.advance(failed("cannot remove the folder"));
    assert!(state.is_done());
    assert_eq!(state.failure, Some(AppError::BuildError("disk full".to_string())));
    assert_eq!(
        state.warnings,
        vec![
            AppError::BuildError("cannot remove the archive".to_string()),
            AppError::BuildError("cannot remove the folder".to_string()),
        ]
    );
}

#[test]
fn a_finished_archive_is_not_removed() {
    let ok: Vec<Result<(), AppError>> = (0..8).map(|_| Ok(())).collect();
    let (stages, state) = run(&ok);
    assert_eq!(*stages.last().unwrap(), BuildStage::ReleaseWorkspace);
    assert!(!stages.contains(&BuildStage::DiscardArchive));
    let state = state.advance(failed("cannot remove the folder"));
    assert!(state.is_done());
    assert_eq!(state.failure, None);
    assert_eq!(state.warnings, vec![AppError::BuildError("cannot remove the folder".to_string())]);
}

#[test]
fn a_failed_resolution_does_not_stop_the_build() {
    let (stages, state) = run(&[Ok(()), Ok(()), Ok(()), failed("unreadable")]);
    assert_eq!(*stages.last().unwrap(), BuildStage::CopyModules);
    assert_eq!(state.failure, None);
    assert_eq!(state.warnings, vec![AppError::BuildError("unreadable".to_string())]);
}

#[test]
fn the_first_failure_is_kept() {
    let (_, state) = run(&[Ok(()), Ok(()), failed("first"), failed("second")]);
    assert!(state.is_done());
    assert_eq!(state.failure, Some(AppError::BuildError("first".to_string())));
    assert_eq!(state.warnings, vec![AppError::BuildError("second".to_string())]);
    let state = state.advance(failed("third"));
    assert!(state.is_done());
    assert_eq!(state.failure, Some(AppError::BuildError("first".to_string())));
    assert_eq!(
        state.warnings,
        vec![
            AppError::BuildError("second".to_string()),
            AppError::BuildError("third".to_string()),
        ]
    );
    let stray = BuildState {
        stage: BuildStage::CopyModules,
        failure: Some(AppError::Cancelled),
        warnings: vec![],
    };
    let stray = stray.advance(failed("later"));
    assert_eq!(stray.failure, Some(AppError::Cancelled));
    assert_eq!(stray.warnings, vec![AppError::BuildError("later".to_string())]);
}

#[test]
fn stages_have_labels() {
    assert_eq!(stage_label(BuildStage::ValidateParams), "validating the parameters");
    assert_eq!(stage_label(BuildStage::ReleaseWorkspace), "removing the working folder");
    assert_eq!(stage_label(BuildStage::DiscardArchive), "removing the unfinished archive");
    assert_eq!(stage_label(BuildStage::Done), "done");
}

#[test]
fn test_build_with_empty_client_name_fails() {
    let builder = get_builder("fastapi").ok().unwrap();
    let modules = names(&["auth"]);
    let result = plan_build(builder.as_ref(), &modules, "", "", "20260209_101500");
    assert!(result.is_err());
    assert!(result.unwrap_err().message().contains("客户名称不能为空"));
}

#[test]
fn test_build_with_no_modules_fails() {
    let builder = get_builder("fastapi").ok().unwrap();
    let modules: Vec<String> = vec![];
    let result = plan_build(builder.as_ref(), &modules, "客户A", "", "20260209_101500");
    assert!(result.is_err());
    assert!(result.unwrap_err().message().contains("至少需要选择一个模块"));
}

#[test]
fn test_zip_filename_contains_timestamp() {
    let builder = get_builder("fastapi").ok().unwrap();
    let modules = names(&["auth"]);
    let plan = plan_build(builder.as_ref(), &modules, "客户A", "", "20260209_101500").unwrap();
    assert!(plan.zip_name.contains("dist_客户A_"));
    assert_eq!(plan.zip_name, "dist_客户A_20260209_101500.zip");
    assert_eq!(plan.dist_name, "dist_客户A_20260209_101500");
}

#[test]
fn a_plan_fixes_the_names_of_a_build() {
    let builder = get_builder("vue3").ok().unwrap();
    let modules = names(&["home"]);
    let plan = plan_build(builder.as_ref(), &modules, "  acme corp \n", "", "ts").unwrap();
    assert_eq!(plan.client_name, "acme corp");
    assert_eq!(plan.modules_dir, "src/views");
    assert_eq!(plan.dist_name, "dist_acme corp_ts");
    assert_eq!(plan.zip_name, "dist_acme corp_ts.zip");
    let mut expected = default_excludes();
    expected.push("dist_".to_string());
    expected.push("*.zip".to_string());
    assert_eq!(plan.excludes, expected);
    assert_eq!(plan.excludes.len(), 24);
    assert_eq!(plan.excludes[0], ".git");
    assert_eq!(plan.excludes[21], ".env.development");

    let plan = plan_build(builder.as_ref(), &modules, "acme", "src/pages", "ts").unwrap();
    assert_eq!(plan.modules_dir, "src/pages");
}

#[test]
fn a_configured_technology_adds_its_exclusions() {
    let builder = get_generic_builder(
        "django".to_string(),
        "apps".to_string(),
        "[\"media\", \"staticfiles\"]".to_string(),
    )
    .ok()
    .unwrap();
    assert_eq!(builder.tech_stack(), "django");
    assert_eq!(builder.default_modules_dir(), "apps");
    assert_eq!(builder.extra_excludes(), names(&["media", "staticfiles"]));
    let plan = plan_build(builder.as_ref(), &names(&["blog"]), "c", "", "t").unwrap();
    assert_eq!(plan.modules_dir, "apps");
    assert_eq!(plan.excludes.len(), 26);
    assert_eq!(plan.excludes[22], "dist_");
    assert_eq!(plan.excludes[23], "*.zip");
    assert_eq!(plan.excludes[24], "media");
    assert_eq!(plan.excludes[25], "staticfiles");

    for broken in ["", "not json", "{\"a\": 1}", "[1, 2]"] {
        let builder =
            get_generic_builder("x".to_string(), "m".to_string(), broken.to_string()).ok().unwrap();
        assert!(builder.extra_excludes().is_empty(), "{}", broken);
    }
}

#[test]
fn test_build_with_all_nonexistent_modules_fails() {
    let modules = names(&["nonexistent_a", "nonexistent_b"]);
    let closure = expand_selection(&modules, &[], "modules", None);
    assert_eq!(closure.modules, modules);
    let result = finish_module_copy(&closure.modules, &modules);
    assert!(result.is_err());
    assert!(result.unwrap_err().message().contains("所有选中的模块目录均不存在"));
}

#[test]
fn test_build_with_partial_nonexistent_modules_succeeds() {
    let modules = names(&["auth", "nonexistent"]);
    let all = names(&["auth", "billing", "users"]);
    let edges: Vec<DependencyEdge> = vec![];
    let closure = expand_selection(&modules, &all, "modules", Some(&edges));
    assert_eq!(closure.modules, modules);
    assert_eq!(closure.missing, names(&["nonexistent"]));
    let actual = finish_module_copy(&closure.modules, &names(&["nonexistent"])).unwrap();
    assert_eq!(actual, names(&["auth"]));
    let builder = get_builder("fastapi").ok().unwrap();
    let plan = plan_build(builder.as_ref(), &modules, "客户A", "", "t").unwrap();
    let result = build_result(&plan, "/p/dist_客户A_t.zip".to_string(), actual);
    assert_eq!(result.module_count, 1);
    assert_eq!(result.client_name, "客户A");
    assert_eq!(result.zip_path, "/p/dist_客户A_t.zip");
    assert_eq!(result.expanded_modules, names(&["auth"]));
}

#[test]
fn the_selection_is_expanded_by_what_it_needs() {
    let edges = vec![DependencyEdge {
        source: "modules/auth/routes.py".to_string(),
        target: "modules/users/models.py".to_string(),
    }];
    let all = names(&["auth", "billing", "users"]);
    let closure = expand_selection(&names(&["auth"]), &all, "modules", Some(&edges));
    assert_eq!(closure.modules, names(&["auth", "users"]));
    assert_eq!(closure.auto_added, names(&["users"]));
    let closure = expand_selection(&names(&["auth"]), &all, "modules", None);
    assert_eq!(closure.modules, names(&["auth"]));
    assert!(closure.auto_added.is_empty());
    let closure = expand_selection(&names(&["auth", "auth"]), &[], "modules", Some(&edges));
    assert_eq!(closure.modules, names(&["auth", "auth"]));
    assert!(closure.missing.is_empty());
    let closure =
        expand_selection(&names(&["ghost", "auth", "ghost", "gone"]), &all, "modules", Some(&edges));
    assert_eq!(closure.modules, names(&["ghost", "auth", "gone", "users"]));
    assert_eq!(closure.missing, names(&["ghost", "gone"]));
}

#[test]
fn the_validator_fails_the_build_for_a_missing_module() {
    assert_eq!(check_entry_file(&[], "modules"), Ok(()));
    let err = check_entry_file(&names(&["ghost"]), "modules").unwrap_err();
    assert_eq!(
        err.message(),
        "构建失败：导入完整性校验失败：以下模块在构建目录中不存在 → modules/ghost"
    );
    let err = check_entry_file(&names(&["a", "b"]), "modules").unwrap_err();
    assert_eq!(
        err,
        AppError::BuildError(
            "导入完整性校验失败：以下模块在构建目录中不存在 → modules/a, modules/b".to_string()
        )
    );
}

#[test]
fn disk_space_is_checked_against_twice_the_size() {
    assert_eq!(check_disk_space(0, 5), Ok(()));
    assert_eq!(check_disk_space(5, 0), Ok(()));
    assert_eq!(check_disk_space(100, 200), Ok(()));
    assert_eq!(check_disk_space(u64::MAX, u64::MAX), Err(AppError::BuildError(
        "磁盘可用空间不足：需要约 35184372088831 MB，当前可用 17592186044415 MB".to_string()
    )));
    assert_eq!(
        check_disk_space(3 * 1024 * 1024, 5 * 1024 * 1024 + 7),
        Err(AppError::BuildError("磁盘可用空间不足：需要约 6 MB，当前可用 5 MB".to_string()))
    );
}

#[test]
fn test_timestamp_suffix_format() {
    let ts = timestamp_suffix();
    assert_eq!(ts.len(), 15);
    assert_eq!(&ts[8..9], "_");
    assert!(ts.chars().filter(|&c| c != '_').all(|c| c.is_ascii_digit()));
}

#[test]
fn a_timestamp_has_leading_zeros() {
    let t = UtcTime { year: 2026, month: 2, day: 9, hour: 7, minute: 5, second: 0 };
    assert_eq!(format_timestamp(t), "20260209_070500");
    let t = UtcTime { year: 987, month: 12, day: 31, hour: 23, minute: 59, second: 59 };
    assert_eq!(format_timestamp(t), "09871231_235959");
    let t = UtcTime { year: -5, month: 1, day: 1, hour: 0, minute: 0, second: 0 };
    assert_eq!(format_timestamp(t), "-0050101_000000");
    assert_eq!(format!("{:04}", -5), "-005");
    let t = UtcTime { year: 12345, month: 1, day: 1, hour: 0, minute: 0, second: 0 };
    assert_eq!(format_timestamp(t), "123450101_000000");
    let t = UtcTime { year: i32::MIN, month: 1, day: 1, hour: 0, minute: 0, second: 0 };
    assert_eq!(format_timestamp(t), format!("{:04}0101_000000", i32::MIN));
}
