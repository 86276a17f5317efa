use vsix_harvester::architecture::Architecture;
use vsix_harvester::args::Args;
use vsix_harvester::error::VsixHarvesterError;
use vsix_harvester::extension::Extensions;
use vsix_harvester::pipeline::batch_outcome;
use vsix_harvester::pipeline::build_direct_task;
use vsix_harvester::pipeline::concurrency_width;
use vsix_harvester::pipeline::failed_indices;
use vsix_harvester::pipeline::plan_batch;
use vsix_harvester::pipeline::should_download;
use vsix_harvester::pipeline::RunMode;

fn manifest(universal: Option<Vec<&str>>, linux_x64: Option<Vec<&str>>) -> Extensions {
    let own = |o: Option<Vec<&str>>| o.map(|v| v.into_iter().map(str::to_string).collect());
    Extensions {
        universal: own(universal),
        linux_x64: own(linux_x64),
        linux_arm64: None,
        darwin_x64: None,
        darwin_arm64: None,
        win32_x64: None,
        win32_arm64: None,
    }
}

#[test]
fn test_architecture_mappings() {
    assert_eq!(Architecture::LinuxX64.to_target_platform(), Some("linux-x64"));
    assert_eq!(Architecture::Win32Arm64.to_target_platform(), Some("win32-arm64"));
    assert_eq!(Architecture::Universal.to_target_platform(), None);
    assert_eq!(Architecture::DarwinArm64.to_field_name(), "darwin_arm64");
    assert_eq!(Architecture::Universal.to_field_name(), "universal");
}

#[test]
fn test_architecture_all_in_order() {
    let all = Architecture::all();
    assert_eq!(all.len(), 7);
    assert_eq!(all[0], Architecture::Universal);
    assert_eq!(all[1], Architecture::LinuxX64);
    assert_eq!(all[6], Architecture::Win32Arm64);
}

#[test]
fn test_available_architectures_fixed_order() {
    let cats = Architecture::available_architectures();
    assert_eq!(cats.len(), 7);
    assert_eq!(cats[0], ("universal", None));
    assert_eq!(cats[1], ("linux_x64", Some("linux-x64")));
    assert_eq!(cats[6], ("win32_arm64", Some("win32-arm64")));
}

#[test]
fn test_from_cli_arg() {
    assert_eq!(Architecture::from_cli_arg("linux_x64"), Some(Architecture::LinuxX64));
    assert_eq!(Architecture::from_cli_arg("universal"), Some(Architecture::Universal));
    assert_eq!(Architecture::from_cli_arg("linux-x64"), None);
    assert_eq!(Architecture::from_cli_arg(""), None);
}

#[test]
fn test_get_extensions_list() {
    let exts = manifest(Some(vec!["golang.Go"]), None);
    let got = Architecture::get_extensions_list("universal", &exts).unwrap();
    assert_eq!(got.len(), 1);
    assert_eq!(got[0], "golang.Go");
    assert!(Architecture::get_extensions_list("linux_x64", &exts).is_none());
    assert!(Architecture::get_extensions_list("nonsense", &exts).is_none());
}

#[test]
fn test_plan_batch_orders_categories() {
    let exts = manifest(
        Some(vec!["golang.Go"]),
        Some(vec!["rust-lang.rust-analyzer", "ms-python.python"]),
    );
    let plans = plan_batch(&exts, "./out", true, None, Some("1.97.0"), false).unwrap();
    assert_eq!(plans.len(), 7);
    assert_eq!(plans[0].field_name, "universal");
    assert_eq!(plans[0].target_platform, None);
    assert_eq!(plans[0].tasks.len(), 1);
    assert_eq!(plans[0].tasks[0].publisher, "golang");
    assert_eq!(plans[0].tasks[0].name, "Go");
    assert_eq!(plans[0].tasks[0].destination, "./out");
    assert!(plans[0].tasks[0].no_cache);
    assert_eq!(plans[0].tasks[0].engine_version, Some("1.97.0".to_string()));
    assert_eq!(plans[1].field_name, "linux_x64");
    assert_eq!(plans[1].target_platform, Some("linux-x64".to_string()));
    assert_eq!(plans[1].tasks.len(), 2);
    assert_eq!(plans[1].tasks[0].publisher, "rust-lang");
    assert_eq!(plans[1].tasks[1].name, "python");
    for k in 2..7 {
        assert_eq!(plans[k].tasks.len(), 0);
    }
}

#[test]
fn test_plan_batch_rejects_bad_identifier() {
    let exts = manifest(Some(vec!["golang.Go", "broken"]), None);
    match plan_batch(&exts, "./out", false, None, None, false) {
        Err(VsixHarvesterError::InvalidExtensionId(s)) => assert_eq!(s, "broken"),
        other => panic!("expected InvalidExtensionId, got {:?}", other.map(|p| p.len())),
    }
}

#[test]
fn test_build_direct_task_maps_architecture() {
    let task = build_direct_task(
        "ms-python.python",
        Some("linux_arm64"),
        "./dest",
        false,
        Some("http://proxy.invalid:8080"),
        None,
        true,
    )
    .unwrap();
    assert_eq!(task.publisher, "ms-python");
    assert_eq!(task.name, "python");
    assert_eq!(task.target_platform, Some("linux-arm64".to_string()));
    assert_eq!(task.proxy, Some("http://proxy.invalid:8080".to_string()));
    assert!(task.allow_pre_release);
}

#[test]
fn test_build_direct_task_universal_has_no_tag() {
    let task = build_direct_task("a.b", Some("universal"), ".", false, None, None, false).unwrap();
    assert_eq!(task.target_platform, None);
    let unknown = build_direct_task("a.b", Some("sparc"), ".", false, None, None, false).unwrap();
    assert_eq!(unknown.target_platform, None);
}

#[test]
fn test_build_direct_task_rejects_bad_identifier() {
    assert!(build_direct_task("nodot", None, ".", false, None, None, false).is_err());
}

#[test]
fn test_concurrency_width() {
    assert_eq!(concurrency_width(true), 1);
    assert_eq!(concurrency_width(false), 5);
}

#[test]
fn test_should_download_cache_decision() {
    // an existing file satisfies the fetch unless a redownload is forced
    assert!(!should_download(false, true));
    assert!(should_download(true, true));
    assert!(should_download(false, false));
    assert!(should_download(true, false));
}

#[test]
fn test_batch_outcome_tolerates_item_failures() {
    let results: Vec<Result<(), VsixHarvesterError>> = vec![
        Err(VsixHarvesterError::DownloadError("pub.bad".to_string())),
        Ok(()),
    ];
    assert!(batch_outcome(&results).is_ok());
    assert_eq!(failed_indices(&results), vec![0]);
}

#[test]
fn test_failed_indices_lists_every_failure_in_order() {
    let results: Vec<Result<(), VsixHarvesterError>> = vec![
        Ok(()),
        Err(VsixHarvesterError::ApiError("query failed".to_string())),
        Ok(()),
        Err(VsixHarvesterError::DownloadError("pub.ext".to_string())),
    ];
    assert_eq!(failed_indices(&results), vec![1, 3]);
    assert!(batch_outcome(&results).is_ok());
    let none: Vec<Result<(), VsixHarvesterError>> = vec![Ok(()), Ok(())];
    assert_eq!(failed_indices(&none), Vec::<usize>::new());
}

#[test]
fn test_run_mode_of_args() {
    let mut args = Args {
        input: "./extensions.json".to_string(),
        destination: "./extensions".to_string(),
        no_cache: false,
        proxy: None,
        verbose: false,
        download: None,
        arch: None,
        engine_version: None,
        serial: false,
    };
    assert_eq!(RunMode::of_args(&args), RunMode::ManifestBatch);
    args.download = Some("golang.Go".to_string());
    assert_eq!(RunMode::of_args(&args), RunMode::DirectDownload);
}
