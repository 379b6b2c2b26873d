use moon_upgrade::dates::extract_date;
use moon_upgrade::manifest::{joined_path, manifest_items, platform_id, url_for_item, version_url};
use moon_upgrade::paths::normalize_path;
use moon_upgrade::pipeline::{
    batch_outcome, download_page, exit_code_for, item_is_archive, plan_install_step,
    rebuild_outcome, select_root, upgrade_step, BatchOutcome, DownloadError, InstallError,
    InstallStep, UpgradeEvent, UpgradeState,
};
use moon_upgrade::strutil::{str_contains, str_eq, str_lex_lt};
use moon_upgrade::version::{proceed_with_upgrade, should_upgrade, LocalVersions, VersionItem};

#[test]
fn test_extract_date() {
    let date1 = extract_date("0.1.20240828 (901ac075 2024-08-28)").unwrap();
    assert_eq!("20240828", date1);
    let date2 = extract_date("v0.1.20240827+848d2bb76").unwrap();
    assert_eq!("20240827", date2);
    assert!(date1 > date2);
}

#[test]
fn extract_date_rejects_strings_without_token() {
    assert_eq!(extract_date(""), None);
    assert_eq!(extract_date("no dots at all"), None);
    assert_eq!(extract_date("0.1"), None);
    assert_eq!(extract_date("0.1.x"), None);
    assert_eq!(extract_date("0.1.2024082"), None);
    assert_eq!(extract_date("0.1.abc2024x828"), None);
}

#[test]
fn extract_date_takes_first_eight_digits() {
    assert_eq!(extract_date("0.1.123456789").unwrap(), "12345678");
    assert_eq!(extract_date("a.b.v20240828+848d2bb76").unwrap(), "20240828");
}

#[test]
fn lexical_order_matches_chronological_order() {
    let dates = [
        ("20231231", 20231231u32),
        ("20240101", 20240101u32),
        ("20240102", 20240102u32),
        ("20240828", 20240828u32),
        ("20250101", 20250101u32),
    ];
    for (sa, na) in dates.iter() {
        for (sb, nb) in dates.iter() {
            assert_eq!(str_lex_lt(sa, sb), na < nb);
            assert_eq!(sa < sb, na < nb);
        }
    }
}

fn item(name: &str, version: &str) -> VersionItem {
    VersionItem { name: name.to_string(), version: version.to_string() }
}

fn locals(moon: &str, moonrun: &str, moonc: &str) -> LocalVersions {
    LocalVersions {
        moon: moon.to_string(),
        moonrun: moonrun.to_string(),
        moonc: moonc.to_string(),
    }
}

#[test]
fn newer_remote_moon_requires_upgrade() {
    // one remote component a day ahead of the local install
    let items = vec![item("moon", "0.1.20240102")];
    let r = should_upgrade("0.1.20240101", "0.1.20240101", "0.1.20240101", &items);
    assert_eq!(r, Some(true));
}

#[test]
fn identical_dates_do_not_require_upgrade() {
    let items = vec![
        item("moon", "0.1.20240101"),
        item("moonrun", "0.1.20240101"),
        item("moonc", "0.1.20240101"),
    ];
    let r = should_upgrade("0.1.20240101", "0.1.20240101", "0.1.20240101", &items);
    assert_eq!(r, Some(false));
    let decided = proceed_with_upgrade(
        false,
        &Some(items),
        &Some(locals("0.1.20240101", "0.1.20240101", "0.1.20240101")),
    );
    assert!(!decided);
}

#[test]
fn older_remote_does_not_require_upgrade() {
    let items = vec![item("moonc", "0.1.20231231")];
    let r = should_upgrade("0.1.20240101", "0.1.20240101", "0.1.20240101", &items);
    assert_eq!(r, Some(false));
}

#[test]
fn unrelated_component_names_are_ignored() {
    let items = vec![item("somethingelse", "0.1.20990101")];
    let r = should_upgrade("0.1.20240101", "0.1.20240101", "0.1.20240101", &items);
    assert_eq!(r, Some(false));
}

#[test]
fn malformed_versions_fail_open() {
    // a local version without a date token
    let items = vec![item("moon", "0.1.20240102")];
    assert_eq!(should_upgrade("garbage", "0.1.20240101", "0.1.20240101", &items), None);
    // a remote version without a date token
    let bad = vec![item("moon", "nodate")];
    assert_eq!(should_upgrade("0.1.20240101", "0.1.20240101", "0.1.20240101", &bad), None);
    // either way the decision falls open to proceeding
    assert!(proceed_with_upgrade(
        false,
        &Some(bad),
        &Some(locals("0.1.20240101", "0.1.20240101", "0.1.20240101"))
    ));
    // so does a missing manifest or missing local versions
    assert!(proceed_with_upgrade(false, &None, &None));
}

#[test]
fn forced_run_skips_the_version_check() {
    let items = vec![
        item("moon", "0.1.20240101"),
        item("moonrun", "0.1.20240101"),
        item("moonc", "0.1.20240101"),
    ];
    let l = locals("0.1.20240101", "0.1.20240101", "0.1.20240101");
    assert!(proceed_with_upgrade(true, &Some(items), &Some(l)));
}

#[test]
fn normalize_removes_dot_and_dotdot() {
    assert_eq!(normalize_path("/a/b/../c"), "/a/c");
    assert_eq!(normalize_path("/a/./b"), "/a/b");
}

#[test]
fn normalize_edge_cases() {
    assert_eq!(normalize_path("/"), "/");
    assert_eq!(normalize_path(""), "");
    assert_eq!(normalize_path("/.."), "/");
    assert_eq!(normalize_path("a/.."), "");
    assert_eq!(normalize_path("../a"), "a");
    assert_eq!(normalize_path("/a//b/"), "/a/b");
    assert_eq!(normalize_path("/home/u/.moon/bin/../bin/moon"), "/home/u/.moon/bin/moon");
}

#[test]
fn interrupt_wins_the_race() {
    // the interrupt fires before any task completes: no installation follows
    let results: Vec<Option<DownloadError>> = vec![None, None, None];
    let out = batch_outcome(true, &results);
    assert!(matches!(out, BatchOutcome::Interrupted));
    let s = upgrade_step(UpgradeState::Downloading, UpgradeEvent::BatchInterrupted);
    assert_eq!(s, UpgradeState::Interrupted);
    // terminal: no further event moves the machine to Installing
    assert_eq!(upgrade_step(s, UpgradeEvent::BatchSucceeded), UpgradeState::Interrupted);
    assert_ne!(exit_code_for(s), 0);
}

#[test]
fn one_failed_task_fails_the_whole_batch() {
    // one of N tasks reports a missing content length: the batch fails and
    // nothing is installed, the successful downloads included
    let results: Vec<Option<DownloadError>> = vec![
        None,
        Some(DownloadError::MissingContentLength { item: "bin/moonc".to_string() }),
        None,
    ];
    let out = batch_outcome(false, &results);
    match out {
        BatchOutcome::Failed(DownloadError::MissingContentLength { item }) => {
            assert_eq!(item, "bin/moonc");
        }
        _ => panic!("expected the missing-content-length failure"),
    }
    let s = upgrade_step(UpgradeState::Downloading, UpgradeEvent::BatchFailed);
    assert_eq!(s, UpgradeState::DownloadFailed);
    assert_eq!(upgrade_step(s, UpgradeEvent::BatchSucceeded), UpgradeState::DownloadFailed);
    assert_ne!(exit_code_for(s), 0);
}

#[test]
fn successful_batch_reaches_installation() {
    let results: Vec<Option<DownloadError>> = vec![None, None];
    assert!(matches!(batch_outcome(false, &results), BatchOutcome::ReadyToInstall));
    let s = upgrade_step(UpgradeState::Downloading, UpgradeEvent::BatchSucceeded);
    assert_eq!(s, UpgradeState::Installing);
    assert_eq!(
        upgrade_step(s, UpgradeEvent::InstallFinished { ok: true }),
        UpgradeState::Done
    );
}

#[test]
fn up_to_date_run_exits_zero_without_downloading() {
    let s0 = upgrade_step(UpgradeState::Idle, UpgradeEvent::Started);
    assert_eq!(s0, UpgradeState::CheckingVersion);
    let s1 = upgrade_step(s0, UpgradeEvent::VersionChecked { proceed: false });
    assert_eq!(s1, UpgradeState::UpToDate);
    // terminal: even a confirmation cannot start a download
    assert_eq!(upgrade_step(s1, UpgradeEvent::Confirmed), UpgradeState::UpToDate);
    assert_eq!(exit_code_for(s1), 0);
}

#[test]
fn root_selection_and_download_page() {
    assert_eq!(select_root(true), "https://cli.moonbitlang.com");
    assert_eq!(select_root(false), "https://cli.moonbitlang.cn");
    assert_eq!(download_page("https://cli.moonbitlang.cn"), "https://www.moonbitlang.cn/download");
    assert_eq!(
        download_page("https://cli.moonbitlang.com"),
        "https://www.moonbitlang.com/download"
    );
}

#[test]
fn url_construction() {
    let root = "https://cli.moonbitlang.com";
    assert_eq!(
        url_for_item(root, "ubuntu_x86", "bin/moon"),
        "https://cli.moonbitlang.com/ubuntu_x86/bin/moon"
    );
    assert_eq!(
        url_for_item(root, "windows", "bin/moon"),
        "https://cli.moonbitlang.com/windows/bin/moon.exe"
    );
    assert_eq!(
        url_for_item(root, "windows", "include/moonbit.h"),
        "https://cli.moonbitlang.com/windows/include/moonbit.h"
    );
    assert_eq!(url_for_item(root, "ubuntu_x86", "core.zip"), "https://cli.moonbitlang.com/core.zip");
    assert_eq!(version_url(root), "https://cli.moonbitlang.com/version.json");
    assert_eq!(joined_path("/tmp/stage", "bin/moon"), "/tmp/stage/bin/moon");
}

#[test]
fn platform_identifiers() {
    assert_eq!(platform_id("x86_64", "macos"), Some("macos_intel"));
    assert_eq!(platform_id("aarch64", "macos"), Some("macos_m1"));
    assert_eq!(platform_id("x86_64", "linux"), Some("ubuntu_x86"));
    assert_eq!(platform_id("x86_64", "windows"), Some("windows"));
    assert_eq!(platform_id("aarch64", "linux"), None);
}

#[test]
fn manifest_shape() {
    let items = manifest_items();
    assert_eq!(items.len(), 14);
    assert_eq!(items[13], "core.zip");
    assert!(items[..13].iter().all(|i| !item_is_archive(i)));
    assert!(item_is_archive("core.zip"));
    assert!(!item_is_archive("lib/libtcc1.a"));
    assert!(!item_is_archive(".zip"));
    assert!(item_is_archive("dir/core.zip"));
}

#[test]
fn install_planning() {
    assert!(matches!(
        plan_install_step("core.zip", "/h/core.zip", "/h/bin/moon"),
        InstallStep::ExtractAndRebuild
    ));
    match plan_install_step("bin/moon", "/h/.moon/bin/moon", "/h/.moon/bin/../bin/moon") {
        InstallStep::ReplaceFile { replace_self } => assert!(replace_self),
        _ => panic!("expected a file replacement"),
    }
    match plan_install_step("bin/moonc", "/h/.moon/bin/moonc", "/h/.moon/bin/moon") {
        InstallStep::ReplaceFile { replace_self } => assert!(!replace_self),
        _ => panic!("expected a file replacement"),
    }
}

#[test]
fn rebuild_exit_codes() {
    assert!(rebuild_outcome(Some(0)).is_ok());
    match rebuild_outcome(Some(3)) {
        Err(InstallError::RebuildExit { code }) => assert_eq!(code, 3),
        _ => panic!("expected the non-zero exit error"),
    }
    assert!(matches!(rebuild_outcome(None), Err(InstallError::RebuildNoStatus)));
}

#[test]
fn string_helpers() {
    assert!(str_eq("abc", "abc"));
    assert!(!str_eq("abc", "abd"));
    assert!(str_contains("https://cli.moonbitlang.cn", "moonbitlang.cn"));
    assert!(!str_contains("https://cli.moonbitlang.com", "moonbitlang.cn"));
}
