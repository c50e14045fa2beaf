use phi_launcher::download::{
    is_exe_extension, is_relevant_asset, is_windows_asset, is_zip_archive, exe_rank, exe_score,
    latest_windows_assets, pick_executable, sanitize, windows_asset_rule, windows_assets,
    DownloadManager, LatestError, LocalVersion, EXE_SEARCH_DEPTH,
};
use phi_launcher::download::{download_failure_message, release_list_failure_message};
use phi_launcher::github::{Asset, Release};
use phi_launcher::path::FsPath;
use phi_launcher::table::Status;

fn base() -> FsPath {
    FsPath { parts: vec!["/home/u/launcher".to_string()] }
}

fn parts(p: &FsPath) -> Vec<&str> {
    p.parts.iter().map(|s| s.as_str()).collect()
}

fn local(repo: &str, tag: &str) -> LocalVersion {
    LocalVersion { repo: repo.to_string(), tag: tag.to_string(), name: None, exe_path: format!("C:/{tag}.exe") }
}

fn asset(name: &str) -> Asset {
    Asset { name: name.to_string(), download_url: format!("https://x/{name}"), size: 1 }
}

fn release(tag: &str, assets: Vec<Asset>) -> Release {
    Release { name: None, tag_name: tag.to_string(), published_at: None, prerelease: false, body: None, assets }
}

#[test]
fn sanitize_replaces_reserved_chars() {
    assert_eq!(sanitize(r#"a/b\c:d*e?f"g<h>i|j"#), "a_b_c_d_e_f_g_h_i_j");
    assert_eq!(sanitize("v1.0 测试"), "v1.0 测试");
    assert_eq!(sanitize(&sanitize("x:y")), sanitize("x:y"));
}

#[test]
fn key_joins_with_bars() {
    assert_eq!(DownloadManager::key("phira", "v0.6.5", "Phira-windows.zip"), "phira|v0.6.5|Phira-windows.zip");
    assert_eq!(DownloadManager::key("", "", ""), "||");
}

#[test]
fn install_dir_and_asset_path() {
    let dm = DownloadManager::new(base(), None);
    assert_eq!(parts(&dm.install_dir("Phi-Recorder", "v1/2")), vec!["/home/u/launcher", "versions", "Phi-Recorder", "v1_2"]);
    assert_eq!(
        parts(&dm.asset_path("phira", "v1", "a:b.exe")),
        vec!["/home/u/launcher", "versions", "phira", "v1", "a_b.exe"]
    );
    assert_eq!(parts(&dm.local_config_path()), vec!["/home/u/launcher", "config", "local_versions.json"]);
    assert_eq!(parts(&DownloadManager::local_config_file(&base())), vec!["/home/u/launcher", "config", "local_versions.json"]);
}

#[test]
fn start_queues_once() {
    let mut dm = DownloadManager::new(base(), None);
    let k = DownloadManager::key("phira", "v1", "a.exe");
    assert!(dm.status(&k).is_none());
    assert!(dm.start("phira", "v1", "a.exe", false));
    assert!(matches!(dm.status(&k), Some(Status::Queued)));
    // A second start while queued launches nothing.
    assert!(!dm.start("phira", "v1", "a.exe", false));
    dm.set_status(&k, Status::Downloading { received: 10, total: 100 });
    assert!(matches!(dm.status(&k), Some(Status::Downloading { received: 10, total: 100 })));
    assert!(!dm.start("phira", "v1", "a.exe", false));
    dm.set_status(&k, Status::Extracting);
    assert!(!dm.start("phira", "v1", "a.exe", false));
}

#[test]
fn start_on_existing_file_records_installed() {
    let mut dm = DownloadManager::new(base(), None);
    assert!(!dm.start("phira", "v1", "a.exe", true));
    match dm.status("phira|v1|a.exe") {
        Some(Status::Installed(p)) => assert_eq!(parts(&p), vec!["/home/u/launcher", "versions", "phira", "v1"]),
        _ => panic!("expected installed"),
    }
}

#[test]
fn finish_then_retry_after_failure() {
    let mut dm = DownloadManager::new(base(), None);
    let k = DownloadManager::key("phira", "v1", "a.zip");
    assert!(dm.start("phira", "v1", "a.zip", false));
    dm.finish("phira", "v1", "a.zip", Err("下载失败".to_string()));
    match dm.status(&k) {
        Some(Status::Failed(m)) => assert_eq!(m, "下载失败"),
        _ => panic!("expected failure"),
    }
    // A failed download may be started again.
    assert!(dm.start("phira", "v1", "a.zip", false));
    dm.finish("phira", "v1", "a.zip", Ok(()));
    match dm.status(&k) {
        Some(Status::Installed(p)) => assert_eq!(p.parts, dm.install_dir("phira", "v1").parts),
        _ => panic!("expected installed"),
    }
}

#[test]
fn set_status_ignores_unknown_keys() {
    let mut dm = DownloadManager::new(base(), None);
    dm.set_status("nope|x|y", Status::Extracting);
    assert!(dm.status("nope|x|y").is_none());
}

#[test]
fn uninstall_asset_forgets_one() {
    let mut dm = DownloadManager::new(base(), None);
    dm.start("phira", "v1", "a.exe", false);
    dm.start("phira", "v1", "b.zip", false);
    dm.uninstall_asset("phira", "v1", "a.exe");
    assert!(dm.status("phira|v1|a.exe").is_none());
    assert!(dm.status("phira|v1|b.zip").is_some());
    // A late progress report does not bring the record back.
    dm.set_status("phira|v1|a.exe", Status::Downloading { received: 1, total: 2 });
    assert!(dm.status("phira|v1|a.exe").is_none());
}

#[test]
fn uninstall_forgets_the_version() {
    let mut dm = DownloadManager::new(base(), None);
    dm.start("phira", "v1", "a.exe", false);
    dm.start("phira", "v1", "b.zip", false);
    dm.start("phira", "v10", "a.exe", false);
    dm.start("other", "v1", "a.exe", false);
    dm.uninstall("phira", "v1");
    assert!(dm.status("phira|v1|a.exe").is_none());
    assert!(dm.status("phira|v1|b.zip").is_none());
    assert!(dm.status("phira|v10|a.exe").is_some());
    assert!(dm.status("other|v1|a.exe").is_some());
}

#[test]
fn local_versions_add_list_remove() {
    let mut dm = DownloadManager::new(base(), Some(vec![local("phira", "v1")]));
    dm.add_local(local("other", "x"));
    dm.add_local(local("phira", "v2"));
    dm.add_local(local("phira", "v1"));
    let tags: Vec<&str> = dm.local_versions("phira").iter().map(|v| v.tag.as_str()).collect();
    assert_eq!(tags, vec!["v1", "v2", "v1"]);
    dm.remove_local("phira", "v1");
    let tags: Vec<&str> = dm.local_versions("phira").iter().map(|v| v.tag.as_str()).collect();
    assert_eq!(tags, vec!["v2"]);
    assert_eq!(dm.local_versions("other").len(), 1);
    assert!(dm.local_versions("none").is_empty());
}

#[test]
fn new_without_loaded_list_is_empty() {
    let dm = DownloadManager::new(base(), None);
    assert!(dm.local_versions("phira").is_empty());
}

#[test]
fn local_version_from_pick_and_display_name() {
    let v = LocalVersion::from_picked("phira", Some("Phira"), Some("Phira.exe"), "D:/g/Phira.exe");
    assert_eq!(v.tag, "Phira");
    assert_eq!(v.name.as_deref(), Some("Phira.exe"));
    assert_eq!(v.display_name(), "Phira.exe");
    let w = LocalVersion::from_picked("phira", None, None, "D:/");
    assert_eq!(w.tag, "本地版本");
    assert_eq!(w.name.as_deref(), Some("本地版本"));
    assert_eq!(local("phira", "v9").display_name(), "v9");
}

#[test]
fn windows_asset_filter() {
    assert!(is_windows_asset("Phira-0.6.5-x86_64-pc-windows-msvc.zip"));
    assert!(is_windows_asset("Setup.EXE"));
    assert!(is_windows_asset("phira_WIN64.7Z"));
    assert!(!is_windows_asset("phira-linux.zip"));
    assert!(!is_windows_asset("phira.apk"));
    assert!(!is_windows_asset("Phira.IPA"));
    assert!(!is_windows_asset("phira.dmg"));
    assert!(!is_windows_asset("phira.deb"));
    assert!(!is_windows_asset("README.md"));
    assert!(!is_windows_asset("win.tar.gz"));
    assert!(is_relevant_asset("a.exe"));
    assert!(!is_relevant_asset("a.apk"));
    assert!(windows_asset_rule("x-windows.zip"));
    assert!(!windows_asset_rule("X-WINDOWS.ZIP"));
}

#[test]
fn zip_and_exe_extension() {
    assert!(is_zip_archive("a.ZIP"));
    assert!(!is_zip_archive("a.zip.exe"));
    assert!(is_exe_extension("exe"));
    assert!(is_exe_extension("ExE"));
    assert!(!is_exe_extension("exe "));
    assert!(!is_exe_extension("ex"));
    assert_eq!(EXE_SEARCH_DEPTH, 4);
}

#[test]
fn exe_scores() {
    assert_eq!(exe_score("game.exe"), 100);
    assert_eq!(exe_score("phira.exe"), 60);
    assert_eq!(exe_score("unins000.exe"), 200);
    assert_eq!(exe_score("uninstall.exe"), 230);
    assert_eq!(exe_score("phira-setup.exe"), 90);
}

#[test]
fn pick_executable_prefers_phi_and_first_on_ties() {
    let names = |v: &[&str]| v.iter().map(|s| s.to_string()).collect::<Vec<_>>();
    assert_eq!(pick_executable(&names(&[])), None);
    assert_eq!(pick_executable(&names(&["unins000.exe", "Phira.exe", "setup.exe"])), Some(1));
    assert_eq!(pick_executable(&names(&["a.exe", "b.exe"])), Some(0));
    assert_eq!(pick_executable(&names(&["Installer.exe", "tool.exe", "PHI.EXE"])), Some(2));
}

#[test]
fn latest_release_plan() {
    assert!(matches!(latest_windows_assets(&vec![]), Err(LatestError::NoRelease)));
    let none = release("v2", vec![asset("a.apk"), asset("b.dmg")]);
    assert!(matches!(latest_windows_assets(&vec![none]), Err(LatestError::NoWindowsAsset)));
    let r = release("v3", vec![asset("a.apk"), asset("x.exe"), asset("y-win.zip")]);
    let old = release("v1", vec![asset("old.exe")]);
    assert_eq!(latest_windows_assets(&vec![r, old]).ok(), Some(vec![1, 2]));
    assert_eq!(windows_assets(&vec![asset("k.deb"), asset("z.EXE")]), vec![1]);
    assert_eq!(LatestError::NoRelease.message(), "没有找到任何 Release");
    assert_eq!(LatestError::NoWindowsAsset.message(), "当前版本没有 Windows 资产");
}

#[test]
fn transfer_failure_messages() {
    assert_eq!(download_failure_message("404 Not Found"), "下载失败，状态码 404 Not Found");
    assert_eq!(
        release_list_failure_message("500 Internal Server Error"),
        "GitHub API 请求失败，状态码 500 Internal Server Error"
    );
}

#[test]
fn pick_executable_skips_installers() {
    let names = |v: &[&str]| v.iter().map(|s| s.to_string()).collect::<Vec<String>>();
    assert_eq!(pick_executable(&names(&["Phi_Setup.exe", "game.exe"])), Some(1));
    assert_eq!(pick_executable(&names(&["phira-installer.exe", "tool.exe", "phira.exe"])), Some(2));
    assert_eq!(pick_executable(&names(&["unins000.exe", "setup.exe"])), Some(1));
    assert_eq!(exe_rank("game.exe"), 100);
    assert_eq!(exe_rank("phi_setup.exe"), 1090);
    assert_eq!(exe_rank("unins000.exe"), 1200);
}
