use sys_kaleido::execute::InstallRequest;
use sys_kaleido::fs::AppDir;
use sys_kaleido::install::{resolve_plan, AppAsset, AppRelease, InstallError, InstallerContext};
use sys_kaleido::kaleido::{Github, Package};
use sys_kaleido::rust_bin_installer::{
    resolved_event, InstallAction, InstallEnv, InstallEvent, InstallState, RustBinInstaller,
};

fn env(force: bool, alias: Option<&str>) -> InstallEnv {
    InstallEnv {
        package: Package {
            name: "tool".to_string(),
            url: String::new(),
            description: None,
            version: None,
            replace: None,
            language: Some("rust".to_string()),
            bin_name: "tool".to_string(),
            bin_path: None,
            remote_file_prefix: None,
            github: None,
        },
        request: InstallRequest {
            name: "tool".to_string(),
            alias: alias.map(|a| a.to_string()),
            version: None,
        },
        app_dir: AppDir::new("/home/u"),
        context: InstallerContext { rust_abi: "gnu".to_string(), force },
        exe_ext: String::new(),
    }
}

fn release(assets: Vec<AppAsset>, source_url: Option<&str>) -> AppRelease {
    AppRelease {
        version: "v1.0".to_string(),
        source_url: source_url.map(|u| u.to_string()),
        assets,
    }
}

fn archive_asset() -> AppAsset {
    AppAsset {
        name: "tool-x86_64-unknown-linux-gnu.tar.gz".to_string(),
        download_url: "https://example.invalid/tool.tar.gz".to_string(),
    }
}

#[test]
fn test_skip_when_already_installed() {
    let machine = RustBinInstaller::new();
    let e = env(false, None);
    let ev = InstallEvent::Resolved {
        release: release(vec![archive_asset()], None),
        dir_exists: true,
        bin_exists: true,
    };
    let (next, action) = machine.install_step(&e, &InstallState::Resolving, &ev);
    assert!(matches!(next, InstallState::Skipped));
    assert!(matches!(action, InstallAction::NoAction));
}

#[test]
fn test_force_wipes_and_downloads_again() {
    let machine = RustBinInstaller::new();
    let e = env(true, None);
    let ev = InstallEvent::Resolved {
        release: release(vec![archive_asset()], None),
        dir_exists: true,
        bin_exists: true,
    };
    let (next, action) = machine.install_step(&e, &InstallState::Resolving, &ev);
    assert!(matches!(next, InstallState::Downloading { .. }));
    match action {
        InstallAction::Download { url, dest, wipe_dir } => {
            assert_eq!(url, "https://example.invalid/tool.tar.gz");
            assert_eq!(
                dest,
                "/home/u/.sys-kaleido/tmp/tool-x86_64-unknown-linux-gnu.tar.gz"
            );
            assert_eq!(
                wipe_dir.as_deref(),
                Some("/home/u/.sys-kaleido/packages/tool/v1.0")
            );
        }
        _ => panic!("expected a download action"),
    }
}

#[test]
fn test_binary_install_walk() {
    let machine = RustBinInstaller::new();
    let e = env(false, Some("t"));
    let (s1, a1) = machine.install_step(
        &e,
        &InstallState::Resolving,
        &InstallEvent::Resolved {
            release: release(vec![archive_asset()], None),
            dir_exists: false,
            bin_exists: false,
        },
    );
    assert!(matches!(s1, InstallState::Downloading { .. }));
    match &a1 {
        InstallAction::Download { wipe_dir, .. } => assert!(wipe_dir.is_none()),
        _ => panic!("expected a download action"),
    }

    let (s2, a2) = machine.install_step(&e, &s1, &InstallEvent::Downloaded);
    assert!(matches!(s2, InstallState::Extracting { .. }));
    match &a2 {
        InstallAction::Extract { archive, dest, create_dir } => {
            assert_eq!(
                archive,
                "/home/u/.sys-kaleido/tmp/tool-x86_64-unknown-linux-gnu.tar.gz"
            );
            assert_eq!(dest, "/home/u/.sys-kaleido/tmp");
            assert_eq!(create_dir, "/home/u/.sys-kaleido/packages/tool/v1.0");
        }
        _ => panic!("expected an extract action"),
    }

    let (s3, a3) = machine.install_step(
        &e,
        &s2,
        &InstallEvent::Extracted { folder: Some("tool-1.0".to_string()) },
    );
    assert!(matches!(s3, InstallState::Placing { .. }));
    match &a3 {
        InstallAction::CopyBinary { from, to, create_dir, wipe_dir } => {
            assert_eq!(from, "/home/u/.sys-kaleido/tmp/tool-1.0/tool");
            assert_eq!(to, "/home/u/.sys-kaleido/packages/tool/v1.0/tool");
            assert_eq!(create_dir, "/home/u/.sys-kaleido/packages/tool/v1.0");
            assert!(wipe_dir.is_none());
        }
        _ => panic!("expected a copy action"),
    }

    let (s4, a4) = machine.install_step(&e, &s3, &InstallEvent::Placed);
    assert!(matches!(s4, InstallState::Linking { .. }));
    match &a4 {
        InstallAction::MakeLinks { bin_link, alias_link, target } => {
            assert_eq!(bin_link, "/home/u/.sys-kaleido/bin/tool");
            assert_eq!(alias_link.as_deref(), Some("/home/u/.sys-kaleido/alias/t"));
            assert_eq!(target, "/home/u/.sys-kaleido/packages/tool/v1.0/tool");
        }
        _ => panic!("expected a link action"),
    }

    let (s5, a5) = machine.install_step(&e, &s4, &InstallEvent::Linked);
    assert!(matches!(s5, InstallState::Done { .. }));
    match &a5 {
        InstallAction::CleanupWorkspace { dir } => assert_eq!(dir, "/home/u/.sys-kaleido/tmp"),
        _ => panic!("expected a cleanup action"),
    }
}

#[test]
fn test_exe_extension_paths() {
    let machine = RustBinInstaller::new();
    let mut e = env(false, None);
    e.exe_ext = "exe".to_string();
    let asset = AppAsset {
        name: "tool-x86_64-pc-windows-msvc.exe".to_string(),
        download_url: "u".to_string(),
    };
    let (s1, _) = machine.install_step(
        &e,
        &InstallState::Resolving,
        &InstallEvent::Resolved {
            release: release(vec![asset], None),
            dir_exists: false,
            bin_exists: false,
        },
    );
    let (s2, a2) = machine.install_step(&e, &s1, &InstallEvent::Downloaded);
    assert!(matches!(s2, InstallState::Placing { .. }));
    match &a2 {
        InstallAction::CopyBinary { from, to, .. } => {
            assert_eq!(from, "/home/u/.sys-kaleido/tmp/tool-x86_64-pc-windows-msvc.exe");
            assert_eq!(to, "/home/u/.sys-kaleido/packages/tool/v1.0/tool.exe");
        }
        _ => panic!("expected a copy action"),
    }
}

#[test]
fn test_unknown_archive_kind_fails_request() {
    let machine = RustBinInstaller::new();
    let e = env(false, None);
    let asset = AppAsset { name: "tool.rar".to_string(), download_url: "u".to_string() };
    let (s1, _) = machine.install_step(
        &e,
        &InstallState::Resolving,
        &InstallEvent::Resolved {
            release: release(vec![asset], None),
            dir_exists: false,
            bin_exists: false,
        },
    );
    let (s2, a2) = machine.install_step(&e, &s1, &InstallEvent::Downloaded);
    match s2 {
        InstallState::Failed { error } => {
            assert!(matches!(error, InstallError::GeneralStr("unsupported file type")))
        }
        _ => panic!("expected the request to fail"),
    }
    assert!(matches!(a2, InstallAction::NoAction));
}

#[test]
fn test_source_build_branch() {
    let machine = RustBinInstaller::new();
    let e = env(false, None);
    let (s1, a1) = machine.install_step(
        &e,
        &InstallState::Resolving,
        &InstallEvent::Resolved {
            release: release(vec![], Some("https://example.invalid/src.zip")),
            dir_exists: false,
            bin_exists: false,
        },
    );
    assert!(matches!(s1, InstallState::PromptSourceBuild { .. }));
    assert!(matches!(a1, InstallAction::AskConfirm));

    let (s2, a2) = machine.install_step(&e, &s1, &InstallEvent::Confirmed { yes: true });
    assert!(matches!(s2, InstallState::Downloading { .. }));
    match &a2 {
        InstallAction::Download { url, dest, wipe_dir } => {
            assert_eq!(url, "https://example.invalid/src.zip");
            assert_eq!(dest, "/home/u/.sys-kaleido/tmp/v1.0.zip");
            assert_eq!(wipe_dir.as_deref(), Some("/home/u/.sys-kaleido/tmp/tool"));
        }
        _ => panic!("expected a download action"),
    }

    let (s3, a3) = machine.install_step(&e, &s2, &InstallEvent::Downloaded);
    assert!(matches!(s3, InstallState::Extracting { .. }));
    match &a3 {
        InstallAction::Extract { dest, .. } => assert_eq!(dest, "/home/u/.sys-kaleido/tmp/tool"),
        _ => panic!("expected an extract action"),
    }

    let (s4, a4) = machine.install_step(
        &e,
        &s3,
        &InstallEvent::Extracted { folder: Some("tool-main".to_string()) },
    );
    assert!(matches!(s4, InstallState::BuildingFromSource { .. }));
    match &a4 {
        InstallAction::RunBuild { dir } => {
            assert_eq!(dir, "/home/u/.sys-kaleido/tmp/tool/tool-main")
        }
        _ => panic!("expected a build action"),
    }

    let (s5, a5) = machine.install_step(&e, &s4, &InstallEvent::Built);
    assert!(matches!(s5, InstallState::Placing { .. }));
    match &a5 {
        InstallAction::CopyBinary { from, wipe_dir, .. } => {
            assert_eq!(from, "/home/u/.sys-kaleido/tmp/tool/tool-main/target/release/tool");
            assert_eq!(
                wipe_dir.as_deref(),
                Some("/home/u/.sys-kaleido/packages/tool/v1.0")
            );
        }
        _ => panic!("expected a copy action"),
    }
}

#[test]
fn test_declined_source_build_installs_nothing() {
    let machine = RustBinInstaller::new();
    let e = env(false, None);
    let (s1, _) = machine.install_step(
        &e,
        &InstallState::Resolving,
        &InstallEvent::Resolved {
            release: release(vec![], Some("https://example.invalid/src.zip")),
            dir_exists: false,
            bin_exists: false,
        },
    );
    let (s2, a2) = machine.install_step(&e, &s1, &InstallEvent::Confirmed { yes: false });
    assert!(matches!(s2, InstallState::Skipped));
    assert!(matches!(a2, InstallAction::NoAction));
}

#[test]
fn test_no_asset_and_no_source_fails() {
    let machine = RustBinInstaller::new();
    let e = env(false, None);
    let (s1, _) = machine.install_step(
        &e,
        &InstallState::Resolving,
        &InstallEvent::Resolved {
            release: release(vec![], None),
            dir_exists: false,
            bin_exists: false,
        },
    );
    assert!(matches!(s1, InstallState::Failed { .. }));
}

#[test]
fn test_step_failure_carries_error() {
    let machine = RustBinInstaller::new();
    let e = env(false, None);
    let state = InstallState::Placing { version: "v1.0".to_string() };
    let ev = InstallEvent::StepFailed { error: InstallError::FileSystem("disk full".to_string()) };
    let (next, _) = machine.install_step(&e, &state, &ev);
    match next {
        InstallState::Failed { error } => match error {
            InstallError::FileSystem(m) => assert_eq!(m, "disk full"),
            _ => panic!("expected the filesystem error to be kept"),
        },
        _ => panic!("expected the request to fail"),
    }
}

#[test]
fn test_resolve_plan_defaults_and_errors() {
    let mut e = env(false, None);
    match resolve_plan(&e.package, &e.request) {
        Err(InstallError::GeneralStr(m)) => {
            assert_eq!(m, "currently only support to install from github.com")
        }
        _ => panic!("a package without repository coordinates must fail alone"),
    }
    e.package.github = Some(Github { org: "o".to_string(), repo: "r".to_string() });
    let (g, v) = resolve_plan(&e.package, &e.request).unwrap();
    assert_eq!(g.org, "o");
    assert_eq!(g.repo, "r");
    assert_eq!(v, "LATEST");
    e.request.version = Some("1.2.0".to_string());
    let (_, v2) = resolve_plan(&e.package, &e.request).unwrap();
    assert_eq!(v2, "1.2.0");
}

#[test]
fn test_resolved_event_maps_missing_release() {
    match resolved_event(None, false, false) {
        InstallEvent::ResolveFailed { error: InstallError::GeneralStr(m) } => {
            assert_eq!(m, "cannot find appropriate release")
        }
        _ => panic!("a missing release must fail the request"),
    }
    match resolved_event(Some(release(vec![], None)), true, false) {
        InstallEvent::Resolved { dir_exists, bin_exists, release } => {
            assert!(dir_exists);
            assert!(!bin_exists);
            assert_eq!(release.version, "v1.0");
        }
        _ => panic!("an answered release must reach the machine"),
    }
}
