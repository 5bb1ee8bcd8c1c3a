use sys_kaleido::helper::{
    get_file_name, get_installed_package, installed_version, normalize_hardlink_lines,
    InstalledPackage,
};
use sys_kaleido::kaleido::Package;
use sys_kaleido::uninstall::{is_link_targeted, select_links_to_remove};

fn package(name: &str) -> Package {
    Package {
        name: name.to_string(),
        url: String::new(),
        description: None,
        version: None,
        replace: None,
        language: Some("rust".to_string()),
        bin_name: name.to_string(),
        bin_path: None,
        remote_file_prefix: None,
        github: None,
    }
}

#[test]
fn test_get_file_name_cases() {
    assert_eq!(get_file_name("a/b/c"), Some("c".to_string()));
    assert_eq!(get_file_name("a/b/"), Some("b".to_string()));
    assert_eq!(get_file_name("c"), Some("c".to_string()));
    assert_eq!(get_file_name("/"), None);
    assert_eq!(get_file_name("a/.."), None);
    assert_eq!(get_file_name("."), None);
}

#[test]
fn test_get_installed_package_traces_target() {
    let packages = vec![package("foo"), package("bar")];
    let found = get_installed_package(
        "/home/u/.sys-kaleido/packages/foo/1.2.0/foo",
        "/home/u/.sys-kaleido/packages",
        &packages,
    )
    .unwrap();
    assert_eq!(found.package.name, "foo");
    assert_eq!(found.version, "1.2.0");
}

#[test]
fn test_get_installed_package_rejects_foreign_targets() {
    let packages = vec![package("foo")];
    assert!(get_installed_package(
        "/elsewhere/packages/foo/1.0/foo",
        "/home/u/.sys-kaleido/packages",
        &packages
    )
    .is_none());
    assert!(get_installed_package(
        "/home/u/.sys-kaleido/packages/ghost/1.0/ghost",
        "/home/u/.sys-kaleido/packages",
        &packages
    )
    .is_none());
    assert!(get_installed_package(
        "/home/u/.sys-kaleido/packages",
        "/home/u/.sys-kaleido/packages",
        &packages
    )
    .is_none());
}

#[test]
fn test_installed_version_first_match() {
    let installed = vec![
        InstalledPackage { package: package("foo"), version: "1.0".to_string() },
        InstalledPackage { package: package("foo"), version: "2.0".to_string() },
    ];
    assert_eq!(installed_version(&installed, "foo"), Some("1.0".to_string()));
    assert_eq!(installed_version(&installed, "bar"), None);
}

#[test]
fn test_normalize_hardlink_lines() {
    let lines = vec![
        "\\Users\\u\\.sys-kaleido\\bin\\tool\r\n".to_string(),
        "C:\\Users\\u\\.sys-kaleido\\packages\\foo\\1.0\\tool\r\n".to_string(),
    ];
    let normalized = normalize_hardlink_lines(&lines, "C:");
    assert_eq!(normalized[0], "C:\\Users\\u\\.sys-kaleido\\bin\\tool");
    assert_eq!(normalized[1], "C:\\Users\\u\\.sys-kaleido\\packages\\foo\\1.0\\tool");
}

#[test]
fn test_hardlink_uninstall_isolation() {
    let packages_dir = "C:/home/.sys-kaleido/packages";
    let bin_dir = "C:/home/.sys-kaleido/bin";
    let alias_dir = "C:/home/.sys-kaleido/alias";
    let targets = vec!["C:/home/.sys-kaleido/packages/foo".to_string()];

    // the entry hardlinked into foo's directory is swept
    let foo_links = vec![
        "C:/home/.sys-kaleido/bin/foo".to_string(),
        "C:/home/.sys-kaleido/packages/foo/1.0/foo".to_string(),
    ];
    let removed = select_links_to_remove(&foo_links, packages_dir, &targets, bin_dir, alias_dir);
    assert_eq!(removed, vec!["C:/home/.sys-kaleido/bin/foo".to_string()]);

    // the sibling entry hardlinked into bar's directory is untouched
    let bar_links = vec![
        "C:/home/.sys-kaleido/bin/bar".to_string(),
        "C:/home/.sys-kaleido/packages/bar/1.0/bar".to_string(),
    ];
    let untouched = select_links_to_remove(&bar_links, packages_dir, &targets, bin_dir, alias_dir);
    assert!(untouched.is_empty());
}

#[test]
fn test_link_target_prefix_is_segment_wise() {
    let targets = vec!["/p/packages/foo".to_string()];
    assert!(is_link_targeted("/p/packages/foo/1.0/foo", "/p/packages", &targets));
    assert!(!is_link_targeted("/p/packages/foobar/1.0/foobar", "/p/packages", &targets));
    assert!(!is_link_targeted("/p/elsewhere/foo/1.0/foo", "/p/packages", &targets));
}
