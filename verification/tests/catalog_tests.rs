use sys_kaleido::bindle::get_packages;
use sys_kaleido::search::package_matches_keyword;
use sys_kaleido::execute::{plan_batch, plan_request, InstallRequest, RequestPlan, LATEST_VERSION};
use sys_kaleido::kaleido::{load_config, lookup_package, Bindle, BindlePackage, Kaleido, Package};

fn package(name: &str, language: Option<&str>) -> Package {
    Package {
        name: name.to_string(),
        url: format!("https://example.invalid/{}", name),
        description: None,
        version: None,
        replace: None,
        language: language.map(|l| l.to_string()),
        bin_name: name.to_string(),
        bin_path: None,
        remote_file_prefix: None,
        github: None,
    }
}

fn request(name: &str) -> InstallRequest {
    InstallRequest { name: name.to_string(), alias: None, version: None }
}

#[test]
fn test_latest_version_sentinel() {
    assert_eq!(LATEST_VERSION, "LATEST");
}

#[test]
fn test_load_config_without_custom() {
    let sys = Kaleido { packages: vec![package("a", None)], bindles: vec![] };
    let merged = load_config(sys, None);
    assert_eq!(merged.packages.len(), 1);
    assert_eq!(merged.packages[0].name, "a");
}

#[test]
fn test_load_config_appends_custom_entries() {
    let sys = Kaleido {
        packages: vec![package("a", None)],
        bindles: vec![Bindle { name: "base".to_string(), packages: vec![] }],
    };
    let custom = Kaleido {
        packages: vec![package("a", Some("rust")), package("b", None)],
        bindles: vec![Bindle { name: "extra".to_string(), packages: vec![] }],
    };
    let merged = load_config(sys, Some(custom));
    assert_eq!(merged.packages.len(), 3);
    assert_eq!(merged.bindles.len(), 2);
    assert_eq!(merged.packages[0].name, "a");
    assert_eq!(merged.packages[1].name, "a");
    assert_eq!(merged.packages[2].name, "b");
    // the system entry stays first, so a first-match lookup still finds it
    let hit = lookup_package(&merged.packages, "a").unwrap();
    assert!(hit.language.is_none());
}

#[test]
fn test_lookup_package_miss() {
    let packages = vec![package("a", None)];
    assert!(lookup_package(&packages, "zz").is_none());
}

#[test]
fn test_plan_request_language_gate() {
    let kaleido = Kaleido {
        packages: vec![
            package("r1", Some("rust")),
            package("r2", Some("RUST")),
            package("g", Some("go")),
            package("plain", None),
        ],
        bindles: vec![],
    };
    assert!(matches!(plan_request(&kaleido, &request("r1")), RequestPlan::Proceed(_)));
    assert!(matches!(plan_request(&kaleido, &request("r2")), RequestPlan::Proceed(_)));
    assert!(matches!(
        plan_request(&kaleido, &request("g")),
        RequestPlan::UnsupportedEcosystem
    ));
    assert!(matches!(plan_request(&kaleido, &request("plain")), RequestPlan::NoEcosystem));
    assert!(matches!(plan_request(&kaleido, &request("nope")), RequestPlan::UnknownPackage));
}

#[test]
fn test_batch_independence() {
    let kaleido = Kaleido { packages: vec![package("valid-pkg", Some("rust"))], bindles: vec![] };
    let requests = vec![request("missing-pkg"), request("valid-pkg")];
    let plans = plan_batch(&kaleido, &requests);
    assert_eq!(plans.len(), 2);
    assert!(matches!(plans[0], RequestPlan::UnknownPackage));
    match &plans[1] {
        RequestPlan::Proceed(p) => assert_eq!(p.name, "valid-pkg"),
        _ => panic!("the missing sibling must not disturb the valid request"),
    }
}

#[test]
fn test_get_packages_expands_bindle_and_reports_missing() {
    let kaleido = Kaleido {
        packages: vec![package("a", Some("rust")), package("b", Some("rust"))],
        bindles: vec![Bindle {
            name: "tools".to_string(),
            packages: vec![
                BindlePackage { name: "a".to_string(), alias: Some("aa".to_string()) },
                BindlePackage { name: "ghost".to_string(), alias: None },
                BindlePackage { name: "b".to_string(), alias: None },
            ],
        }],
    };
    let (requests, missing) = get_packages("tools", &kaleido).unwrap();
    assert_eq!(requests.len(), 2);
    assert_eq!(requests[0].name, "a");
    assert_eq!(requests[0].alias.as_deref(), Some("aa"));
    assert!(requests[0].version.is_none());
    assert_eq!(requests[1].name, "b");
    assert_eq!(missing, vec!["ghost".to_string()]);
}

#[test]
fn test_search_matches_name_or_replaced_tool() {
    let mut p = package("ripgrep", Some("rust"));
    p.replace = Some("grep".to_string());
    assert!(package_matches_keyword(&p, "rip"));
    assert!(package_matches_keyword(&p, "grep"));
    assert!(package_matches_keyword(&p, ""));
    assert!(!package_matches_keyword(&p, "find"));
    let bare = package("fd", None);
    assert!(!package_matches_keyword(&bare, "grep"));
}

#[test]
fn test_get_packages_unknown_bindle() {
    let kaleido = Kaleido { packages: vec![], bindles: vec![] };
    assert!(get_packages("tools", &kaleido).is_none());
}
