use ai_cli_apps::text::contains_or_contained;
use ai_cli_apps::tools::ToolVersion;
use ai_cli_apps::versions::{
    all_up_to_date, brew_latest, factory_latest_from_script, github_latest, github_release_url,
    label_width, lookup_plan, merge_latest, npm_latest, npm_registry_url, version_status, Channel,
    LookupResult, VersionStatus,
};

#[test]
fn it_fetches_latest_from_npm_dist_tags() {
    let body = r#"{"dist-tags":{"latest":"0.0.357"}}"#;
    let latest = npm_latest(body);
    assert_eq!(latest.as_deref(), Some("0.0.357"));
}

#[test]
fn npm_latest_none_on_malformed_json() {
    assert!(npm_latest("not json").is_none());
}

#[test]
fn npm_latest_none_without_dist_tags() {
    assert!(npm_latest(r#"{"versions":{}}"#).is_none());
}

#[test]
fn github_latest_reads_tag_name() {
    let body = r#"{"tag_name":"v2.1.0","name":"release"}"#;
    assert_eq!(github_latest(body).as_deref(), Some("v2.1.0"));
}

#[test]
fn github_latest_none_without_tag() {
    assert!(github_latest(r#"{"name":"release"}"#).is_none());
}

#[test]
fn brew_latest_prefers_formula_stable() {
    let body = r#"{"formulae":[{"versions":{"stable":"1.9.0"}}],"casks":[{"version":"2.0.0"}]}"#;
    assert_eq!(brew_latest(body).as_deref(), Some("1.9.0"));
}

#[test]
fn brew_latest_falls_back_to_cask() {
    let body = r#"{"formulae":[],"casks":[{"version":"2.0.0"}]}"#;
    assert_eq!(brew_latest(body).as_deref(), Some("2.0.0"));
}

#[test]
fn brew_latest_cask_when_stable_is_null() {
    let body = r#"{"formulae":[{"versions":{"stable":null}}],"casks":[{"version":"3.1.4"}]}"#;
    assert_eq!(brew_latest(body).as_deref(), Some("3.1.4"));
}

#[test]
fn brew_latest_none_when_both_empty() {
    assert!(brew_latest(r#"{"formulae":[],"casks":[]}"#).is_none());
}

#[test]
fn factory_script_scrape_reads_first_ver_assignment() {
    let script = "#!/bin/sh\n  VER=\"0.18.0\"\nVER=\"9.9.9\"\necho install\n";
    assert_eq!(factory_latest_from_script(script).as_deref(), Some("0.18.0"));
}

#[test]
fn factory_script_scrape_strips_single_quotes() {
    let script = "VER='1.2.3'\n";
    assert_eq!(factory_latest_from_script(script).as_deref(), Some("1.2.3"));
}

#[test]
fn factory_script_scrape_trims_value() {
    let script = "VER=  0.2.0  \n";
    assert_eq!(factory_latest_from_script(script).as_deref(), Some("0.2.0"));
}

#[test]
fn factory_script_scrape_none_without_assignment() {
    assert!(factory_latest_from_script("#!/bin/sh\necho hello\n").is_none());
}

#[test]
fn registry_urls_are_built_exactly() {
    assert_eq!(npm_registry_url("@github/copilot"), "https://registry.npmjs.org/@github/copilot");
    assert_eq!(
        github_release_url("acme/widget"),
        "https://api.github.com/repos/acme/widget/releases/latest"
    );
}

#[test]
fn lookup_plan_covers_catalog_names() {
    let plan = lookup_plan();
    assert_eq!(plan.len(), 2);
    assert_eq!(plan[0].name, "OpenCode");
    match &plan[0].channel {
        Channel::PackageManagerMeta(f) => assert_eq!(f, "opencode"),
        _ => panic!("wrong channel"),
    }
    assert_eq!(plan[1].name, "Factory CLI");
    match &plan[1].channel {
        Channel::VendorScript(u) => assert_eq!(u, "https://app.factory.ai/cli"),
        _ => panic!("wrong channel"),
    }
}

#[test]
fn merge_updates_record_from_registry_response() {
    let body = r#"{"dist-tags":{"latest":"0.0.357"}}"#;
    let mut records = vec![
        ToolVersion::new("Copilot CLI").with_installed(Some("0.0.300".to_string())),
        ToolVersion::new("OpenCode"),
    ];
    let results = vec![LookupResult { name: "Copilot CLI".to_string(), latest: npm_latest(body) }];
    merge_latest(&mut records, &results);
    assert_eq!(records[0].latest.as_deref(), Some("0.0.357"));
    assert_eq!(records[0].installed.as_deref(), Some("0.0.300"));
    assert!(records[1].latest.is_none());
}

#[test]
fn merge_discards_result_for_unknown_name() {
    let mut records = vec![ToolVersion::new("OpenCode")];
    let results = vec![LookupResult {
        name: "No Such Tool".to_string(),
        latest: Some("9.9.9".to_string()),
    }];
    merge_latest(&mut records, &results);
    assert!(records[0].latest.is_none());
    assert_eq!(records[0].name, "OpenCode");
}

#[test]
fn merge_with_failed_lookup_clears_nothing_else() {
    let mut records = vec![ToolVersion::new("Factory CLI").with_installed(Some("1.0".to_string()))];
    let results = vec![LookupResult { name: "Factory CLI".to_string(), latest: None }];
    merge_latest(&mut records, &results);
    assert!(records[0].latest.is_none());
    assert_eq!(records[0].installed.as_deref(), Some("1.0"));
}

#[test]
fn containment_check_matches_both_directions() {
    assert!(contains_or_contained("1.2.3", "1.2.3-beta"));
    assert!(contains_or_contained("1.2.3-beta", "1.2.3"));
}

#[test]
fn containment_check_on_equal_strings() {
    assert!(contains_or_contained("1.2.3", "1.2.3"));
}

#[test]
fn containment_check_rejects_disjoint_versions() {
    assert!(!contains_or_contained("1.2.3", "2.0.0"));
}

#[test]
fn containment_check_keeps_known_substring_quirk() {
    assert!(contains_or_contained("1.2.3", "1.2.30"));
}

#[test]
fn status_current_when_versions_match() {
    let mut tv = ToolVersion::new("OpenCode").with_installed(Some("1.2.3 (build 44)".to_string()));
    tv.latest = Some("1.2.3".to_string());
    match version_status(&tv, true) {
        VersionStatus::Current(v) => assert_eq!(v, "1.2.3 (build 44)"),
        _ => panic!("expected current"),
    }
}

#[test]
fn status_update_available_when_versions_differ() {
    let mut tv = ToolVersion::new("OpenCode").with_installed(Some("1.2.3".to_string()));
    tv.latest = Some("2.0.0".to_string());
    match version_status(&tv, true) {
        VersionStatus::UpdateAvailable(v, l) => {
            assert_eq!(v, "1.2.3");
            assert_eq!(l, "2.0.0");
        }
        _ => panic!("expected update"),
    }
}

#[test]
fn status_current_when_lookup_failed() {
    let tv = ToolVersion::new("OpenCode").with_installed(Some("1.2.3".to_string()));
    match version_status(&tv, true) {
        VersionStatus::Current(v) => assert_eq!(v, "1.2.3"),
        _ => panic!("a missing remote result never reports an update"),
    }
}

#[test]
fn status_not_installed_carries_latest_when_wanted() {
    let mut tv = ToolVersion::new("OpenCode");
    tv.latest = Some("2.0.0".to_string());
    match version_status(&tv, true) {
        VersionStatus::NotInstalled(l) => assert_eq!(l.as_deref(), Some("2.0.0")),
        _ => panic!("expected not installed"),
    }
    match version_status(&tv, false) {
        VersionStatus::NotInstalled(l) => assert!(l.is_none()),
        _ => panic!("expected not installed"),
    }
}

#[test]
fn all_up_to_date_tolerates_missing_versions() {
    let records = vec![ToolVersion::new("A"), ToolVersion::new("B")];
    assert!(all_up_to_date(&records));
}

#[test]
fn all_up_to_date_spots_an_outdated_tool() {
    let mut a = ToolVersion::new("A").with_installed(Some("1.0".to_string()));
    a.latest = Some("1.0".to_string());
    let mut b = ToolVersion::new("B").with_installed(Some("1.0".to_string()));
    b.latest = Some("2.0".to_string());
    assert!(!all_up_to_date(&vec![a, b]));
}

#[test]
fn label_width_is_longest_name() {
    let records = vec![ToolVersion::new("OpenCode"), ToolVersion::new("Factory CLI")];
    assert_eq!(label_width(&records), "Factory CLI".len());
    assert_eq!(label_width(&Vec::new()), 0);
}

#[test]
fn failed_lookup_for_one_tool_does_not_affect_another() {
    let mut records = vec![ToolVersion::new("OpenCode"), ToolVersion::new("Factory CLI")];
    let results = vec![
        LookupResult { name: "OpenCode".to_string(), latest: None },
        LookupResult { name: "Factory CLI".to_string(), latest: Some("0.18.0".to_string()) },
    ];
    merge_latest(&mut records, &results);
    assert!(records[0].latest.is_none());
    assert_eq!(records[1].latest.as_deref(), Some("0.18.0"));
}

#[test]
fn partition_splits_records_in_order() {
    let a = ToolVersion::new("A").with_installed(Some("1".to_string()));
    let b = ToolVersion::new("B");
    let c = ToolVersion::new("C").with_installed(Some("3".to_string()));
    let (yes, no) = ai_cli_apps::versions::partition_by_installed(&vec![a, b, c]);
    let yes_names: Vec<&str> = yes.iter().map(|t| t.name.as_str()).collect();
    let no_names: Vec<&str> = no.iter().map(|t| t.name.as_str()).collect();
    assert_eq!(yes_names, vec!["A", "C"]);
    assert_eq!(no_names, vec!["B"]);
}
