use brim::models::{BrewPackage, BrewPackageResult};
use brim::sync_analysis;
use brim::utilities::brew_common::{
    brew_package_spec, dry_run_groups, header_lines, is_marked_installed, merge_packages,
    split_url_args, RecipeMerge,
};
use brim::utilities::brew_fetch_packages::{
    accept_local_recipe, http_status_error, invalid_source_error, is_local_path, is_valid_version,
    validate_packages, FetchError,
};
use brim::webhook::{choose_machine_id, default_machine_id, webhook_payload, WebhookPayload};

fn pkg(name: &str) -> BrewPackage {
    BrewPackage {
        name: name.to_string(),
        category: None,
        url: None,
        cask: None,
        version: None,
    }
}

fn validate_version(version: &str) -> Result<(), FetchError> {
    let packages = vec![BrewPackage {
        name: "test-pkg".to_string(),
        category: None,
        url: None,
        cask: None,
        version: Some(version.to_string()),
    }];
    validate_packages(&packages)
}

fn invalid_message(r: Result<(), FetchError>) -> String {
    match r {
        Err(FetchError::InvalidUrl(m)) => m,
        other => panic!("expected InvalidUrl, got {:?}", other),
    }
}

#[test]
fn brew_package_spec_appends_version_when_set() {
    let p = BrewPackage {
        version: Some("14.0".to_string()),
        ..pkg("postgresql")
    };
    assert_eq!(brew_package_spec(&p), "postgresql@14.0");
}

#[test]
fn brew_package_spec_trims_version_and_ignores_blank() {
    let p = BrewPackage {
        version: Some("  14.0 ".to_string()),
        ..pkg("postgresql")
    };
    assert_eq!(brew_package_spec(&p), "postgresql@14.0");
    let q = BrewPackage {
        version: Some("   ".to_string()),
        ..pkg("postgresql")
    };
    assert_eq!(brew_package_spec(&q), "postgresql");
    assert_eq!(brew_package_spec(&pkg("wget")), "wget");
}

#[test]
fn fetch_and_merge_deduplicates_by_name() {
    let r1 = vec![pkg("wget"), pkg("curl")];
    let r2 = vec![pkg("wget"), pkg("jq")];
    let result = merge_packages(&vec![r1, r2]);
    assert_eq!(result.len(), 3);
}

#[test]
fn merge_later_recipe_overrides_earlier() {
    let r1 = vec![
        BrewPackage {
            category: Some("old".to_string()),
            ..pkg("wget")
        },
        pkg("curl"),
    ];
    let r2 = vec![BrewPackage {
        category: Some("new".to_string()),
        ..pkg("wget")
    }];
    let result = merge_packages(&vec![r1, r2]);
    let names: Vec<&str> = result.iter().map(|p| p.name.as_str()).collect();
    assert_eq!(names, vec!["wget", "curl"]);
    assert_eq!(result[0].category, Some("new".to_string()));
}

#[test]
fn recipe_merge_steps() {
    assert!(matches!(
        RecipeMerge::start(&vec![]),
        Err(FetchError::InvalidUrl(m)) if m == "No URLs provided"
    ));
    let urls = vec!["a.json".to_string(), "b.json".to_string()];
    let mut m = RecipeMerge::start(&urls).ok().unwrap();
    assert!(m.absorb(&urls[0], Ok(vec![pkg("wget"), pkg("jq")])).is_ok());
    let failed = m.absorb(&urls[1], Err(FetchError::InvalidUrl("boom".to_string())));
    match failed {
        Err(FetchError::FetchFailed { url, source }) => {
            assert_eq!(url, "b.json");
            assert!(matches!(*source, FetchError::InvalidUrl(ref s) if s == "boom"));
        }
        other => panic!("unexpected {:?}", other),
    }
    assert_eq!(m.finish().len(), 2);
}

#[test]
fn test_valid_version_plain() {
    assert!(validate_version("14.0").is_ok());
    assert!(validate_version("1.2.3").is_ok());
}

#[test]
fn test_valid_version_prerelease() {
    assert!(validate_version("20.0.0-alpha.1").is_ok());
    assert!(validate_version("1.0.0-beta").is_ok());
    assert!(validate_version("2.0.0-rc.1").is_ok());
}

#[test]
fn test_invalid_version() {
    assert!(validate_version("14").is_err());
    assert!(validate_version("1.2.3.4").is_err());
    assert!(validate_version("1.0.0-").is_err());
    assert!(validate_version("a.b.c").is_err());
}

#[test]
fn version_edge_cases() {
    assert!(is_valid_version("+1.2"));
    assert!(is_valid_version("4294967295.0"));
    assert!(!is_valid_version("4294967296.0"));
    assert!(!is_valid_version("1..2"));
    assert!(!is_valid_version(" 1.2"));
    assert!(is_valid_version("1.2-rc-1"));
    assert!(!is_valid_version("1.2-rc_1"));
    assert!(validate_version("   ").is_ok());
}

#[test]
fn test_validate_accepts_cask_package() {
    let packages = vec![BrewPackage {
        name: "visual-studio-code".to_string(),
        category: None,
        url: None,
        cask: Some(true),
        version: None,
    }];
    assert!(validate_packages(&packages).is_ok());
}

#[test]
fn validate_reports_each_problem() {
    assert_eq!(
        invalid_message(validate_packages(&vec![])),
        "Recipe file contains no packages"
    );
    assert_eq!(
        invalid_message(validate_packages(&vec![pkg("ok"), pkg("  ")])),
        "Package at index 1 has empty name"
    );
    assert_eq!(
        invalid_message(validate_packages(&vec![pkg("bad name")])),
        "Package 'bad name' has invalid name format. Use only alphanumeric characters, dots, hyphens, and underscores."
    );
    let with_url = BrewPackage {
        url: Some("ftp://x".to_string()),
        ..pkg("wget")
    };
    assert_eq!(
        invalid_message(validate_packages(&vec![with_url])),
        "Package 'wget' has invalid URL: must start with http:// or https://"
    );
    assert_eq!(
        invalid_message(validate_version("1.x")),
        "Package 'test-pkg' has invalid version format: '1.x'. Use semantic versioning (e.g., 1.0.0 or 20.0.0-alpha.1)"
    );
    let unicode = pkg("café");
    assert!(validate_packages(&vec![unicode]).is_ok());
}

#[test]
fn sources_and_fetch_errors() {
    assert!(is_local_path("recipe.json", false));
    assert!(!is_local_path("https://example.com/r.json", false));
    assert!(is_local_path("https://example.com/r.json", true));
    match invalid_source_error("x") {
        FetchError::InvalidUrl(m) => assert_eq!(
            m,
            "'x' is not a valid URL or file path. Use http://, https://, or a local file path."
        ),
        _ => panic!(),
    }
    match http_status_error(404, "404 Not Found") {
        FetchError::InvalidUrl(m) => assert_eq!(m, "HTTP error 404: 404 Not Found"),
        _ => panic!(),
    }
    assert!(accept_local_recipe(vec![]).is_err());
    assert_eq!(accept_local_recipe(vec![pkg("jq")]).ok().unwrap().len(), 1);
}

#[test]
fn test_sync_analysis_to_install() {
    let recipe = vec![pkg("wget"), pkg("jq"), pkg("curl")];
    let installed = vec![pkg("wget")];
    let report = sync_analysis(&recipe, &installed);
    assert_eq!(report.to_install.len(), 2);
    assert_eq!(report.in_sync.len(), 1);
    assert_eq!(report.to_remove.len(), 0);
}

#[test]
fn test_sync_analysis_to_remove_identifies_extras() {
    let recipe = vec![pkg("wget")];
    let installed = vec![pkg("wget"), pkg("curl"), pkg("jq")];
    let report = sync_analysis(&recipe, &installed);
    assert_eq!(report.to_remove.len(), 2);
    assert_eq!(report.in_sync.len(), 1);
    assert_eq!(report.to_install.len(), 0);
}

#[test]
fn sync_analysis_compares_versioned_specs() {
    let recipe = vec![BrewPackage {
        version: Some("14".to_string()),
        ..pkg("postgresql")
    }];
    let installed = vec![pkg("postgresql"), pkg("postgresql@14")];
    let report = sync_analysis(&recipe, &installed);
    assert_eq!(report.in_sync.len(), 1);
    assert_eq!(report.to_install.len(), 0);
    assert_eq!(report.to_remove.len(), 1);
    assert_eq!(report.to_remove[0].name, "postgresql");
    // every recipe package is either to install or in sync
    assert_eq!(report.in_sync.len() + report.to_install.len(), recipe.len());
}

#[test]
fn test_dry_run_separates_casks_from_formulae() {
    let packages = vec![
        pkg("wget"),
        BrewPackage {
            name: "visual-studio-code".to_string(),
            cask: Some(true),
            category: None,
            url: None,
            version: None,
        },
        pkg("jq"),
    ];
    let (formulae, casks) = dry_run_groups(&packages);
    assert_eq!(formulae.len(), 2);
    assert_eq!(casks.len(), 1);
    assert_eq!(casks[0], "visual-studio-code");
}

#[test]
fn url_arguments_split_on_commas() {
    let args = vec!["a.json, b.json,".to_string(), " c.json ".to_string()];
    assert_eq!(split_url_args(&args), vec!["a.json", "b.json", "c.json"]);
}

#[test]
fn installed_marking_uses_substrings() {
    let installed = vec![pkg("postgresql@14")];
    assert!(is_marked_installed(&pkg("postgresql"), &installed));
    assert!(!is_marked_installed(&pkg("redis"), &installed));
}

#[test]
fn header_lines_pad_title() {
    let (top, middle, bottom) = header_lines("Summary", "0.1.0");
    assert_eq!(top.chars().count(), 69);
    assert_eq!(bottom.chars().count(), 69);
    assert_eq!(middle, format!("║         BRIM v0.1.0 - {:<44}║", "Summary"));
    assert_eq!(middle.chars().count(), 69);
}

#[test]
fn test_package_result_creation() {
    let result = BrewPackageResult {
        name: "test-package".to_string(),
        status: "completed".to_string(),
    };
    assert_eq!(result.name, "test-package");
    assert_eq!(result.status, "completed");
}

#[test]
fn test_webhook_payload_success() {
    let packages = vec![
        BrewPackageResult {
            name: "postgresql".to_string(),
            status: "completed".to_string(),
        },
        BrewPackageResult {
            name: "redis".to_string(),
            status: "completed".to_string(),
        },
    ];
    let payload = WebhookPayload {
        status: "success".to_string(),
        total: 2,
        completed: 2,
        failed: 0,
        packages,
        elapsed_seconds: 120,
        machine_id: "test-machine".to_string(),
    };
    assert_eq!(payload.status, "success");
    assert_eq!(payload.total, 2);
    assert_eq!(payload.completed, 2);
    assert_eq!(payload.failed, 0);
}

#[test]
fn webhook_payload_counts_results() {
    let results = vec![
        BrewPackageResult {
            name: "postgresql".to_string(),
            status: "completed".to_string(),
        },
        BrewPackageResult {
            name: "redis".to_string(),
            status: "failed".to_string(),
        },
        BrewPackageResult {
            name: "jq".to_string(),
            status: "error: gone".to_string(),
        },
    ];
    let payload = webhook_payload(results, 120, "test-machine".to_string());
    assert_eq!(payload.status, "partial");
    assert_eq!(payload.total, 3);
    assert_eq!(payload.completed, 1);
    assert_eq!(payload.failed, 1);
    assert!(payload.completed + payload.failed <= payload.total);
    let ok = webhook_payload(vec![], 0, "m".to_string());
    assert_eq!(ok.status, "success");
    let all_failed = webhook_payload(
        vec![
            BrewPackageResult {
                name: "redis".to_string(),
                status: "failed".to_string(),
            },
            BrewPackageResult {
                name: "jq".to_string(),
                status: "failed".to_string(),
            },
        ],
        5,
        "m".to_string(),
    );
    assert_eq!(all_failed.status, "failed");
    assert_eq!(all_failed.failed, 2);
}

#[test]
fn test_default_machine_id_returns_nonempty() {
    assert!(!default_machine_id(None, None).is_empty());
    assert_eq!(default_machine_id(None, None), "unknown");
    assert_eq!(
        default_machine_id(None, Some("box".to_string())),
        "box"
    );
    assert_eq!(
        default_machine_id(Some("host".to_string()), Some("box".to_string())),
        "host"
    );
}

#[test]
fn machine_id_choice() {
    assert_eq!(choose_machine_id("  ", "dflt".to_string()), "dflt");
    assert_eq!(choose_machine_id(" m1 ", "dflt".to_string()), "m1");
}
