use brim::list_installed_packages;
use brim::mcp::BrimMcpServer;
use brim::models::BrewPackage;
use brim::sync::sync_by_name;
use brim::tui::progress::{progress_line_readable, StateColor};
use brim::tui::{PackageProgress, ProgressState};
use brim::utilities::brew_common::{dry_run_verb, nonblank_pieces, recipe_summary};
use brim::utilities::brew_fetch_packages::FetchError;
use brim::utilities::brew_install_packages::{
    fetch_step, install_after_download, install_step, ChildPoll, FetchStep, InstallStep,
};
use brim::tui::progress::CommandOutcome;
use brim::LockError;
use brim::validate_packages;
use brim::utilities::brew_recipe_lock::{digest_hex, lockfile_path, recipe_content_hash};
use brim::models::BrewPackageResult;
use brim::webhook::webhook_payload;

fn pkg(name: &str) -> BrewPackage {
    BrewPackage {
        name: name.to_string(),
        category: None,
        url: None,
        cask: None,
        version: None,
    }
}

fn cask(name: &str) -> BrewPackage {
    BrewPackage {
        cask: Some(true),
        ..pkg(name)
    }
}

fn names(v: &[BrewPackage]) -> Vec<String> {
    v.iter().map(|p| p.name.clone()).collect()
}

#[test]
fn sync_by_name_matches_plain_names() {
    let installed = vec![pkg("wget"), pkg("postgresql@14"), pkg("htop")];
    let recipe = vec![
        pkg("jq"),
        pkg("wget"),
        BrewPackage {
            version: Some("14".to_string()),
            ..pkg("postgresql")
        },
    ];
    let report = sync_by_name(&installed, &recipe);
    assert_eq!(names(&report.to_install), vec!["jq", "postgresql"]);
    assert_eq!(names(&report.in_sync), vec!["wget"]);
    assert_eq!(names(&report.to_remove), vec!["postgresql@14", "htop"]);
    assert_eq!(
        report.to_install.len() + report.in_sync.len(),
        recipe.len()
    );
}

#[test]
fn recipe_summary_counts_installed_and_casks() {
    let installed = vec![pkg("wget2"), pkg("firefox")];
    let recipe = vec![pkg("wget"), cask("firefox"), cask("slack"), pkg("jq")];
    assert_eq!(recipe_summary(&recipe, &installed), (2, 2));
    assert_eq!(recipe_summary(&vec![], &installed), (0, 0));
}

#[test]
fn dry_run_words() {
    assert_eq!(dry_run_verb("install"), "installed");
    assert_eq!(dry_run_verb("remove"), "removed");
    assert_eq!(dry_run_verb("Install"), "removed");
}

#[test]
fn listing_lines_become_packages() {
    assert_eq!(
        nonblank_pieces(" a , ,b,", ','),
        vec!["a".to_string(), "b".to_string()]
    );
    let listed = list_installed_packages("wget\n  jq \n\n", "firefox\n");
    assert_eq!(names(&listed), vec!["wget", "jq", "firefox"]);
    assert_eq!(listed[0].cask, None);
    assert_eq!(listed[2].cask, Some(true));
    assert!(listed.iter().all(|p| p.version.is_none() && p.category.is_none()));
    assert!(list_installed_packages("", "").is_empty());
}

#[test]
fn state_colours_icons_and_labels() {
    let mut p = PackageProgress::new("wget".to_string());
    assert_eq!(p.state_color(), StateColor::Gray);
    assert_eq!(p.summary_icon(), "\u{2022}");
    assert_eq!(p.gauge_label(), "0%");
    p.progress = 42;
    assert_eq!(p.gauge_label(), "42%");
    p.message = "Pouring".to_string();
    assert_eq!(p.gauge_label(), "Pouring");
    p.state = ProgressState::Completed;
    assert_eq!(p.state_color(), StateColor::Green);
    assert_eq!(p.summary_icon(), "\u{2713}");
    p.state = ProgressState::Failed;
    assert_eq!(p.state_color(), StateColor::Red);
    assert_eq!(p.summary_icon(), "\u{2717}");
    p.state = ProgressState::Removing;
    assert_eq!(p.state_color(), StateColor::Magenta);
}

#[test]
fn install_waiting_steps() {
    match install_step(true, ChildPoll::Exited { success: true }, 3) {
        InstallStep::Done {
            outcome: CommandOutcome::Error(m),
            kill,
        } => {
            assert!(kill);
            assert_eq!(m, "Cancelled by user");
        }
        _ => panic!("a cancellation ends the install"),
    }
    match install_step(false, ChildPoll::Exited { success: false }, 3) {
        InstallStep::Done {
            outcome: CommandOutcome::Exited { success },
            kill,
        } => assert!(!success && !kill),
        _ => panic!("an exit ends the install"),
    }
    match install_step(false, ChildPoll::Running, 7) {
        InstallStep::Wait { polls } => assert_eq!(polls, 8),
        _ => panic!("a running install waits"),
    }
    match install_step(false, ChildPoll::Running, 1800) {
        InstallStep::Done {
            outcome: CommandOutcome::Error(m),
            kill,
        } => {
            assert!(kill);
            assert_eq!(m, "Installation timed out after 3 minutes");
        }
        _ => panic!("the install times out"),
    }
    match install_step(false, ChildPoll::Unknown("gone".to_string()), 0) {
        InstallStep::Done {
            outcome: CommandOutcome::Error(m),
            kill,
        } => assert!(m == "gone" && !kill),
        _ => panic!("a failed look ends the install"),
    }
}

#[test]
fn fetch_waiting_steps() {
    assert!(matches!(
        fetch_step(true, ChildPoll::Running, 0),
        FetchStep::GiveUp { kill: true, timed_out: false }
    ));
    assert!(matches!(
        fetch_step(false, ChildPoll::Exited { success: true }, 5),
        FetchStep::Done { success: true }
    ));
    assert!(matches!(
        fetch_step(false, ChildPoll::Running, 9),
        FetchStep::Wait { polls: 10, report: true }
    ));
    assert!(matches!(
        fetch_step(false, ChildPoll::Running, 10),
        FetchStep::Wait { polls: 11, report: false }
    ));
    assert!(matches!(
        fetch_step(false, ChildPoll::Running, 1200),
        FetchStep::GiveUp { kill: true, timed_out: true }
    ));
    assert!(matches!(
        fetch_step(false, ChildPoll::Unknown("x".to_string()), 1),
        FetchStep::GiveUp { kill: false, timed_out: false }
    ));
}

#[test]
fn downloads_gate_installs() {
    let mut list = vec![
        PackageProgress::new("a".to_string()),
        PackageProgress::new("b".to_string()),
    ];
    list[1].state = ProgressState::Failed;
    assert!(install_after_download(&list, 0));
    assert!(!install_after_download(&list, 1));
    assert!(!install_after_download(&list, 2));
}

#[test]
fn progress_lines_that_cannot_be_read() {
    assert!(progress_line_readable("Downloading 45%"));
    assert!(progress_line_readable("no percent here é"));
    assert!(progress_line_readable("45%"));
    assert!(!progress_line_readable("é45%"));
}

#[test]
fn error_messages() {
    assert_eq!(
        FetchError::InvalidUrl("nope".to_string()).message(),
        "Invalid URL or file path: nope"
    );
    let io = FetchError::from(std::io::Error::new(std::io::ErrorKind::NotFound, "File not found: x"));
    assert_eq!(io.message(), "File error: File not found: x");
    let parse = FetchError::from(serde_json::from_str::<Vec<String>>("{").err().unwrap());
    assert!(parse.message().starts_with("JSON parse error: "));
    let failed = FetchError::FetchFailed {
        url: "a.json".to_string(),
        source: Box::new(FetchError::InvalidUrl("empty".to_string())),
    };
    assert_eq!(
        failed.message(),
        "Failed to fetch a.json: Invalid URL or file path: empty"
    );

    assert_eq!(LockError::Parse("bad".to_string()).message(), "bad");
    let mismatch = LockError::IntegrityMismatch {
        expected: "aa".to_string(),
        got: "bb".to_string(),
    };
    assert_eq!(
        mismatch.message(),
        "Recipe integrity check failed: recipe content has changed since the last run (expected aa, got bb). If you intended to change the recipe, remove the lockfile and run again."
    );
    let io = LockError::from(std::io::Error::new(std::io::ErrorKind::Other, "disk full"));
    assert_eq!(io.message(), "disk full");
}

#[test]
fn trim_removes_extras_only() {
    let s = BrimMcpServer;
    let recipe = vec![
        pkg("wget"),
        BrewPackage {
            version: Some("14".to_string()),
            ..pkg("postgresql")
        },
    ];
    let installed = vec![pkg("postgresql@14"), pkg("htop"), pkg("wget"), pkg("jq")];
    assert_eq!(names(&s.trim_targets(&recipe, &installed)), vec!["htop", "jq"]);
}

#[test]
fn countdown_closes_after_n_ticks() {
    let mut left: u64 = 3;
    let mut closed_at = 0;
    for k in 1..=5 {
        let (l, closes) = brim::tui::progress::countdown_tick(left);
        left = l;
        if closes {
            closed_at = k;
            break;
        }
    }
    assert_eq!(closed_at, 3);
    assert_eq!(brim::tui::progress::countdown_tick(0), (0, true));
}

#[test]
fn acceptance_ignores_grouping_and_order() {
    let good = vec![pkg("wget"), cask("firefox")];
    let bad = vec![pkg("bad name")];
    assert!(validate_packages(&good).is_ok());
    let mut both = good.clone();
    both.extend(bad.clone());
    assert!(validate_packages(&both).is_err());
    let mut swapped = bad.clone();
    swapped.extend(good.clone());
    assert!(validate_packages(&swapped).is_err());
    let reversed: Vec<BrewPackage> = good.iter().rev().cloned().collect();
    assert!(validate_packages(&reversed).is_ok());
}

#[test]
fn digests_are_sixty_four_hex_digits() {
    let d = digest_hex("abc");
    assert_eq!(d.len(), 64);
    assert!(d.chars().all(|c| c.is_ascii_digit() || ('a'..='f').contains(&c)));
    let sources = vec!["https://example.com/r.json".to_string()];
    let h = recipe_content_hash(&vec![pkg("wget")], &sources, &vec![String::new()]).ok().unwrap();
    assert_eq!(h.len(), 64);
    let path = lockfile_path("/opt/bin", &sources, &vec![String::new()]).ok().unwrap();
    let name = path.strip_prefix("/opt/bin/").unwrap();
    assert!(name.starts_with("recipe-") && name.ends_with(".lock"));
    assert_eq!(name.len(), "recipe-".len() + 64 + ".lock".len());
}

#[test]
fn webhook_status_for_all_failed_run() {
    let failed = |n: &str| BrewPackageResult {
        name: n.to_string(),
        status: "failed".to_string(),
    };
    let done = |n: &str| BrewPackageResult {
        name: n.to_string(),
        status: "completed".to_string(),
    };
    assert_eq!(webhook_payload(vec![failed("a")], 1, "m".to_string()).status, "failed");
    assert_eq!(
        webhook_payload(vec![failed("a"), done("b")], 1, "m".to_string()).status,
        "partial"
    );
    assert_eq!(webhook_payload(vec![done("b")], 1, "m".to_string()).status, "success");
}

#[test]
fn remove_request_names_only() {
    let s = BrimMcpServer;
    let v = s.remove_request("[\"wget\", \"jq\"]").ok().unwrap();
    assert_eq!(names(&v), vec!["wget", "jq"]);
    assert!(v.iter().all(|p| p.category.is_none() && p.url.is_none() && p.cask.is_none()));
}
