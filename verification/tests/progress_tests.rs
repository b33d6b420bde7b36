use brim::models::{BrewPackage, BrewPackageResult};
use brim::tui::progress::{
    collect_results, countdown_tick, estimate_progress, key_decision, package_window,
    progress_list, CommandOutcome, LoopControl, PackageProgress, ProgressState, ScreenKey,
};
use brim::utilities::brew_install_packages::{
    install_args, install_packages_headless, install_result, progress_fetch_args,
};
use brim::utilities::brew_remove_packages::{remove_args, remove_packages_headless, remove_result};
use brim::mcp::{parse_urls_json, BrimMcpServer};

fn pkg(name: &str) -> BrewPackage {
    BrewPackage {
        name: name.to_string(),
        category: None,
        url: None,
        cask: None,
        version: None,
    }
}

#[test]
fn package_progress_new_starts_pending() {
    let p = PackageProgress::new("wget".to_string());
    assert_eq!(p.state, ProgressState::Pending);
    assert_eq!(p.progress, 0);
    assert_eq!(p.name, "wget");
}

#[test]
fn package_progress_completed_state_label() {
    let mut p = PackageProgress::new("wget".to_string());
    p.state = ProgressState::Completed;
    p.progress = 100;
    assert_eq!(p.state_label(), "completed");
}

#[test]
fn estimate_progress_values() {
    assert_eq!(estimate_progress("Downloading 45% done"), 45);
    assert_eq!(estimate_progress("at 250% speed"), 100);
    assert_eq!(estimate_progress("45%"), 50);
    assert_eq!(estimate_progress("x 99999%"), 50);
    assert_eq!(estimate_progress("==> Fetching wget"), 10);
    assert_eq!(estimate_progress("==> Downloading https://x"), 30);
    assert_eq!(estimate_progress("==> Installing wget"), 60);
    assert_eq!(estimate_progress("==> Pouring wget.bottle"), 80);
    assert_eq!(estimate_progress("Complete!"), 100);
    assert_eq!(estimate_progress("something else"), 50);
}

#[test]
fn output_lines_update_progress() {
    let mut p = PackageProgress::new("wget".to_string());
    p.apply_output_line("==> Downloading https://x");
    assert_eq!(p.state, ProgressState::Downloading);
    assert_eq!(p.progress, 30);
    assert_eq!(p.message, "==> Downloading https://x");
    p.apply_output_line("  ==> Pouring wget  ");
    assert_eq!(p.state, ProgressState::Installing);
    assert_eq!(p.message, "==> Pouring wget");
    let long = "x".repeat(60);
    p.apply_output_line(&long);
    assert_eq!(p.message, "==> Pouring wget");
    p.state = ProgressState::Failed;
    p.apply_error_line("Error: oops");
    assert_eq!(p.message, "==> Pouring wget");
}

#[test]
fn install_and_remove_outcomes() {
    let mut p = PackageProgress::new("wget".to_string());
    p.begin_install();
    assert_eq!(p.message, "Starting...");
    p.finish_install(&CommandOutcome::Exited { success: true });
    assert_eq!((p.state.clone(), p.progress, p.message.as_str()), (ProgressState::Completed, 100, "Done!"));
    p.finish_install(&CommandOutcome::Error("Cancelled by user".to_string()));
    assert_eq!(p.message, "Error: Cancelled by user");
    assert_eq!(p.state, ProgressState::Failed);
    p.begin_remove();
    assert_eq!((p.state.clone(), p.progress), (ProgressState::Removing, 10));
    p.finish_remove(&BrewPackageResult { name: "wget".to_string(), status: "failed: no".to_string() });
    assert_eq!(p.message, "failed: no");
    p.finish_fetch(true);
    assert_eq!(p.progress, 100);
    assert_eq!(p.message, "Downloaded");
}

#[test]
fn screen_decisions() {
    let mut list = progress_list(vec!["a".to_string(), "b".to_string()]);
    assert_eq!(key_decision(ScreenKey::Quit, &list), LoopControl::Continue);
    assert_eq!(key_decision(ScreenKey::Escape, &list), LoopControl::Cancel);
    list[0].state = ProgressState::Completed;
    list[1].state = ProgressState::Failed;
    assert_eq!(key_decision(ScreenKey::Quit, &list), LoopControl::Finish);
    assert_eq!(countdown_tick(3), (2, false));
    assert_eq!(countdown_tick(1), (0, true));
    assert_eq!(countdown_tick(0), (0, true));
    let results = collect_results(&list);
    assert_eq!(results[0].status, "completed");
    assert_eq!(results[1].status, "failed");
}

#[test]
fn window_follows_first_active_package() {
    let mut list = progress_list((0..10).map(|i| format!("p{}", i)).collect());
    for p in list.iter_mut().take(5) {
        p.state = ProgressState::Completed;
    }
    // height 11 -> 9 usable lines -> 3 rows; first active is 5 -> start 4
    assert_eq!(package_window(&list, 11), (4, 3));
    // never scrolls past the end
    for p in list.iter_mut() {
        p.state = ProgressState::Completed;
    }
    assert_eq!(package_window(&list, 11), (0, 3));
    assert_eq!(package_window(&list, 0), (0, 1));
}

#[test]
fn brew_arguments() {
    let cask = BrewPackage {
        cask: Some(true),
        version: Some("1.0".to_string()),
        ..pkg("code")
    };
    assert_eq!(install_args(&cask), vec!["install", "code@1.0", "--cask"]);
    assert_eq!(progress_fetch_args(&cask), vec!["fetch", "--cask", "code@1.0"]);
    assert_eq!(remove_args(&pkg("jq")), vec!["remove", "-f", "jq"]);
}

#[test]
fn headless_results() {
    let packages = vec![pkg("a"), pkg("b"), pkg("c")];
    let r = install_packages_headless(
        &packages,
        true,
        &vec![true, false, true],
        &vec![
            Some(CommandOutcome::Exited { success: true }),
            None,
            Some(CommandOutcome::Error("denied".to_string())),
        ],
    );
    let statuses: Vec<&str> = r.iter().map(|x| x.status.as_str()).collect();
    assert_eq!(statuses, vec!["completed", "failed", "error: denied"]);
    assert_eq!(install_result(&pkg("x"), &CommandOutcome::Exited { success: false }).status, "failed");
    let removed = remove_packages_headless(
        &packages,
        &vec![
            CommandOutcome::Exited { success: true },
            CommandOutcome::Exited { success: false },
            CommandOutcome::Error("nope".to_string()),
        ],
    );
    let statuses: Vec<&str> = removed.iter().map(|x| x.status.as_str()).collect();
    assert_eq!(statuses, vec!["completed", "failed", "failed: nope"]);
    assert!(remove_result(&pkg("a"), &CommandOutcome::Exited { success: true }).1);
}

#[test]
fn mcp_arguments() {
    assert_eq!(
        parse_urls_json(" [\"a.json\", \"https://x\"] ").ok().unwrap(),
        vec!["a.json", "https://x"]
    );
    let e = parse_urls_json("not json").err().unwrap();
    assert!(e.starts_with("Invalid JSON array of URLs: "));
    let s = BrimMcpServer;
    let removed = s.remove_request("[\"wget\"]").ok().unwrap();
    assert_eq!(removed[0].name, "wget");
    assert!(s.remove_request("{}").err().unwrap().starts_with("Invalid JSON array of names: "));
    assert_eq!(s.webhook_target("  "), None);
    assert_eq!(s.webhook_target(" https://h "), Some("https://h".to_string()));
    assert_eq!(
        s.install_reply("[]".to_string(), Some(Err("down".to_string()))).ok().unwrap(),
        "[]\nWebhook notification failed: down"
    );
    assert_eq!(
        s.update_recipe_lock_reply(Ok(3)).ok().unwrap(),
        "Recipe lock updated. You can retry the previous operation."
    );
}
