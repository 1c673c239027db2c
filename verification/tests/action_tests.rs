use ai_cli_apps::actions::{
    binary_name_of, config_prompt_needed, find_tool, find_tool_by_name, find_tool_by_selection,
    format_available_tools, install_decision, removal_plan, uninstall_candidates,
    uninstall_decision, upgrade_decision, ActionError, ActionPlan, UninstallAction,
};
use ai_cli_apps::tools::{self, Ecosystem, InstallMethod, Tool};

fn npm_tool(name: &str, pkg: &str) -> Tool {
    Tool::new(
        name,
        InstallMethod::PackageManager(Ecosystem::Npm, pkg.to_string()),
        vec![name.to_lowercase(), "--version".to_string()],
    )
}

fn brew_tool(name: &str, formula: &str) -> Tool {
    Tool::new(
        name,
        InstallMethod::PackageManager(Ecosystem::Brew, formula.to_string()),
        vec![formula.to_string(), "--version".to_string()],
    )
}

#[test]
fn manual_only_install_always_fails_unsupported() {
    let t = Tool::new(
        "Handmade",
        InstallMethod::ManualOnly("install it from the vendor's page".to_string()),
        vec!["handmade".to_string()],
    );
    match install_decision(&t, false) {
        Err(ActionError::UnsupportedAction(m)) => {
            assert_eq!(m, "install it from the vendor's page")
        }
        _ => panic!("manual-only install must fail with an unsupported-action error"),
    }
}

#[test]
fn vendor_updater_install_fails_unsupported() {
    let t = Tool::new(
        "SelfUpdating",
        InstallMethod::VendorUpdater("selfup".to_string()),
        vec!["selfup".to_string()],
    );
    assert!(matches!(
        install_decision(&t, false),
        Err(ActionError::UnsupportedAction(_))
    ));
}

#[test]
fn install_already_installed_is_noop() {
    let t = tools::opencode::definition();
    match install_decision(&t, true) {
        Err(ActionError::AlreadyInNoopState(name)) => assert_eq!(name, "OpenCode"),
        _ => panic!("expected a no-op"),
    }
}

#[test]
fn install_npm_tool_runs_npm_install() {
    let t = npm_tool("Copilot CLI", "@github/copilot");
    match install_decision(&t, false) {
        Ok(ActionPlan::RunCommand(c)) => {
            assert_eq!(c.program, "npm");
            assert_eq!(c.args, vec!["install", "-g", "@github/copilot"]);
        }
        _ => panic!("expected an npm command"),
    }
}

#[test]
fn install_brew_tool_runs_brew_install() {
    let t = brew_tool("Codex CLI", "codex");
    match install_decision(&t, false) {
        Ok(ActionPlan::RunCommand(c)) => {
            assert_eq!(c.program, "brew");
            assert_eq!(c.args, vec!["install", "codex"]);
        }
        _ => panic!("expected a brew command"),
    }
}

#[test]
fn install_bootstrap_tool_runs_its_script() {
    let t = tools::factory::definition();
    match install_decision(&t, false) {
        Ok(ActionPlan::RunScript { url, temp_filename, description }) => {
            assert_eq!(url, "https://app.factory.ai/cli");
            assert_eq!(temp_filename, "bootstrap.sh");
            assert_eq!(description, "bootstrap script");
        }
        _ => panic!("expected a script run"),
    }
}

#[test]
fn upgrade_refused_when_not_installed() {
    let t = tools::factory::definition();
    match upgrade_decision(&t, false) {
        Err(ActionError::AlreadyInNoopState(name)) => assert_eq!(name, "Factory CLI"),
        _ => panic!("an upgrade of a tool that is not installed must be refused"),
    }
}

#[test]
fn upgrade_bootstrap_tool_reruns_upgrade_script() {
    let t = tools::opencode::definition();
    match upgrade_decision(&t, true) {
        Ok(ActionPlan::RunScript { url, temp_filename, description }) => {
            assert_eq!(url, "https://opencode.ai/install");
            assert_eq!(temp_filename, "bootstrap_upgrade.sh");
            assert_eq!(description, "bootstrap script");
        }
        _ => panic!("expected a script run"),
    }
}

#[test]
fn upgrade_vendor_updater_runs_its_update_subcommand() {
    let t = Tool::new(
        "Amp",
        InstallMethod::VendorUpdater("amp".to_string()),
        vec!["amp".to_string(), "--version".to_string()],
    );
    match upgrade_decision(&t, true) {
        Ok(ActionPlan::RunCommand(c)) => {
            assert_eq!(c.program, "amp");
            assert_eq!(c.args, vec!["update"]);
        }
        _ => panic!("expected the updater command"),
    }
}

#[test]
fn upgrade_npm_tool_reruns_install() {
    let t = npm_tool("Cline CLI", "cline");
    match upgrade_decision(&t, true) {
        Ok(ActionPlan::RunCommand(c)) => {
            assert_eq!(c.program, "npm");
            assert_eq!(c.args, vec!["install", "-g", "cline"]);
        }
        _ => panic!("expected an npm command"),
    }
}

#[test]
fn upgrade_brew_tool_runs_brew_upgrade() {
    let t = brew_tool("Gemini CLI", "gemini-cli");
    match upgrade_decision(&t, true) {
        Ok(ActionPlan::RunCommand(c)) => {
            assert_eq!(c.program, "brew");
            assert_eq!(c.args, vec!["upgrade", "gemini-cli"]);
        }
        _ => panic!("expected a brew command"),
    }
}

#[test]
fn uninstall_refused_when_not_installed() {
    let t = tools::opencode::definition();
    assert!(matches!(
        uninstall_decision(&t, false),
        Err(ActionError::AlreadyInNoopState(_))
    ));
}

#[test]
fn uninstall_npm_tool_runs_npm_uninstall() {
    let t = npm_tool("Kilo Code CLI", "@kilocode/cli");
    match uninstall_decision(&t, true) {
        Ok(UninstallAction::RunCommand(c)) => {
            assert_eq!(c.program, "npm");
            assert_eq!(c.args, vec!["uninstall", "-g", "@kilocode/cli"]);
        }
        _ => panic!("expected an npm command"),
    }
}

#[test]
fn uninstall_bootstrap_tool_removes_files() {
    let t = tools::factory::definition();
    assert!(matches!(uninstall_decision(&t, true), Ok(UninstallAction::RemoveFiles)));
}

#[test]
fn find_tool_matches_name_case_insensitively() {
    let tools = tools::catalog();
    assert_eq!(find_tool(&tools, "opencode"), Some(0));
    assert_eq!(find_tool(&tools, "OPENCODE"), Some(0));
    assert_eq!(find_tool(&tools, "factory cli"), Some(1));
}

#[test]
fn find_tool_matches_binary_name() {
    let tools = tools::catalog();
    assert_eq!(find_tool(&tools, "droid"), Some(1));
    assert_eq!(find_tool(&tools, "DROID"), Some(1));
}

#[test]
fn find_tool_none_for_unknown_name() {
    let tools = tools::catalog();
    assert_eq!(find_tool(&tools, "no-such-tool"), None);
}

#[test]
fn selection_matching_rules() {
    let tools = tools::catalog();
    assert_eq!(find_tool_by_selection(&tools, "OpenCode (bootstrap)"), Some(0));
    assert_eq!(find_tool_by_selection(&tools, "Factory CLI (bootstrap)"), Some(1));
    assert_eq!(find_tool_by_selection(&tools, "Unknown (npm)"), None);
    assert_eq!(find_tool_by_name(&tools, "Factory CLI"), Some(1));
    assert_eq!(find_tool_by_name(&tools, "factory cli"), None);
}

#[test]
fn available_tools_are_listed_with_binary_names() {
    let tools = tools::catalog();
    assert_eq!(format_available_tools(&tools), "OpenCode (opencode), Factory CLI (droid)");
}

#[test]
fn binary_name_defaults_to_lowercased_name() {
    let t = Tool::new("Handmade", InstallMethod::ManualOnly("docs".to_string()), Vec::new());
    assert_eq!(binary_name_of(&t), "handmade");
    let t2 = tools::factory::definition();
    assert_eq!(binary_name_of(&t2), "droid");
}

#[test]
fn uninstall_candidates_for_factory() {
    let t = tools::factory::definition();
    let c = uninstall_candidates(&t, "/home/u");
    assert_eq!(c.binary_paths, vec!["/home/u/.local/bin/droid".to_string()]);
    assert_eq!(c.versions_probe, "/home/u/.local/share/droid/versions");
    assert_eq!(c.versions_parent, "/home/u/.local/share/droid");
    assert_eq!(c.config_dirs, vec!["/home/u/.factory".to_string()]);
}

#[test]
fn uninstall_candidates_include_extra_binaries() {
    let t = tools::opencode::definition();
    let c = uninstall_candidates(&t, "/home/u");
    assert_eq!(
        c.binary_paths,
        vec![
            "/home/u/.local/bin/opencode".to_string(),
            "/home/u/.opencode/bin/opencode".to_string()
        ]
    );
}

#[test]
fn uninstall_candidates_default_config_dir() {
    let t = Tool::new("Handmade", InstallMethod::ManualOnly("docs".to_string()), Vec::new());
    let c = uninstall_candidates(&t, "/home/u");
    assert_eq!(c.config_dirs, vec!["/home/u/.handmade".to_string()]);
}

#[test]
fn removal_never_touches_config_without_remove_config() {
    let t = tools::factory::definition();
    let c = uninstall_candidates(&t, "/home/u");
    let p = removal_plan(&c, &vec![true], true, &vec![true], false, true, true);
    assert!(p.configs.is_empty());
    assert_eq!(p.binaries, vec!["/home/u/.local/bin/droid".to_string()]);
    assert_eq!(p.versions_dir.as_deref(), Some("/home/u/.local/share/droid"));
}

#[test]
fn removal_with_force_takes_every_existing_config_without_prompting() {
    let t = tools::opencode::definition();
    let c = uninstall_candidates(&t, "/home/u");
    assert!(!config_prompt_needed(true, true, true));
    let p = removal_plan(&c, &vec![true, false], false, &vec![true], true, true, false);
    assert_eq!(p.configs, vec!["/home/u/.opencode".to_string()]);
    assert_eq!(p.binaries, vec!["/home/u/.local/bin/opencode".to_string()]);
    assert!(p.versions_dir.is_none());
}

#[test]
fn removal_waits_for_confirmation_without_force() {
    let t = tools::factory::definition();
    let c = uninstall_candidates(&t, "/home/u");
    assert!(config_prompt_needed(true, false, true));
    let declined = removal_plan(&c, &vec![false], false, &vec![true], true, false, false);
    assert!(declined.configs.is_empty());
    assert!(declined.is_noop());
    let confirmed = removal_plan(&c, &vec![false], false, &vec![true], true, false, true);
    assert_eq!(confirmed.configs, vec!["/home/u/.factory".to_string()]);
}

#[test]
fn removal_skips_paths_that_do_not_exist() {
    let t = tools::opencode::definition();
    let c = uninstall_candidates(&t, "/home/u");
    let p = removal_plan(&c, &vec![false, true], false, &vec![false], true, true, false);
    assert_eq!(p.binaries, vec!["/home/u/.opencode/bin/opencode".to_string()]);
    assert!(p.configs.is_empty());
    assert!(p.versions_dir.is_none());
}

#[test]
fn no_prompt_needed_when_nothing_exists() {
    assert!(!config_prompt_needed(true, false, false));
    assert!(!config_prompt_needed(false, false, true));
}

#[test]
fn sorting_orders_tools_by_name() {
    let mut ts = tools::catalog();
    ai_cli_apps::actions::sort_tools_by_name(&mut ts);
    let names: Vec<&str> = ts.iter().map(|t| t.name.as_str()).collect();
    assert_eq!(names, vec!["Factory CLI", "OpenCode"]);
}

#[test]
fn sorting_keeps_every_tool() {
    let mut ts = vec![
        npm_tool("Cline CLI", "cline"),
        brew_tool("Codex CLI", "codex"),
        npm_tool("Amp", "@sourcegraph/amp"),
        npm_tool("Amp", "@sourcegraph/amp"),
    ];
    ai_cli_apps::actions::sort_tools_by_name(&mut ts);
    let names: Vec<&str> = ts.iter().map(|t| t.name.as_str()).collect();
    assert_eq!(names, vec!["Amp", "Amp", "Cline CLI", "Codex CLI"]);
}

#[test]
fn not_found_error_lists_available_tools() {
    let ts = tools::catalog();
    match ai_cli_apps::actions::not_found_error(&ts) {
        ActionError::NotFound(list) => {
            assert_eq!(list, "OpenCode (opencode), Factory CLI (droid)")
        }
        _ => panic!("expected a not-found error"),
    }
}

#[test]
fn only_a_trimmed_y_affirms() {
    assert!(ai_cli_apps::actions::affirmative("y"));
    assert!(ai_cli_apps::actions::affirmative("Y"));
    assert!(ai_cli_apps::actions::affirmative("  y\n"));
    assert!(!ai_cli_apps::actions::affirmative("yes"));
    assert!(!ai_cli_apps::actions::affirmative(""));
    assert!(!ai_cli_apps::actions::affirmative("n"));
}
