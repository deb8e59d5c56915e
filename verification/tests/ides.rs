use af::discovery::{candidate_to_launcher, dedupe_candidates, Candidate};
use af::ides::{
    active_jetbrains_in, get, is_vscode_term_program, select_for_clone, select_for_clone_with,
    select_for_dot, select_for_dot_with, supported_command, IdeKind, Launcher,
};
use af::label::{format_label_with_home, home_relative_with};
use af::paths::kind_from_app_path;

fn launcher(kind: IdeKind, path: &str) -> Launcher {
    Launcher::new(kind, path.to_string(), None, None, None, 79)
}

#[test]
fn language_mapping_values() {
    assert_eq!(get("c"), Some("clion"));
    assert_eq!(get("c++"), Some("clion"));
    assert_eq!(get("go"), Some("goland"));
    assert_eq!(get("javascript"), Some("webstorm"));
    assert_eq!(get("ruby"), Some("rubymine"));
    assert_eq!(get("rust"), Some("rustrover"));
}

#[test]
fn unknown_languages_have_no_ide() {
    assert_eq!(get("python"), None);
    assert_eq!(get("Rust"), None);
    assert_eq!(get(""), None);
}

#[test]
fn dedupes_same_preview_app_and_keeps_path_first_launcher() {
    let first = "/tmp/af-launchers/zed".to_string();
    let second = "/tmp/af-launchers/zed-second".to_string();
    let candidates = vec![
        Candidate {
            kind: IdeKind::ZedPreview,
            launcher_path: first.clone(),
            app_path: Some("/Applications/Zed Preview.app".to_string()),
            path_rank: 0,
        },
        Candidate {
            kind: IdeKind::ZedPreview,
            launcher_path: second,
            app_path: Some("/Applications/Zed Preview.app".to_string()),
            path_rank: 1,
        },
        Candidate {
            kind: IdeKind::Zed,
            launcher_path: "/Applications/Zed.app/Contents/MacOS/cli".to_string(),
            app_path: Some("/Applications/Zed.app".to_string()),
            path_rank: usize::MAX,
        },
    ];

    let kept = dedupe_candidates(candidates);
    assert!(kept
        .iter()
        .any(|c| c.kind == IdeKind::ZedPreview && c.launcher_path == first));

    let launchers = kept
        .into_iter()
        .map(|c| candidate_to_launcher(c, None, None, None, 79))
        .collect::<Vec<_>>();

    assert_eq!(launchers.len(), 2);
    assert!(launchers
        .iter()
        .any(|launcher| launcher.kind() == IdeKind::ZedPreview));
    assert!(launchers
        .iter()
        .any(|launcher| launcher.kind() == IdeKind::Zed));
}

#[test]
fn detects_zed_regular_and_preview_from_apps() {
    assert_eq!(
        kind_from_app_path("/Applications/Zed.app"),
        Some(IdeKind::Zed)
    );
    assert_eq!(
        kind_from_app_path("/Applications/Zed Preview.app"),
        Some(IdeKind::ZedPreview)
    );
}

#[test]
fn formats_vscode_name_and_home_relative_paths() {
    let label = format_label_with_home(
        IdeKind::VsCode,
        Some("1.109.5"),
        Some("/Users/test/Applications/Visual Studio Code.app"),
        "/Users/test/.cargo/bin/code",
        Some("/Users/test"),
        79,
    );

    assert!(label.contains("VS Code"));
    assert!(label.contains("1.109.5"));
    assert!(!label.contains('\n'));
    assert!(!label.contains("/Users/test"));
}

#[test]
fn selects_active_vscode_before_zed() {
    let launchers = vec![
        launcher(IdeKind::Zed, "/tmp/bin/zed"),
        launcher(IdeKind::VsCode, "/tmp/bin/code"),
    ];

    assert_eq!(
        select_for_clone_with(None, true, &launchers, Some("rustrover")),
        Some(1)
    );
}

#[test]
fn selects_zed_family_before_language_match_when_not_in_editor() {
    let launchers = vec![
        launcher(IdeKind::ZedPreview, "/tmp/bin/zed"),
        launcher(IdeKind::Rustrover, "/tmp/bin/rustrover"),
    ];

    assert_eq!(
        select_for_clone_with(None, false, &launchers, Some("rustrover")),
        Some(0)
    );
}

#[test]
fn dot_prefers_zed_then_goland_then_vscode() {
    let launchers = vec![
        launcher(IdeKind::VsCode, "/tmp/bin/code"),
        launcher(IdeKind::Goland, "/tmp/bin/goland"),
    ];
    assert_eq!(select_for_dot_with(None, &launchers), Some(1));

    let launchers = vec![
        launcher(IdeKind::VsCode, "/tmp/bin/code"),
        launcher(IdeKind::Zed, "/tmp/bin/zed"),
    ];
    assert_eq!(select_for_dot_with(None, &launchers), Some(1));
}

#[test]
fn home_relative_replaces_home_with_tilde() {
    assert_eq!(
        home_relative_with("/Users/test/bin/zed", Some("/Users/test")),
        "~/bin/zed".to_string()
    );
}

#[test]
fn home_relative_keeps_path_without_home() {
    assert_eq!(home_relative_with("/opt/bin/zed", None), "/opt/bin/zed");
    assert_eq!(home_relative_with("/opt/bin/zed", Some("")), "/opt/bin/zed");
    assert_eq!(
        home_relative_with("/Users/test/Users/test", Some("/Users/test")),
        "~/Users/test"
    );
}

#[test]
fn clone_selection_falls_back_to_language_then_first() {
    let launchers = vec![
        launcher(IdeKind::Goland, "/tmp/bin/goland"),
        launcher(IdeKind::Rustrover, "/tmp/bin/rustrover"),
    ];
    assert_eq!(
        select_for_clone_with(None, false, &launchers, Some("rustrover")),
        Some(1)
    );
    assert_eq!(select_for_clone_with(None, false, &launchers, None), Some(0));
    assert_eq!(select_for_clone_with(Some("goland"), false, &launchers, Some("rustrover")), Some(0));
    assert_eq!(select_for_clone_with(None, false, &[], Some("rustrover")), None);
}

#[test]
fn clone_selection_prefers_active_jetbrains_ide() {
    let launchers = vec![
        launcher(IdeKind::Zed, "/tmp/bin/zed"),
        launcher(IdeKind::VsCode, "/tmp/bin/code"),
        launcher(IdeKind::Clion, "/tmp/bin/clion"),
    ];
    assert_eq!(
        select_for_clone_with(Some("clion"), true, &launchers, None),
        Some(2)
    );
    assert_eq!(
        select_for_clone_with(Some("webstorm"), true, &launchers, None),
        Some(1)
    );
}

#[test]
fn dot_selection_needs_a_preferred_launcher() {
    let launchers = vec![
        launcher(IdeKind::Clion, "/tmp/bin/clion"),
        launcher(IdeKind::VsCodeInsiders, "/tmp/bin/code-insiders"),
    ];
    assert_eq!(select_for_dot_with(None, &launchers), Some(1));
    assert_eq!(select_for_dot_with(Some("clion"), &launchers), Some(0));

    let launchers = vec![launcher(IdeKind::Rubymine, "/tmp/bin/rubymine")];
    assert_eq!(select_for_dot_with(None, &launchers), None);
}

#[test]
fn jetbrains_ide_is_read_from_service_name() {
    assert_eq!(
        active_jetbrains_in("application.com.jetbrains.goland.12345.67890"),
        Some("goland")
    );
    assert_eq!(
        active_jetbrains_in("application.com.jetbrains.rustrover-EAP.1.2"),
        Some("rustrover")
    );
    assert_eq!(active_jetbrains_in("application.com.jetbrains.pycharm"), None);
    assert_eq!(active_jetbrains_in("application.com.apple.Terminal"), None);
    assert_eq!(active_jetbrains_in(""), None);
}

#[test]
fn environment_driven_selection() {
    let launchers = vec![
        launcher(IdeKind::Zed, "/tmp/bin/zed"),
        launcher(IdeKind::Goland, "/tmp/bin/goland"),
        launcher(IdeKind::VsCode, "/tmp/bin/code"),
    ];
    assert_eq!(
        select_for_clone(&launchers, None, "application.com.jetbrains.goland.1", None),
        Some(1)
    );
    assert_eq!(select_for_clone(&launchers, None, "", Some("VSCode")), Some(2));
    assert_eq!(select_for_clone(&launchers, None, "", Some("iTerm")), Some(0));
    assert_eq!(select_for_dot(&launchers, "application.com.jetbrains.goland.1"), Some(1));
    assert_eq!(select_for_dot(&launchers, ""), Some(0));
}

#[test]
fn vscode_terminal_is_recognised_ignoring_case() {
    assert!(is_vscode_term_program(Some("vscode")));
    assert!(is_vscode_term_program(Some("VsCode")));
    assert!(!is_vscode_term_program(Some("vscode2")));
    assert!(!is_vscode_term_program(None));
}

#[test]
fn supported_commands_are_the_ide_commands() {
    assert_eq!(supported_command("zed"), Some("zed"));
    assert_eq!(supported_command("code-insiders"), Some("code-insiders"));
    assert_eq!(supported_command("idea"), None);
}

#[test]
fn ide_kind_metadata() {
    assert_eq!(IdeKind::ZedPreview.command(), "zed");
    assert_eq!(IdeKind::VsCodeInsiders.display_name(), "VS Code Insiders");
    assert_eq!(IdeKind::VsCode.app_name(), Some("Visual Studio Code.app"));
    assert_eq!(IdeKind::Goland.app_name(), None);
    assert_eq!(IdeKind::Zed.app_executable_name(), "cli");
    assert_eq!(IdeKind::VsCode.app_executable_name(), "Electron");
    assert_eq!(IdeKind::Webstorm.app_executable_name(), "webstorm");
    assert_eq!(IdeKind::Webstorm.family_rank(), 5);
    assert_eq!(IdeKind::VsCodeInsiders.family_rank(), 6);
}

#[test]
fn launcher_accessors() {
    let l = Launcher::new(
        IdeKind::Zed,
        "/usr/local/bin/zed".to_string(),
        Some("/Applications/Zed.app".to_string()),
        Some("Zed 0.180.0 – /Applications/Zed.app".to_string()),
        None,
        79,
    );
    assert_eq!(l.kind(), IdeKind::Zed);
    assert_eq!(l.command(), "zed");
    assert_eq!(l.launcher_path(), "/usr/local/bin/zed");
    assert_eq!(l.path(), "/usr/local/bin/zed");
    assert_eq!(l.app_path(), Some("/Applications/Zed.app"));
    assert!(l.label().starts_with("Zed           0.180.0  /Applications/Zed.app"));
}
