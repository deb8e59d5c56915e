use af::discovery::{
    candidate_identity, candidate_to_launcher, dedupe_candidates, sort_launchers,
    version_from_output, Candidate,
};
use af::ides::{IdeKind, Launcher};
use af::label::{extract_version, pad};
use af::order::{text_order, TextOrder};
use af::paths::{
    app_bundle_of, known_app_candidate, known_app_executables, launcher_probes, path_candidate,
    zed_app_from_script,
};

fn candidate(kind: IdeKind, launcher: &str, app: Option<&str>, rank: usize) -> Candidate {
    Candidate {
        kind,
        launcher_path: launcher.to_string(),
        app_path: app.map(|a| a.to_string()),
        path_rank: rank,
    }
}

fn launcher(kind: IdeKind, path: &str, app: Option<&str>) -> Launcher {
    Launcher::new(kind, path.to_string(), app.map(|a| a.to_string()), None, None, 79)
}

#[test]
fn identity_names_the_ide_and_its_application() {
    let with_app = candidate(IdeKind::Zed, "/usr/local/bin/zed", Some("/Applications/Zed.app"), 0);
    assert_eq!(candidate_identity(&with_app), "Zed:/Applications/Zed.app");
    let without_app = candidate(IdeKind::Goland, "/usr/local/bin/goland", None, 0);
    assert_eq!(candidate_identity(&without_app), "GoLand:/usr/local/bin/goland");
}

#[test]
fn dedupe_keeps_lowest_rank_and_orders_by_identity() {
    let kept = dedupe_candidates(vec![
        candidate(IdeKind::Zed, "/b/zed", Some("/Applications/Zed.app"), 3),
        candidate(IdeKind::Goland, "/a/goland", None, 0),
        candidate(IdeKind::Zed, "/a/zed", Some("/Applications/Zed.app"), 1),
        candidate(IdeKind::Zed, "/c/zed", Some("/Applications/Zed.app"), 1),
    ]);
    assert_eq!(kept.len(), 2);
    assert_eq!(kept[0].kind, IdeKind::Goland);
    assert_eq!(kept[1].launcher_path, "/a/zed");
    assert_eq!(kept[1].path_rank, 1);
}

#[test]
fn launchers_are_sorted_by_family_then_name_then_paths() {
    let sorted = sort_launchers(
        vec![
            launcher(IdeKind::VsCode, "/bin/code", None),
            launcher(IdeKind::Goland, "/bin/goland", None),
            launcher(IdeKind::ZedPreview, "/bin/zed", Some("/Applications/Zed Preview.app")),
            launcher(IdeKind::Zed, "/Applications/Zed.app/Contents/MacOS/cli", Some("/Applications/Zed.app")),
            launcher(IdeKind::Clion, "/bin/clion", None),
        ],
        None,
    );
    let kinds = sorted.iter().map(|l| l.kind()).collect::<Vec<_>>();
    assert_eq!(
        kinds,
        vec![
            IdeKind::Zed,
            IdeKind::ZedPreview,
            IdeKind::Clion,
            IdeKind::Goland,
            IdeKind::VsCode
        ]
    );
}

#[test]
fn sort_key_uses_home_relative_paths() {
    let sorted = sort_launchers(
        vec![
            launcher(IdeKind::Goland, "/home/me/bin/goland", None),
            launcher(IdeKind::Goland, "/home/me/bin/goland", Some("/x")),
        ],
        Some("/home/me"),
    );
    assert_eq!(sorted[0].app_path(), Some("/x"));
    let sorted = sort_launchers(
        vec![
            launcher(IdeKind::Goland, "/b/goland", None),
            launcher(IdeKind::Goland, "/b/goland", None),
        ],
        None,
    );
    assert_eq!(sorted.len(), 2);
}

#[test]
fn version_output_first_nonblank_line() {
    assert_eq!(
        version_from_output(true, "\n  GoLand 2024.3  \nmore\n", ""),
        Some("GoLand 2024.3".to_string())
    );
    assert_eq!(
        version_from_output(false, "", "1.2.3\n"),
        None
    );
    assert_eq!(
        version_from_output(false, "  \n", " 1.2.3\n"),
        Some("1.2.3".to_string())
    );
    assert_eq!(version_from_output(true, "", "\n\n"), None);
}

#[test]
fn versions_are_extracted_per_ide() {
    assert_eq!(
        extract_version(IdeKind::Zed, "  Zed 0.180.2 – /Applications/Zed.app  "),
        "0.180.2"
    );
    assert_eq!(extract_version(IdeKind::ZedPreview, "zed 1.0"), "zed 1.0");
    assert_eq!(
        extract_version(IdeKind::VsCode, "1.109.5\nabc123\nx64\n"),
        "1.109.5"
    );
    assert_eq!(
        extract_version(IdeKind::Goland, "GoLand 2024.3.1"),
        "2024.3.1"
    );
    assert_eq!(
        extract_version(IdeKind::Clion, "CLion Nightly"),
        "CLion Nightly"
    );
}

#[test]
fn padding_and_truncation() {
    assert_eq!(pad("abc", 0), "");
    assert_eq!(pad("abc", 5), "abc  ");
    assert_eq!(pad("abc", 3), "abc");
    assert_eq!(pad("abcdef", 4), "abc…");
}

#[test]
fn text_order_compares_by_characters() {
    let a: Vec<char> = "abc".chars().collect();
    let b: Vec<char> = "abd".chars().collect();
    let c: Vec<char> = "ab".chars().collect();
    assert_eq!(text_order(&a, &b), TextOrder::Less);
    assert_eq!(text_order(&b, &a), TextOrder::Greater);
    assert_eq!(text_order(&c, &a), TextOrder::Less);
    assert_eq!(text_order(&a, &a), TextOrder::Equal);
}

#[test]
fn application_bundles_are_found_above_executables() {
    assert_eq!(
        app_bundle_of("/Applications/Visual Studio Code.app/Contents/MacOS/Electron"),
        Some("/Applications/Visual Studio Code.app".to_string())
    );
    assert_eq!(app_bundle_of("/usr/local/bin/zed"), None);
}

#[test]
fn zed_script_names_its_application() {
    assert_eq!(
        zed_app_from_script("#!/bin/sh\nexec '/Applications/Zed Preview.app/Contents/MacOS/cli' \"$@\"\n"),
        Some("/Applications/Zed Preview.app".to_string())
    );
    assert_eq!(zed_app_from_script("#!/bin/sh\nexec zed \"$@\"\n"), None);
    assert_eq!(
        zed_app_from_script("'/Applications/it's.app/Contents/MacOS/cli'"),
        None
    );
}

#[test]
fn known_applications_have_fixed_executables() {
    assert_eq!(
        known_app_executables(IdeKind::VsCode),
        vec!["/Applications/Visual Studio Code.app/Contents/MacOS/Electron".to_string()]
    );
    assert_eq!(
        known_app_executables(IdeKind::ZedPreview),
        vec!["/Applications/Zed Preview.app/Contents/MacOS/cli".to_string()]
    );
    assert!(known_app_executables(IdeKind::Rustrover).is_empty());
}

#[test]
fn known_app_candidates_rank_last_and_name_their_bundle() {
    let c = known_app_candidate(
        IdeKind::VsCodeInsiders,
        "/Applications/Visual Studio Code - Insiders.app/Contents/MacOS/Electron".to_string(),
    );
    assert_eq!(c.kind, IdeKind::VsCodeInsiders);
    assert_eq!(c.path_rank, usize::MAX);
    assert_eq!(
        c.app_path,
        Some("/Applications/Visual Studio Code - Insiders.app".to_string())
    );
}

#[test]
fn probes_cover_each_ide_in_each_dir_once() {
    let probes = launcher_probes(&vec!["/a".to_string(), "/b".to_string()]);
    // nine IDEs, two share the `zed` command
    assert_eq!(probes.len(), 16);
    assert_eq!(probes[0].kind, IdeKind::Zed);
    assert_eq!(probes[0].launcher_path, "/a/zed");
    assert_eq!(probes[0].path_rank, 0);
    assert_eq!(probes[1].launcher_path, "/b/zed");
    assert_eq!(probes[1].path_rank, 1);
    assert_eq!(probes[2].kind, IdeKind::Clion);
    assert_eq!(probes[15].launcher_path, "/b/code-insiders");
}

#[test]
fn path_candidates_take_their_kind_from_the_bundle() {
    let c = path_candidate(
        IdeKind::Zed,
        "/usr/local/bin/zed".to_string(),
        Some("/Applications/Zed Preview.app".to_string()),
        2,
    );
    assert_eq!(c.kind, IdeKind::ZedPreview);
    assert_eq!(c.path_rank, 2);
    let c = path_candidate(IdeKind::Goland, "/bin/goland".to_string(), None, 0);
    assert_eq!(c.kind, IdeKind::Goland);
}

#[test]
fn candidate_version_prefers_launcher_then_app() {
    let c = candidate(IdeKind::Goland, "/bin/goland", None, 0);
    let l = candidate_to_launcher(c, None, Some("GoLand 2024.1".to_string()), None, 79);
    assert!(l.label().contains("2024.1"));
    let c = candidate(IdeKind::Goland, "/bin/goland", None, 0);
    let l = candidate_to_launcher(
        c,
        Some("GoLand 2025.2".to_string()),
        Some("GoLand 2024.1".to_string()),
        None,
        79,
    );
    assert!(l.label().contains("2025.2"));
    assert!(!l.label().contains("2024.1"));
}
