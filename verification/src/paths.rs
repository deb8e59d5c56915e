//! File-system paths as text: application bundles, launcher scripts, and the
//! launcher paths that discovery probes.

use vstd::prelude::*;
use vstd::string::*;
use crate::discovery::Candidate;
use crate::ides::IdeKind;
use crate::text::{push_text, same_text};

verus! {

/// `Path::parent`. (Named, not defined.)
pub uninterp spec fn parent_path(p: Seq<char>) -> Option<Seq<char>>;

/// `Path::extension`. (Named, not defined.)
pub uninterp spec fn path_extension(p: Seq<char>) -> Option<Seq<char>>;

/// `Path::file_name`. (Named, not defined.)
pub uninterp spec fn path_file_name(p: Seq<char>) -> Option<Seq<char>>;

/// `Path::join`. (Named, not defined.)
pub uninterp spec fn joined_path(base: Seq<char>, name: Seq<char>) -> Seq<char>;

/// Path equality (`==` on `Path`, which compares components). (Named, not defined.)
pub uninterp spec fn same_path(a: Seq<char>, b: Seq<char>) -> bool;

/// Calls `Path::parent`. The contract claims that the result is the named
/// `parent_path` and, as the documentation says (the path without its final
/// component), shorter than `p`.
#[verifier::external_body]
fn parent_of(p: &str) -> (r: Option<String>)
    ensures
        crate::repository::option_text_view(r) == parent_path(p@),
        r matches Some(q) ==> q@.len() < p@.len(),
{
    std::path::Path::new(p).parent().map(|q| q.to_string_lossy().into_owned())
}

/// Calls `Path::extension`. The contract claims that the result is the named
/// `path_extension`.
#[verifier::external_body]
fn extension_of(p: &str) -> (r: Option<String>)
    ensures
        crate::repository::option_text_view(r) == path_extension(p@),
{
    std::path::Path::new(p).extension().map(|e| e.to_string_lossy().into_owned())
}

/// Calls `Path::file_name`. The contract claims that the result is the named
/// `path_file_name`.
#[verifier::external_body]
fn file_name_of(p: &str) -> (r: Option<String>)
    ensures
        crate::repository::option_text_view(r) == path_file_name(p@),
{
    std::path::Path::new(p).file_name().map(|e| e.to_string_lossy().into_owned())
}

/// Calls `Path::join`. The contract claims that the result is the named
/// `joined_path`.
#[verifier::external_body]
pub(crate) fn join_path(base: &str, name: &str) -> (r: String)
    ensures
        r@ == joined_path(base@, name@),
{
    std::path::Path::new(base).join(name).to_string_lossy().into_owned()
}

/// Compares two paths with `==` on `Path`. The contract claims that the result
/// is the named `same_path`.
#[verifier::external_body]
fn paths_equal(a: &str, b: &str) -> (r: bool)
    ensures
        r == same_path(a@, b@),
{
    std::path::Path::new(a) == std::path::Path::new(b)
}

/// The nearest enclosing directory of `p` whose extension is `app` (a macOS
/// application bundle), if any.
pub open spec fn app_bundle(p: Seq<char>) -> Option<Seq<char>>
    decreases p.len(),
{
    match parent_path(p) {
        Some(q) => if q.len() < p.len() {
            if path_extension(q) == Some("app"@) {
                Some(q)
            } else {
                app_bundle(q)
            }
        } else {
            None
        },
        None => None,
    }
}

/// Finds the application bundle that an executable lies in (see `app_bundle`).
pub fn app_bundle_of(path: &str) -> (r: Option<String>)
    ensures
        crate::repository::option_text_view(r) == app_bundle(path@),
{
    let mut current = path.to_owned();
    loop
        invariant
            app_bundle(path@) == app_bundle(current@),
        decreases current@.len(),
    {
        match parent_of(current.as_str()) {
            None => return None,
            Some(parent) => {
                let is_app = match extension_of(parent.as_str()) {
                    Some(e) => same_text(e.as_str(), "app"),
                    None => false,
                };
                if is_app {
                    return Some(parent);
                }
                current = parent;
            },
        }
    }
}

/// The IDE that an application bundle belongs to, by its file name.
pub open spec fn kind_of_app_name(name: Option<Seq<char>>) -> Option<IdeKind> {
    match name {
        Some(n) => if n == "Zed.app"@ {
            Some(IdeKind::Zed)
        } else if n == "Zed Preview.app"@ {
            Some(IdeKind::ZedPreview)
        } else if n == "Visual Studio Code.app"@ {
            Some(IdeKind::VsCode)
        } else if n == "Visual Studio Code - Insiders.app"@ {
            Some(IdeKind::VsCodeInsiders)
        } else {
            None
        },
        None => None,
    }
}

/// The IDE that an application bundle belongs to.
pub fn kind_from_app_path(path: &str) -> (r: Option<IdeKind>)
    ensures
        r == kind_of_app_name(path_file_name(path@)),
{
    match file_name_of(path) {
        Some(n) => if same_text(n.as_str(), "Zed.app") {
            Some(IdeKind::Zed)
        } else if same_text(n.as_str(), "Zed Preview.app") {
            Some(IdeKind::ZedPreview)
        } else if same_text(n.as_str(), "Visual Studio Code.app") {
            Some(IdeKind::VsCode)
        } else if same_text(n.as_str(), "Visual Studio Code - Insiders.app") {
            Some(IdeKind::VsCodeInsiders)
        } else {
            None
        },
        None => None,
    }
}

/// The pattern that finds the application bundle in a Zed launcher script:
/// a quoted `/Applications/<name>.app/Contents/MacOS/cli`, capturing the
/// bundle.
pub const ZED_CLI_PATTERN: &'static str = "'(/Applications/[^']+\\.app)/Contents/MacOS/cli'";

/// The application bundle that a Zed launcher script runs: what the `regex`
/// crate captures with `ZED_CLI_PATTERN` in the script, if anything.
pub open spec fn zed_script_app(t: Seq<char>) -> Option<Seq<char>> {
    match crate::ides::regex_capture(
        "'(/Applications/[^']+\\.app)/Contents/MacOS/cli'"@,
        t,
        1,
    ) {
        Some(Some(a)) => Some(a),
        _ => None,
    }
}

/// Reads the application bundle from a Zed launcher script (see `zed_script_app`).
pub fn zed_app_from_script(contents: &str) -> (r: Option<String>)
    ensures
        crate::repository::option_text_view(r) == zed_script_app(contents@),
{
    match crate::ides::first_capture(ZED_CLI_PATTERN, contents, 1) {
        Some(Some(a)) => Some(a),
        _ => None,
    }
}

/// The executables that an IDE's application would have when installed in
/// `/Applications`: `/Applications/<app>/Contents/MacOS/<executable>` for an
/// IDE with a known application, none otherwise.
pub fn known_app_executables(kind: IdeKind) -> (r: Vec<String>)
    ensures
        match crate::ides::app_name_of(kind) {
            Some(app) => r@.len() == 1 && r@[0]@ == "/Applications/"@ + app + "/Contents/MacOS/"@
                + crate::ides::app_executable_name_of(kind),
            None => r@.len() == 0,
        },
{
    let mut found: Vec<String> = Vec::new();
    match kind.app_name() {
        None => {},
        Some(app) => {
            let mut exe = String::new();
            push_text(&mut exe, "/Applications/");
            push_text(&mut exe, app);
            push_text(&mut exe, "/Contents/MacOS/");
            push_text(&mut exe, kind.app_executable_name());
            found.push(exe);
        },
    }
    found
}

/// A candidate for an application's executable found in `/Applications`:
/// its application is the bundle it lies in, and it ranks after every `PATH`
/// entry.
pub fn known_app_candidate(kind: IdeKind, executable: String) -> (r: Candidate)
    ensures
        r@.kind == kind,
        r@.launcher_path == executable@,
        r@.app_path == app_bundle(executable@),
        r@.path_rank == usize::MAX,
{
    let app_path = app_bundle_of(executable.as_str());
    Candidate { kind, launcher_path: executable, app_path, path_rank: usize::MAX }
}

/// A candidate found at `launcher_path` while looking for `kind`: its IDE is
/// the one its application bundle names, if that names one.
pub fn path_candidate(
    kind: IdeKind,
    launcher_path: String,
    app_path: Option<String>,
    path_rank: usize,
) -> (r: Candidate)
    ensures
        r@.kind == match app_path {
            Some(p) => match kind_of_app_name(path_file_name(p@)) {
                Some(k) => k,
                None => kind,
            },
            None => kind,
        },
        r@.launcher_path == launcher_path@,
        r@.app_path == crate::repository::option_text_view(app_path),
        r@.path_rank == path_rank,
{
    let detected = match &app_path {
        Some(p) => match kind_from_app_path(p.as_str()) {
            Some(k) => k,
            None => kind,
        },
        None => kind,
    };
    Candidate { kind: detected, launcher_path, app_path, path_rank }
}

} // verus!

verus! {

/// A launcher path to look at during discovery.
pub struct Probe {
    pub kind: IdeKind,
    pub launcher_path: String,
    /// The position of the `PATH` entry.
    pub path_rank: usize,
}

pub type ProbeView = (IdeKind, Seq<char>, nat);

impl View for Probe {
    type V = ProbeView;

    open spec fn view(&self) -> ProbeView {
        (self.kind, self.launcher_path@, self.path_rank as nat)
    }
}

pub open spec fn probe_views(v: Seq<Probe>) -> Seq<ProbeView> {
    v.map_values(|p: Probe| p@)
}

/// The launcher of the `a`-th supported IDE in the `d`-th `PATH` entry.
pub open spec fn probe_at(dirs: Seq<Seq<char>>, a: int, d: int) -> ProbeView {
    let kind = crate::ides::supported_ides()[a];
    (kind, joined_path(dirs[d], crate::ides::command_of(kind)), d as nat)
}

/// `probes` with `p` added unless a probe of the same path is there already.
pub open spec fn add_probe(probes: Seq<ProbeView>, p: ProbeView) -> Seq<ProbeView> {
    if exists|k: int| 0 <= k < probes.len() && same_path(#[trigger] probes[k].1, p.1) {
        probes
    } else {
        probes.push(p)
    }
}

/// The probes for every supported IDE (in order) and, for each, every `PATH`
/// entry (in order), each path once: the probes before the `d`-th entry of
/// the `a`-th IDE.
pub open spec fn probes_before(dirs: Seq<Seq<char>>, a: nat, d: nat) -> Seq<ProbeView>
    decreases a, d,
{
    if d > 0 {
        if d <= dirs.len() {
            add_probe(probes_before(dirs, a, (d - 1) as nat), probe_at(dirs, a as int, d - 1))
        } else {
            Seq::empty()
        }
    } else if a > 0 {
        probes_before(dirs, (a - 1) as nat, dirs.len())
    } else {
        Seq::empty()
    }
}

/// All probes for the `PATH` entries `dirs`.
pub open spec fn probes_of(dirs: Seq<Seq<char>>) -> Seq<ProbeView> {
    probes_before(dirs, 9, 0)
}

/// Whether a probe of the same path as `path` is in `probes` already.
fn probed_already(probes: &Vec<Probe>, path: &str) -> (r: bool)
    ensures
        r == exists|k: int|
            0 <= k < probes@.len() && same_path(
                #[trigger] probe_views(probes@)[k].1,
                path@,
            ),
{
    let ghost pv = probe_views(probes@);
    let mut k: usize = 0;
    while k < probes.len()
        invariant
            k <= probes@.len(),
            pv == probe_views(probes@),
            forall|q: int| 0 <= q < k ==> !same_path(#[trigger] pv[q].1, path@),
        decreases probes@.len() - k,
    {
        if paths_equal(probes[k].launcher_path.as_str(), path) {
            assert(same_path(pv[k as int].1, path@));
            return true;
        }
        k = k + 1;
    }
    false
}

/// The launcher paths to look at for the `PATH` entries `dirs` (see
/// `probes_of`); a path that is a launcher becomes a candidate.
pub fn launcher_probes(dirs: &Vec<String>) -> (r: Vec<Probe>)
    ensures
        probe_views(r@) == probes_of(crate::repository::texts_view(dirs@)),
{
    let ghost dv = crate::repository::texts_view(dirs@);
    let kinds = crate::ides::supported_ide_kinds();
    let mut out: Vec<Probe> = Vec::new();
    let mut a: usize = 0;
    while a < 9
        invariant
            dv == crate::repository::texts_view(dirs@),
            kinds@ == crate::ides::supported_ides(),
            a <= 9,
            probe_views(out@) == probes_before(dv, a as nat, 0),
        decreases 9 - a,
    {
        let mut d: usize = 0;
        while d < dirs.len()
            invariant
                dv == crate::repository::texts_view(dirs@),
                kinds@ == crate::ides::supported_ides(),
                a < 9,
                d <= dirs@.len(),
                probe_views(out@) == probes_before(dv, a as nat, d as nat),
            decreases dirs@.len() - d,
        {
            let kind = kinds[a];
            let path = join_path(dirs[d].as_str(), kind.command());
            let ghost pv = probe_at(dv, a as int, d as int);
            assert(dv[d as int] == dirs@[d as int]@);
            assert(pv == (kind, path@, d as nat));
            let ghost before = probe_views(out@);
            let seen = probed_already(&out, path.as_str());
            if !seen {
                out.push(Probe { kind, launcher_path: path, path_rank: d });
                assert(probe_views(out@) =~= before.push(pv));
            }
            d = d + 1;
        }
        a = a + 1;
    }
    out
}

/// Law: the classification of application bundles and the known bundle of
/// each IDE agree: a bundle name is classified as an IDE exactly when it is
/// that IDE's known bundle. So every classified IDE has its bundle looked for
/// in `/Applications`, and distinct IDEs are told apart.
pub proof fn law_bundle_names_classify_their_ide(k: IdeKind, b: Seq<char>)
    ensures
        kind_of_app_name(Some(b)) == Some(k) <==> crate::ides::app_name_of(k) == Some(b),
{
    reveal_strlit("Zed.app");
    reveal_strlit("Zed Preview.app");
    reveal_strlit("Visual Studio Code.app");
    reveal_strlit("Visual Studio Code - Insiders.app");
    assert("Zed.app"@.len() == 7);
    assert("Zed Preview.app"@.len() == 15);
    assert("Visual Studio Code.app"@.len() == 22);
    assert("Visual Studio Code - Insiders.app"@.len() == 33);
}

/// Law: an IDE has a known application bundle exactly when the executable in
/// its bundle is not its command (Zed's `cli`, VS Code's `Electron`); the
/// JetBrains IDEs, whose executable is their command, have none.
pub proof fn law_known_bundle_has_own_executable(k: IdeKind)
    ensures
        crate::ides::app_name_of(k) is Some <==> crate::ides::app_executable_name_of(k)
            != crate::ides::command_of(k),
{
    reveal_strlit("cli");
    reveal_strlit("zed");
    reveal_strlit("Electron");
    reveal_strlit("code");
    reveal_strlit("code-insiders");
    assert("cli"@[0] != "zed"@[0]);
    assert("Electron"@.len() != "code"@.len());
    assert("Electron"@.len() != "code-insiders"@.len());
}

} // verus!
