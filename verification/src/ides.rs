//! Supported IDEs, their launchers, and the choice of a launcher to open a
//! project or the dotfiles with.

use vstd::prelude::*;
use vstd::string::*;
use crate::text::same_text;

verus! {

/// An IDE that `af` can open projects with.
#[derive(Debug, Clone, Copy, PartialEq, Eq, PartialOrd, Ord, Structural)]
pub enum IdeKind {
    Zed,
    ZedPreview,
    Clion,
    Goland,
    Rubymine,
    Rustrover,
    Webstorm,
    VsCode,
    VsCodeInsiders,
}

/// Every supported IDE, in the order in which launchers are looked for.
pub open spec fn supported_ides() -> Seq<IdeKind> {
    seq![
        IdeKind::Zed,
        IdeKind::ZedPreview,
        IdeKind::Clion,
        IdeKind::Goland,
        IdeKind::Rubymine,
        IdeKind::Rustrover,
        IdeKind::Webstorm,
        IdeKind::VsCode,
        IdeKind::VsCodeInsiders,
    ]
}

/// Every supported IDE, in the order in which launchers are looked for.
pub fn supported_ide_kinds() -> (r: [IdeKind; 9])
    ensures
        r@ == supported_ides(),
{
    let kinds = [
        IdeKind::Zed,
        IdeKind::ZedPreview,
        IdeKind::Clion,
        IdeKind::Goland,
        IdeKind::Rubymine,
        IdeKind::Rustrover,
        IdeKind::Webstorm,
        IdeKind::VsCode,
        IdeKind::VsCodeInsiders,
    ];
    assert(kinds@ == supported_ides());
    kinds
}

/// The command that launches an IDE.
pub open spec fn command_of(k: IdeKind) -> Seq<char> {
    match k {
        IdeKind::Zed | IdeKind::ZedPreview => "zed"@,
        IdeKind::Clion => "clion"@,
        IdeKind::Goland => "goland"@,
        IdeKind::Rubymine => "rubymine"@,
        IdeKind::Rustrover => "rustrover"@,
        IdeKind::Webstorm => "webstorm"@,
        IdeKind::VsCode => "code"@,
        IdeKind::VsCodeInsiders => "code-insiders"@,
    }
}

/// The name under which an IDE is shown.
pub open spec fn display_name_of(k: IdeKind) -> Seq<char> {
    match k {
        IdeKind::Zed => "Zed"@,
        IdeKind::ZedPreview => "Zed Preview"@,
        IdeKind::Clion => "CLion"@,
        IdeKind::Goland => "GoLand"@,
        IdeKind::Rubymine => "RubyMine"@,
        IdeKind::Rustrover => "RustRover"@,
        IdeKind::Webstorm => "WebStorm"@,
        IdeKind::VsCode => "VS Code"@,
        IdeKind::VsCodeInsiders => "VS Code Insiders"@,
    }
}

/// The macOS application bundle of an IDE, where it has a known one.
pub open spec fn app_name_of(k: IdeKind) -> Option<Seq<char>> {
    match k {
        IdeKind::Zed => Some("Zed.app"@),
        IdeKind::ZedPreview => Some("Zed Preview.app"@),
        IdeKind::VsCode => Some("Visual Studio Code.app"@),
        IdeKind::VsCodeInsiders => Some("Visual Studio Code - Insiders.app"@),
        _ => None,
    }
}

/// The executable inside an IDE's application bundle.
pub open spec fn app_executable_name_of(k: IdeKind) -> Seq<char> {
    match k {
        IdeKind::Zed | IdeKind::ZedPreview => "cli"@,
        IdeKind::VsCode | IdeKind::VsCodeInsiders => "Electron"@,
        _ => command_of(k),
    }
}

/// The rank of an IDE's family in listings (Zed first, VS Code last).
pub open spec fn family_rank_of(k: IdeKind) -> nat {
    match k {
        IdeKind::Zed | IdeKind::ZedPreview => 0,
        IdeKind::Clion => 1,
        IdeKind::Goland => 2,
        IdeKind::Rubymine => 3,
        IdeKind::Rustrover => 4,
        IdeKind::Webstorm => 5,
        IdeKind::VsCode | IdeKind::VsCodeInsiders => 6,
    }
}

impl IdeKind {
    /// The command that launches this IDE.
    pub fn command(self) -> (r: &'static str)
        ensures
            r@ == command_of(self),
    {
        match self {
            IdeKind::Zed | IdeKind::ZedPreview => "zed",
            IdeKind::Clion => "clion",
            IdeKind::Goland => "goland",
            IdeKind::Rubymine => "rubymine",
            IdeKind::Rustrover => "rustrover",
            IdeKind::Webstorm => "webstorm",
            IdeKind::VsCode => "code",
            IdeKind::VsCodeInsiders => "code-insiders",
        }
    }

    /// The name under which this IDE is shown.
    pub fn display_name(self) -> (r: &'static str)
        ensures
            r@ == display_name_of(self),
    {
        match self {
            IdeKind::Zed => "Zed",
            IdeKind::ZedPreview => "Zed Preview",
            IdeKind::Clion => "CLion",
            IdeKind::Goland => "GoLand",
            IdeKind::Rubymine => "RubyMine",
            IdeKind::Rustrover => "RustRover",
            IdeKind::Webstorm => "WebStorm",
            IdeKind::VsCode => "VS Code",
            IdeKind::VsCodeInsiders => "VS Code Insiders",
        }
    }

    /// The macOS application bundle of this IDE, where it has a known one.
    pub fn app_name(self) -> (r: Option<&'static str>)
        ensures
            match r {
                Some(s) => app_name_of(self) == Some(s@),
                None => app_name_of(self) is None,
            },
    {
        match self {
            IdeKind::Zed => Some("Zed.app"),
            IdeKind::ZedPreview => Some("Zed Preview.app"),
            IdeKind::VsCode => Some("Visual Studio Code.app"),
            IdeKind::VsCodeInsiders => Some("Visual Studio Code - Insiders.app"),
            _ => None,
        }
    }

    /// The executable inside this IDE's application bundle.
    pub fn app_executable_name(self) -> (r: &'static str)
        ensures
            r@ == app_executable_name_of(self),
    {
        match self {
            IdeKind::Zed | IdeKind::ZedPreview => "cli",
            IdeKind::VsCode | IdeKind::VsCodeInsiders => "Electron",
            _ => self.command(),
        }
    }

    /// The rank of this IDE's family in listings.
    pub fn family_rank(self) -> (r: usize)
        ensures
            r == family_rank_of(self),
    {
        match self {
            IdeKind::Zed | IdeKind::ZedPreview => 0,
            IdeKind::Clion => 1,
            IdeKind::Goland => 2,
            IdeKind::Rubymine => 3,
            IdeKind::Rustrover => 4,
            IdeKind::Webstorm => 5,
            IdeKind::VsCode | IdeKind::VsCodeInsiders => 6,
        }
    }
}

/// The IDE command for a repository language (as the host reports it, in lower case).
pub open spec fn ide_for_language(language: Seq<char>) -> Option<Seq<char>> {
    if language == "c"@ || language == "c++"@ {
        Some("clion"@)
    } else if language == "go"@ {
        Some("goland"@)
    } else if language == "javascript"@ {
        Some("webstorm"@)
    } else if language == "ruby"@ {
        Some("rubymine"@)
    } else if language == "rust"@ {
        Some("rustrover"@)
    } else {
        None
    }
}

/// The IDE command for a repository language.
pub fn get(language: &str) -> (r: Option<&'static str>)
    ensures
        match r {
            Some(s) => ide_for_language(language@) == Some(s@),
            None => ide_for_language(language@) is None,
        },
{
    if same_text(language, "c") || same_text(language, "c++") {
        Some("clion")
    } else if same_text(language, "go") {
        Some("goland")
    } else if same_text(language, "javascript") {
        Some("webstorm")
    } else if same_text(language, "ruby") {
        Some("rubymine")
    } else if same_text(language, "rust") {
        Some("rustrover")
    } else {
        None
    }
}

/// Whether `command` launches a supported IDE.
pub open spec fn is_supported_command(command: Seq<char>) -> bool {
    exists|k: IdeKind| command_of(k) == command
}

/// The supported IDE command equal to `command`, if there is one.
pub fn supported_command(command: &str) -> (r: Option<&'static str>)
    ensures
        match r {
            Some(s) => s@ == command@ && is_supported_command(command@),
            None => !is_supported_command(command@),
        },
{
    let kinds = supported_ide_kinds();
    let mut i: usize = 0;
    while i < kinds.len()
        invariant
            kinds@ == supported_ides(),
            i <= kinds@.len(),
            forall|j: int| 0 <= j < i ==> command_of(#[trigger] kinds@[j]) != command@,
        decreases kinds@.len() - i,
    {
        let candidate = kinds[i].command();
        if same_text(candidate, command) {
            return Some(candidate);
        }
        i = i + 1;
    }
    assert forall|k: IdeKind| command_of(k) != command@ by {
        match k {
            IdeKind::Zed => assert(command_of(kinds@[0]) != command@),
            IdeKind::ZedPreview => assert(command_of(kinds@[1]) != command@),
            IdeKind::Clion => assert(command_of(kinds@[2]) != command@),
            IdeKind::Goland => assert(command_of(kinds@[3]) != command@),
            IdeKind::Rubymine => assert(command_of(kinds@[4]) != command@),
            IdeKind::Rustrover => assert(command_of(kinds@[5]) != command@),
            IdeKind::Webstorm => assert(command_of(kinds@[6]) != command@),
            IdeKind::VsCode => assert(command_of(kinds@[7]) != command@),
            IdeKind::VsCodeInsiders => assert(command_of(kinds@[8]) != command@),
        }
    }
    None
}

} // verus!

verus! {

/// An installed IDE launcher and the label under which it is listed.
#[derive(Debug, Clone)]
pub struct Launcher {
    kind: IdeKind,
    launcher_path: String,
    app_path: Option<String>,
    version: Option<String>,
    label: String,
}

/// The mathematical value of a `Launcher`.
pub struct LauncherView {
    pub kind: IdeKind,
    pub launcher_path: Seq<char>,
    pub app_path: Option<Seq<char>>,
    pub version: Option<Seq<char>>,
    pub label: Seq<char>,
}

impl View for Launcher {
    type V = LauncherView;

    closed spec fn view(&self) -> LauncherView {
        LauncherView {
            kind: self.kind,
            launcher_path: self.launcher_path@,
            app_path: crate::repository::option_text_view(self.app_path),
            version: crate::repository::option_text_view(self.version),
            label: self.label@,
        }
    }
}

impl Launcher {
    /// A launcher of `kind` at `launcher_path`, labelled for a terminal
    /// `columns` wide with paths shown relative to `home`.
    pub fn new(
        kind: IdeKind,
        launcher_path: String,
        app_path: Option<String>,
        version: Option<String>,
        home: Option<&str>,
        columns: u16,
    ) -> (r: Launcher)
        requires
            version matches Some(v) ==> v@.len() <= isize::MAX,
        ensures
            r@.kind == kind,
            r@.launcher_path == launcher_path@,
            r@.app_path == crate::repository::option_text_view(app_path),
            r@.version == crate::repository::option_text_view(version),
            r@.label == crate::label::label_text(
                kind,
                crate::repository::option_text_view(version),
                crate::repository::option_text_view(app_path),
                launcher_path@,
                crate::label::option_str_view(home),
                columns as nat,
            ),
    {
        let label = crate::label::format_label_with_home(
            kind,
            match &version {
                Some(v) => Some(v.as_str()),
                None => None,
            },
            match &app_path {
                Some(p) => Some(p.as_str()),
                None => None,
            },
            launcher_path.as_str(),
            home,
            columns,
        );
        Launcher { kind, launcher_path, app_path, version, label }
    }

    /// The IDE this launcher starts.
    pub fn kind(&self) -> (r: IdeKind)
        ensures
            r == self@.kind,
    {
        self.kind
    }

    /// The command of the IDE this launcher starts.
    pub fn command(&self) -> (r: &'static str)
        ensures
            r@ == command_of(self@.kind),
    {
        self.kind.command()
    }

    /// The path of the launcher.
    pub fn launcher_path(&self) -> (r: &str)
        ensures
            r@ == self@.launcher_path,
    {
        self.launcher_path.as_str()
    }

    /// The path to run to open the IDE (the launcher path).
    pub fn path(&self) -> (r: &str)
        ensures
            r@ == self@.launcher_path,
    {
        self.launcher_path()
    }

    /// The label under which the launcher is listed.
    pub fn label(&self) -> (r: &str)
        ensures
            r@ == self@.label,
    {
        self.label.as_str()
    }

    /// The application bundle the launcher belongs to, if known.
    pub fn app_path(&self) -> (r: Option<&str>)
        ensures
            crate::label::option_str_view(r) == self@.app_path,
    {
        match &self.app_path {
            Some(p) => Some(p.as_str()),
            None => None,
        }
    }
}

/// The launcher kinds, in order.
pub open spec fn kinds_of(ls: Seq<Launcher>) -> Seq<IdeKind> {
    ls.map_values(|l: Launcher| l@.kind)
}

/// The first index of a kind that satisfies `p`, if any.
pub open spec fn first_index_where(kinds: Seq<IdeKind>, p: spec_fn(IdeKind) -> bool) -> Option<int> {
    if exists|i: int| 0 <= i < kinds.len() && p(kinds[i]) {
        Some(
            choose|i: int|
                0 <= i < kinds.len() && p(kinds[i]) && forall|j: int| 0 <= j < i ==> !p(kinds[j]),
        )
    } else {
        None
    }
}

/// `first_index_where` names the least index that satisfies `p`.
pub proof fn lemma_first_index_where(kinds: Seq<IdeKind>, p: spec_fn(IdeKind) -> bool, i: int)
    requires
        0 <= i < kinds.len(),
        p(kinds[i]),
        forall|j: int| 0 <= j < i ==> !p(kinds[j]),
    ensures
        first_index_where(kinds, p) == Some(i),
{
    let w = choose|w: int|
        0 <= w < kinds.len() && p(kinds[w]) && forall|j: int| 0 <= j < w ==> !p(kinds[j]);
    assert(0 <= w < kinds.len() && p(kinds[w]) && forall|j: int| 0 <= j < w ==> !p(kinds[j]));
    if w < i {
        assert(!p(kinds[w]));
    }
    if i < w {
        assert(!p(kinds[i]));
    }
}

pub open spec fn has_command(command: Seq<char>) -> spec_fn(IdeKind) -> bool {
    |k: IdeKind| command_of(k) == command
}

pub open spec fn is_kind(kind: IdeKind) -> spec_fn(IdeKind) -> bool {
    |k: IdeKind| k == kind
}

/// In the family of `kind`: only Zed has a family, of Zed and Zed Preview.
pub open spec fn in_family_of(kind: IdeKind) -> spec_fn(IdeKind) -> bool {
    |k: IdeKind| kind == IdeKind::Zed && (k == IdeKind::Zed || k == IdeKind::ZedPreview)
}

/// The first launcher of the first kind in `kinds` that has one.
pub open spec fn first_of_kinds(ls: Seq<IdeKind>, kinds: Seq<IdeKind>) -> Option<int>
    decreases kinds.len(),
{
    if kinds.len() == 0 {
        None
    } else {
        match first_index_where(ls, is_kind(kinds[0])) {
            Some(i) => Some(i),
            None => first_of_kinds(ls, kinds.drop_first()),
        }
    }
}

pub open spec fn or_else(a: Option<int>, b: Option<int>) -> Option<int> {
    match a {
        Some(i) => Some(i),
        None => b,
    }
}

pub open spec fn index_view(r: Option<usize>) -> Option<int> {
    match r {
        Some(i) => Some(i as int),
        None => None,
    }
}

pub open spec fn vscode_ides() -> Seq<IdeKind> {
    seq![IdeKind::VsCode, IdeKind::VsCodeInsiders]
}

/// The first launcher whose IDE command is `command`.
pub fn first_index_by_command(launchers: &[Launcher], command: &str) -> (r: Option<usize>)
    ensures
        index_view(r) == first_index_where(kinds_of(launchers@), has_command(command@)),
{
    let ghost kinds = kinds_of(launchers@);
    let ghost p = has_command(command@);
    let mut i: usize = 0;
    while i < launchers.len()
        invariant
            kinds == kinds_of(launchers@),
            p == has_command(command@),
            i <= launchers@.len(),
            forall|j: int| 0 <= j < i ==> !p(kinds[j]),
        decreases launchers@.len() - i,
    {
        if same_text(launchers[i].command(), command) {
            proof {
                lemma_first_index_where(kinds, p, i as int);
            }
            return Some(i);
        }
        i = i + 1;
    }
    None
}

/// The first launcher of `kind`.
pub fn first_index_of_kind(launchers: &[Launcher], kind: IdeKind) -> (r: Option<usize>)
    ensures
        index_view(r) == first_index_where(kinds_of(launchers@), is_kind(kind)),
{
    let ghost kinds = kinds_of(launchers@);
    let ghost p = is_kind(kind);
    let mut i: usize = 0;
    while i < launchers.len()
        invariant
            kinds == kinds_of(launchers@),
            p == is_kind(kind),
            i <= launchers@.len(),
            forall|j: int| 0 <= j < i ==> !p(kinds[j]),
        decreases launchers@.len() - i,
    {
        if launchers[i].kind() == kind {
            proof {
                lemma_first_index_where(kinds, p, i as int);
            }
            return Some(i);
        }
        i = i + 1;
    }
    None
}

/// The first launcher of the first kind in `kinds` that has one.
pub fn first_index_by_kinds(launchers: &[Launcher], kinds: &[IdeKind]) -> (r: Option<usize>)
    ensures
        index_view(r) == first_of_kinds(kinds_of(launchers@), kinds@),
{
    let mut i: usize = 0;
    assert(kinds@.skip(0) =~= kinds@);
    while i < kinds.len()
        invariant
            i <= kinds@.len(),
            first_of_kinds(kinds_of(launchers@), kinds@) == first_of_kinds(
                kinds_of(launchers@),
                kinds@.skip(i as int),
            ),
        decreases kinds@.len() - i,
    {
        let found = first_index_of_kind(launchers, kinds[i]);
        assert(kinds@.skip(i as int)[0] == kinds@[i as int]);
        assert(kinds@.skip(i as int).drop_first() =~= kinds@.skip(i + 1));
        if found.is_some() {
            return found;
        }
        i = i + 1;
    }
    assert(kinds@.skip(i as int).len() == 0);
    None
}

/// The first launcher in the family of `kind`.
pub fn first_index_by_kind_family(launchers: &[Launcher], kind: IdeKind) -> (r: Option<usize>)
    ensures
        index_view(r) == first_index_where(kinds_of(launchers@), in_family_of(kind)),
{
    let ghost kinds = kinds_of(launchers@);
    let ghost p = in_family_of(kind);
    let mut i: usize = 0;
    while i < launchers.len()
        invariant
            kinds == kinds_of(launchers@),
            p == in_family_of(kind),
            i <= launchers@.len(),
            forall|j: int| 0 <= j < i ==> !p(kinds[j]),
        decreases launchers@.len() - i,
    {
        let k = launchers[i].kind();
        if kind == IdeKind::Zed && (k == IdeKind::Zed || k == IdeKind::ZedPreview) {
            proof {
                lemma_first_index_where(kinds, p, i as int);
            }
            return Some(i);
        }
        i = i + 1;
    }
    None
}

} // verus!

verus! {

/// What the `regex` crate captures as group `group` when `pattern` is searched
/// for in `haystack`: `None` if the pattern does not compile, `Some(None)` if
/// there is no match or the group took part in none. (Named, not defined.)
pub uninterp spec fn regex_capture(pattern: Seq<char>, haystack: Seq<char>, group: nat) -> Option<
    Option<Seq<char>>,
>;

/// Compiles `pattern` with `regex::Regex::new`, searches `haystack` with
/// `Regex::captures`, and reads group `group` with `Captures::get`. The
/// contract claims that the outcome is the named `regex_capture`.
#[verifier::external_body]
pub(crate) fn first_capture(pattern: &str, haystack: &str, group: usize) -> (r: Option<Option<String>>)
    ensures
        match r {
            Some(Some(s)) => regex_capture(pattern@, haystack@, group as nat) == Some(Some(s@)),
            Some(None) => regex_capture(pattern@, haystack@, group as nat) == Some(
                None::<Seq<char>>,
            ),
            None => regex_capture(pattern@, haystack@, group as nat) is None,
        },
{
    match regex::Regex::new(pattern) {
        Err(_) => None,
        Ok(re) => match re.captures(haystack) {
            None => Some(None),
            Some(c) => match c.get(group) {
                None => Some(None),
                Some(m) => Some(Some(m.as_str().to_string())),
            },
        },
    }
}

/// The pattern of the macOS service name of a process that a JetBrains IDE started.
pub const JETBRAINS_SERVICE_PATTERN: &'static str = "application\\.com\\.jetbrains\\.(\\w+)(?:-.+)?(?:\\.\\d+)*";

/// The JetBrains IDE whose terminal we run in, read from the macOS service
/// name (`XPC_SERVICE_NAME`): the product named in it, if that is a supported
/// IDE command.
pub open spec fn jetbrains_ide(xpc_service_name: Seq<char>) -> Option<Seq<char>> {
    match regex_capture(
        "application\\.com\\.jetbrains\\.(\\w+)(?:-.+)?(?:\\.\\d+)*"@,
        xpc_service_name,
        1,
    ) {
        Some(Some(w)) => if is_supported_command(w) {
            Some(w)
        } else {
            None
        },
        _ => None,
    }
}

/// The JetBrains IDE named by a macOS service name (see `jetbrains_ide`).
pub fn active_jetbrains_in(xpc_service_name: &str) -> (r: Option<&'static str>)
    ensures
        crate::label::option_str_view(r) == jetbrains_ide(xpc_service_name@),
{
    match first_capture(JETBRAINS_SERVICE_PATTERN, xpc_service_name, 1) {
        Some(Some(w)) => supported_command(w.as_str()),
        _ => None,
    }
}

pub open spec fn vscode_lower() -> Seq<char> {
    seq!['v', 's', 'c', 'o', 'd', 'e']
}

pub open spec fn vscode_upper() -> Seq<char> {
    seq!['V', 'S', 'C', 'O', 'D', 'E']
}

/// Whether `TERM_PROGRAM` says the terminal is VS Code's: it equals `vscode`
/// ignoring ASCII case.
pub open spec fn is_vscode_term(term_program: Option<Seq<char>>) -> bool {
    match term_program {
        Some(v) => v.len() == 6 && forall|i: int|
            0 <= i < 6 ==> v[i] == vscode_lower()[i] || v[i] == vscode_upper()[i],
        None => false,
    }
}

/// Whether a `TERM_PROGRAM` value names VS Code's terminal.
pub fn is_vscode_term_program(term_program: Option<&str>) -> (r: bool)
    ensures
        r == is_vscode_term(crate::label::option_str_view(term_program)),
{
    match term_program {
        None => false,
        Some(v) => {
            let c = crate::text::chars_of(v);
            let lower = ['v', 's', 'c', 'o', 'd', 'e'];
            let upper = ['V', 'S', 'C', 'O', 'D', 'E'];
            assert(lower@ == vscode_lower());
            assert(upper@ == vscode_upper());
            if c.len() != 6 {
                return false;
            }
            let mut i: usize = 0;
            while i < 6
                invariant
                    term_program == Some(v),
                    c@ == v@,
                    c@.len() == 6,
                    lower@ == vscode_lower(),
                    upper@ == vscode_upper(),
                    i <= 6,
                    forall|j: int| 0 <= j < i ==> c@[j] == lower@[j] || c@[j] == upper@[j],
                decreases 6 - i,
            {
                if c[i] != lower[i] && c[i] != upper[i] {
                    assert(crate::label::option_str_view(term_program) == Some(v@));
                    let ghost k = i as int;
                    assert(!(v@[k] == vscode_lower()[k] || v@[k] == vscode_upper()[k]));
                    return false;
                }
                i = i + 1;
            }
            true
        },
    }
}

/// The launcher chosen to open a freshly cloned project: the active JetBrains
/// IDE, else VS Code when running in its terminal, else Zed, else the IDE for
/// the repository's language, else the first launcher; none if there are no
/// launchers.
pub open spec fn clone_choice(
    active: Option<Seq<char>>,
    in_vscode: bool,
    kinds: Seq<IdeKind>,
    repo_ide: Option<Seq<char>>,
) -> Option<int> {
    if kinds.len() == 0 {
        None
    } else {
        or_else(
            match active {
                Some(c) => first_index_where(kinds, has_command(c)),
                None => None,
            },
            or_else(
                if in_vscode {
                    first_of_kinds(kinds, vscode_ides())
                } else {
                    None
                },
                or_else(
                    first_index_where(kinds, in_family_of(IdeKind::Zed)),
                    or_else(
                        match repo_ide {
                            Some(c) => first_index_where(kinds, has_command(c)),
                            None => None,
                        },
                        Some(0),
                    ),
                ),
            ),
        )
    }
}

/// The launcher chosen to open the dotfiles: the active JetBrains IDE, else
/// Zed, else GoLand, else VS Code.
pub open spec fn dot_choice(active: Option<Seq<char>>, kinds: Seq<IdeKind>) -> Option<int> {
    or_else(
        match active {
            Some(c) => first_index_where(kinds, has_command(c)),
            None => None,
        },
        or_else(
            first_index_where(kinds, in_family_of(IdeKind::Zed)),
            or_else(
                first_index_where(kinds, has_command("goland"@)),
                first_of_kinds(kinds, vscode_ides()),
            ),
        ),
    )
}

/// What `first_index_where` finds: the least index that satisfies `p`, or
/// none when no index does.
pub proof fn lemma_first_index_where_found(kinds: Seq<IdeKind>, p: spec_fn(IdeKind) -> bool)
    ensures
        match first_index_where(kinds, p) {
            Some(i) => 0 <= i < kinds.len() && p(kinds[i]) && forall|j: int|
                0 <= j < i ==> !p(kinds[j]),
            None => forall|j: int| 0 <= j < kinds.len() ==> !p(kinds[j]),
        },
{
    if exists|i: int| 0 <= i < kinds.len() && p(kinds[i]) {
        let i = choose|i: int| 0 <= i < kinds.len() && p(kinds[i]);
        lemma_least_index(kinds, p, i);
    }
}

/// Below an index that satisfies `p` stands a least one.
proof fn lemma_least_index(kinds: Seq<IdeKind>, p: spec_fn(IdeKind) -> bool, i: int)
    requires
        0 <= i < kinds.len(),
        p(kinds[i]),
    ensures
        exists|w: int|
            0 <= w <= i && p(kinds[w]) && forall|j: int| 0 <= j < w ==> !p(kinds[j]),
    decreases i,
{
    if exists|j: int| 0 <= j < i && p(kinds[j]) {
        let j = choose|j: int| 0 <= j < i && p(kinds[j]);
        lemma_least_index(kinds, p, j);
    } else {
        assert(0 <= i <= i && p(kinds[i]) && forall|j: int| 0 <= j < i ==> !p(kinds[j]));
    }
}

/// What `first_of_kinds` finds: a launcher of one of the kinds, or none when
/// there is no launcher of any of them.
pub proof fn lemma_first_of_kinds_found(ls: Seq<IdeKind>, kinds: Seq<IdeKind>)
    ensures
        match first_of_kinds(ls, kinds) {
            Some(i) => 0 <= i < ls.len() && kinds.contains(ls[i]),
            None => forall|j: int| 0 <= j < ls.len() ==> !kinds.contains(ls[j]),
        },
    decreases kinds.len(),
{
    if kinds.len() > 0 {
        lemma_first_index_where_found(ls, is_kind(kinds[0]));
        lemma_first_of_kinds_found(ls, kinds.drop_first());
        match first_index_where(ls, is_kind(kinds[0])) {
            Some(i) => {
                assert(kinds[0] == ls[i]);
            },
            None => {
                match first_of_kinds(ls, kinds.drop_first()) {
                    Some(i) => {
                        let w = choose|w: int| 0 <= w < kinds.drop_first().len() && kinds.drop_first()[w] == ls[i];
                        assert(kinds[w + 1] == ls[i]);
                    },
                    None => {
                        assert forall|j: int| 0 <= j < ls.len() implies !kinds.contains(ls[j]) by {
                            if kinds.contains(ls[j]) {
                                let w = choose|w: int| 0 <= w < kinds.len() && kinds[w] == ls[j];
                                if w == 0 {
                                    assert(is_kind(kinds[0])(ls[j]));
                                } else {
                                    assert(kinds.drop_first()[w - 1] == ls[j]);
                                }
                            }
                        }
                    },
                }
            },
        }
    }
}

/// A launcher is chosen for a cloned project exactly when there is one, and
/// the index chosen is that of a launcher. The active JetBrains IDE wins when
/// it has a launcher; else VS Code when we run in its terminal and it has one;
/// else the first of the Zed family.
pub proof fn law_clone_choice(
    active: Option<Seq<char>>,
    in_vscode: bool,
    kinds: Seq<IdeKind>,
    repo_ide: Option<Seq<char>>,
)
    ensures
        clone_choice(active, in_vscode, kinds, repo_ide) is Some <==> kinds.len() > 0,
        clone_choice(active, in_vscode, kinds, repo_ide) matches Some(i) ==> 0 <= i < kinds.len(),
        forall|j: int|
            0 <= j < kinds.len() && active == Some(command_of(#[trigger] kinds[j]))
                ==> (clone_choice(active, in_vscode, kinds, repo_ide) matches Some(i) && i <= j
                && active == Some(command_of(kinds[i]))),
        forall|j: int|
            no_command_launcher(active, kinds) && in_vscode && 0 <= j < kinds.len()
                && vscode_ides().contains(#[trigger] kinds[j])
                ==> (clone_choice(active, in_vscode, kinds, repo_ide) matches Some(i) && vscode_ides().contains(kinds[i])),
        forall|j: int|
            no_command_launcher(active, kinds) && !(in_vscode && has_kind_among(kinds, vscode_ides()))
                && 0 <= j < kinds.len() && in_family_of(IdeKind::Zed)(#[trigger] kinds[j])
                ==> (clone_choice(active, in_vscode, kinds, repo_ide) matches Some(i) && i <= j
                && in_family_of(IdeKind::Zed)(kinds[i])),
{
    lemma_clone_choice_parts(active, kinds);
    lemma_first_of_kinds_found(kinds, vscode_ides());
    lemma_first_index_where_found(kinds, in_family_of(IdeKind::Zed));
    match repo_ide {
        Some(c) => lemma_first_index_where_found(kinds, has_command(c)),
        None => {},
    }
}

/// No launcher has the command of the active IDE (or there is none).
pub open spec fn no_command_launcher(active: Option<Seq<char>>, kinds: Seq<IdeKind>) -> bool {
    match active {
        Some(c) => forall|j: int| 0 <= j < kinds.len() ==> command_of(#[trigger] kinds[j]) != c,
        None => true,
    }
}

/// Some launcher is of one of `wanted`.
pub open spec fn has_kind_among(kinds: Seq<IdeKind>, wanted: Seq<IdeKind>) -> bool {
    exists|j: int| 0 <= j < kinds.len() && wanted.contains(#[trigger] kinds[j])
}

/// The launcher of the active IDE, when it has one, and nothing otherwise.
proof fn lemma_clone_choice_parts(active: Option<Seq<char>>, kinds: Seq<IdeKind>)
    ensures
        match active {
            Some(c) => match first_index_where(kinds, has_command(c)) {
                Some(i) => 0 <= i < kinds.len() && command_of(kinds[i]) == c && forall|j: int|
                    0 <= j < i ==> command_of(kinds[j]) != c,
                None => no_command_launcher(active, kinds),
            },
            None => no_command_launcher(active, kinds),
        },
{
    match active {
        Some(c) => lemma_first_index_where_found(kinds, has_command(c)),
        None => {},
    }
}

/// The launcher chosen for the dotfiles is that of the active JetBrains IDE,
/// of the Zed family, GoLand or VS Code, and none is chosen only when there is
/// no such launcher. The active IDE wins; else Zed, then GoLand, then VS Code.
pub proof fn law_dot_choice(active: Option<Seq<char>>, kinds: Seq<IdeKind>)
    ensures
        match dot_choice(active, kinds) {
            Some(i) => 0 <= i < kinds.len() && dot_candidate(active, kinds[i]),
            None => forall|j: int| 0 <= j < kinds.len() ==> !dot_candidate(active, #[trigger] kinds[j]),
        },
        forall|j: int|
            0 <= j < kinds.len() && active == Some(command_of(#[trigger] kinds[j]))
                ==> (dot_choice(active, kinds) matches Some(i) && i <= j && active == Some(command_of(kinds[i]))),
        forall|j: int|
            no_command_launcher(active, kinds) && 0 <= j < kinds.len() && in_family_of(IdeKind::Zed)(#[trigger] kinds[j])
                ==> (dot_choice(active, kinds) matches Some(i) && i <= j && in_family_of(IdeKind::Zed)(kinds[i])),
        forall|j: int|
            no_command_launcher(active, kinds) && !has_family_launcher(kinds) && 0 <= j < kinds.len()
                && has_command("goland"@)(#[trigger] kinds[j])
                ==> (dot_choice(active, kinds) matches Some(i) && i <= j && has_command("goland"@)(kinds[i])),
{
    lemma_clone_choice_parts(active, kinds);
    lemma_first_of_kinds_found(kinds, vscode_ides());
    lemma_first_index_where_found(kinds, in_family_of(IdeKind::Zed));
    lemma_first_index_where_found(kinds, has_command("goland"@));
}

/// Some launcher is of the Zed family.
pub open spec fn has_family_launcher(kinds: Seq<IdeKind>) -> bool {
    exists|j: int| 0 <= j < kinds.len() && in_family_of(IdeKind::Zed)(#[trigger] kinds[j])
}

/// A launcher that may be chosen for the dotfiles.
pub open spec fn dot_candidate(active: Option<Seq<char>>, k: IdeKind) -> bool {
    ||| (active matches Some(c) && command_of(k) == c)
    ||| in_family_of(IdeKind::Zed)(k)
    ||| has_command("goland"@)(k)
    ||| vscode_ides().contains(k)
}

/// Chooses the launcher to open a cloned project with (see `clone_choice`).
pub fn select_for_clone_with(
    active_jetbrains_ide: Option<&str>,
    in_vscode_terminal: bool,
    launchers: &[Launcher],
    repo_ide: Option<&str>,
) -> (r: Option<usize>)
    ensures
        index_view(r) == clone_choice(
            crate::label::option_str_view(active_jetbrains_ide),
            in_vscode_terminal,
            kinds_of(launchers@),
            crate::label::option_str_view(repo_ide),
        ),
{
    if launchers.len() == 0 {
        return None;
    }
    if let Some(ide) = active_jetbrains_ide {
        let found = first_index_by_command(launchers, ide);
        if found.is_some() {
            return found;
        }
    }
    if in_vscode_terminal {
        let kinds = [IdeKind::VsCode, IdeKind::VsCodeInsiders];
        assert(kinds@ == vscode_ides());
        let found = first_index_by_kinds(launchers, &kinds);
        if found.is_some() {
            return found;
        }
    }
    let found = first_index_by_kind_family(launchers, IdeKind::Zed);
    if found.is_some() {
        return found;
    }
    if let Some(ide) = repo_ide {
        let found = first_index_by_command(launchers, ide);
        if found.is_some() {
            return found;
        }
    }
    Some(0)
}

/// Chooses the launcher to open the dotfiles with (see `dot_choice`).
pub fn select_for_dot_with(active_jetbrains_ide: Option<&str>, launchers: &[Launcher]) -> (r:
    Option<usize>)
    ensures
        index_view(r) == dot_choice(
            crate::label::option_str_view(active_jetbrains_ide),
            kinds_of(launchers@),
        ),
{
    if let Some(ide) = active_jetbrains_ide {
        let found = first_index_by_command(launchers, ide);
        if found.is_some() {
            return found;
        }
    }
    let found = first_index_by_kind_family(launchers, IdeKind::Zed);
    if found.is_some() {
        return found;
    }
    let found = first_index_by_command(launchers, "goland");
    if found.is_some() {
        return found;
    }
    let kinds = [IdeKind::VsCode, IdeKind::VsCodeInsiders];
    assert(kinds@ == vscode_ides());
    first_index_by_kinds(launchers, &kinds)
}

/// Chooses the launcher to open a cloned project with, given the macOS service
/// name (`XPC_SERVICE_NAME`) and the terminal program (`TERM_PROGRAM`).
pub fn select_for_clone(
    launchers: &[Launcher],
    repo_ide: Option<&str>,
    xpc_service_name: &str,
    term_program: Option<&str>,
) -> (r: Option<usize>)
    ensures
        index_view(r) == clone_choice(
            jetbrains_ide(xpc_service_name@),
            is_vscode_term(crate::label::option_str_view(term_program)),
            kinds_of(launchers@),
            crate::label::option_str_view(repo_ide),
        ),
{
    select_for_clone_with(
        active_jetbrains_in(xpc_service_name),
        is_vscode_term_program(term_program),
        launchers,
        repo_ide,
    )
}

/// Chooses the launcher to open the dotfiles with, given the macOS service
/// name (`XPC_SERVICE_NAME`).
pub fn select_for_dot(launchers: &[Launcher], xpc_service_name: &str) -> (r: Option<usize>)
    ensures
        index_view(r) == dot_choice(jetbrains_ide(xpc_service_name@), kinds_of(launchers@)),
{
    select_for_dot_with(active_jetbrains_in(xpc_service_name), launchers)
}

/// Law: being in a VS Code terminal changes the choice for a cloned project
/// only when there is a VS Code launcher.
pub proof fn law_vscode_terminal_needs_vscode_launcher(
    active: Option<Seq<char>>,
    kinds: Seq<IdeKind>,
    repo_ide: Option<Seq<char>>,
)
    ensures
        !has_kind_among(kinds, vscode_ides()) ==> clone_choice(active, true, kinds, repo_ide)
            == clone_choice(active, false, kinds, repo_ide),
{
    lemma_first_of_kinds_found(kinds, vscode_ides());
    if !has_kind_among(kinds, vscode_ides()) {
        if let Some(i) = first_of_kinds(kinds, vscode_ides()) {
            assert(vscode_ides().contains(kinds[i]));
        }
    }
}

/// Law: when neither the active JetBrains IDE nor VS Code (in its terminal)
/// nor the Zed family has a launcher, a cloned project opens with the first
/// launcher of the repository language's IDE, if there is one, whether or
/// not we run in a VS Code terminal.
pub proof fn law_clone_falls_back_to_language_ide(
    active: Option<Seq<char>>,
    in_vscode: bool,
    kinds: Seq<IdeKind>,
    c: Seq<char>,
    j: int,
)
    requires
        no_command_launcher(active, kinds),
        !has_family_launcher(kinds),
        !(in_vscode && has_kind_among(kinds, vscode_ides())),
        0 <= j < kinds.len(),
        command_of(kinds[j]) == c,
    ensures
        clone_choice(active, in_vscode, kinds, Some(c)) matches Some(i) && i <= j && command_of(
            kinds[i],
        ) == c,
{
    lemma_clone_choice_parts(active, kinds);
    lemma_first_of_kinds_found(kinds, vscode_ides());
    lemma_first_index_where_found(kinds, in_family_of(IdeKind::Zed));
    lemma_first_index_where_found(kinds, has_command(c));
    assert(has_command(c)(kinds[j]));
    if let Some(z) = first_index_where(kinds, in_family_of(IdeKind::Zed)) {
        assert(in_family_of(IdeKind::Zed)(kinds[z]));
    }
    if in_vscode {
        if let Some(v) = first_of_kinds(kinds, vscode_ides()) {
            assert(vscode_ides().contains(kinds[v]));
        }
    }
}

/// Law: when no rule applies (no launcher of the active IDE, of VS Code in
/// its terminal, of the Zed family or of the repository language's IDE), a
/// cloned project is offered the first launcher.
pub proof fn law_clone_falls_back_to_first_launcher(
    active: Option<Seq<char>>,
    in_vscode: bool,
    kinds: Seq<IdeKind>,
    repo_ide: Option<Seq<char>>,
)
    requires
        kinds.len() > 0,
        no_command_launcher(active, kinds),
        !has_family_launcher(kinds),
        !(in_vscode && has_kind_among(kinds, vscode_ides())),
        no_command_launcher(repo_ide, kinds),
    ensures
        clone_choice(active, in_vscode, kinds, repo_ide) == Some(0int),
{
    lemma_clone_choice_parts(active, kinds);
    lemma_clone_choice_parts(repo_ide, kinds);
    lemma_first_of_kinds_found(kinds, vscode_ides());
    lemma_first_index_where_found(kinds, in_family_of(IdeKind::Zed));
    if let Some(z) = first_index_where(kinds, in_family_of(IdeKind::Zed)) {
        assert(in_family_of(IdeKind::Zed)(kinds[z]));
    }
    if in_vscode {
        if let Some(v) = first_of_kinds(kinds, vscode_ides()) {
            assert(vscode_ides().contains(kinds[v]));
        }
    }
}

/// Law: the Zed applications are named after the IDE (`<name>.app`), and the
/// two VS Code applications are `Visual Studio Code.app` and its Insiders
/// build.
pub proof fn law_app_names_follow_ide_names(k: IdeKind)
    ensures
        k == IdeKind::Zed || k == IdeKind::ZedPreview ==> app_name_of(k) == Some(
            display_name_of(k) + ".app"@,
        ),
        k == IdeKind::VsCode ==> app_name_of(k) == Some("Visual Studio Code"@ + ".app"@),
        k == IdeKind::VsCodeInsiders ==> app_name_of(k) == Some(
            "Visual Studio Code"@ + " - Insiders"@ + ".app"@,
        ),
{
    reveal_strlit("Zed");
    reveal_strlit("Zed Preview");
    reveal_strlit(".app");
    reveal_strlit("Zed.app");
    reveal_strlit("Zed Preview.app");
    reveal_strlit("Visual Studio Code");
    reveal_strlit(" - Insiders");
    reveal_strlit("Visual Studio Code.app");
    reveal_strlit("Visual Studio Code - Insiders.app");
    assert("Zed"@ + ".app"@ =~= "Zed.app"@);
    assert("Zed Preview"@ + ".app"@ =~= "Zed Preview.app"@);
    assert("Visual Studio Code"@ + ".app"@ =~= "Visual Studio Code.app"@);
    assert("Visual Studio Code"@ + " - Insiders"@ + ".app"@ =~= "Visual Studio Code - Insiders.app"@);
}

} // verus!
