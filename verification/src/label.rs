//! The one-line label under which a launcher is listed: IDE name, version,
//! application path and launcher path in columns that fit the terminal.

use vstd::prelude::*;
use vstd::string::*;
use crate::ides::IdeKind;
use crate::text::{
    chars_of, find_chars, has_ascii_digit_in, last_word_start, line_feed_index, occurs_at_index,
    push_spaces, push_text, replace_all_text, replace_first_text, string_of, sub_chars, trim_bounds, trim_text,
};

verus! {

/// The display width that `console::measure_text_width` gives a text. (Named,
/// not defined: it skips ANSI escape codes and counts Unicode widths.)
pub uninterp spec fn display_width(s: Seq<char>) -> nat;

/// What `console::truncate_str(s, width, tail)` makes of a text. (Named, not
/// defined.)
pub uninterp spec fn truncated(s: Seq<char>, width: nat, tail: Seq<char>) -> Seq<char>;

/// Every character is printable ASCII (from space to `~`).
pub open spec fn printable_ascii(s: Seq<char>) -> bool {
    forall|i: int| 0 <= i < s.len() ==> ' ' <= #[trigger] s[i] && s[i] <= '~'
}

/// Calls `console::measure_text_width`. The contract claims that the result is
/// the named `display_width`, and, as the crate's source shows, that a text of
/// printable ASCII characters is as wide as it is long.
#[verifier::external_body]
fn measure_width(s: &str) -> (r: usize)
    ensures
        r == display_width(s@),
        printable_ascii(s@) ==> r == s@.len(),
{
    console::measure_text_width(s)
}

/// Calls `console::truncate_str`. The contract claims that the result is the
/// named `truncated`, and, as the crate's source shows, that a text no wider
/// than `width` comes back unchanged, and that a printable ASCII text (one
/// column per character, no ANSI code) that is wider is cut after
/// `width - width(tail)` characters (0 where the tail is wider) and the tail
/// appended.
#[verifier::external_body]
fn truncate(s: &str, width: usize, tail: &str) -> (r: String)
    ensures
        r@ == truncated(s@, width as nat, tail@),
        display_width(s@) <= width ==> r@ == s@,
        printable_ascii(s@) && s@.len() > width ==> r@ == s@.subrange(
            0,
            minus(width as nat, display_width(tail@)) as int,
        ) + tail@,
{
    console::truncate_str(s, width, tail).into_owned()
}

/// A printable ASCII `value` too wide for `width` columns, cut to leave room
/// for the ellipsis, with the ellipsis.
pub open spec fn cut_with_ellipsis(value: Seq<char>, width: nat) -> Seq<char> {
    value.subrange(0, minus(width, display_width(ellipsis())) as int) + ellipsis()
}

proof fn lemma_lacks_append(a: Seq<char>, b: Seq<char>, c: char)
    requires
        crate::text::lacks(a, c),
        crate::text::lacks(b, c),
    ensures
        crate::text::lacks(a + b, c),
{
    assert forall|i: int| 0 <= i < (a + b).len() implies (a + b)[i] != c by {
        if i < a.len() {
            assert((a + b)[i] == a[i]);
        } else {
            assert((a + b)[i] == b[i - a.len()]);
        }
    }
}

pub open spec fn ellipsis() -> Seq<char> {
    seq!['\u{2026}']
}

/// `value` fitted to `width` columns: cut with an ellipsis where it is wider,
/// then filled with spaces; empty for a width of 0.
pub open spec fn padded(value: Seq<char>, width: nat) -> Seq<char> {
    if width == 0 {
        seq![]
    } else {
        let rendered = if display_width(value) > width {
            truncated(value, width, ellipsis())
        } else {
            value
        };
        rendered + crate::text::spaces(
            if display_width(rendered) < width {
                (width - display_width(rendered)) as nat
            } else {
                0
            },
        )
    }
}

/// Fits `value` to `width` columns. A printable ASCII value that fits is
/// followed by spaces up to `width`; one that does not is cut, given an
/// ellipsis and filled up with spaces; either way it stays on one line.
pub fn pad(value: &str, width: usize) -> (r: String)
    ensures
        r@ == padded(value@, width as nat),
        printable_ascii(value@) && value@.len() <= width ==> r@ == value@ + crate::text::spaces(
            (width - value@.len()) as nat,
        ),
        printable_ascii(value@) && value@.len() > width && width > 0 ==> r@ == cut_with_ellipsis(
            value@,
            width as nat,
        ) + crate::text::spaces(minus(width as nat, display_width(cut_with_ellipsis(value@, width as nat)))),
        printable_ascii(value@) ==> crate::text::lacks(r@, '\n'),
{
    if width == 0 {
        return String::new();
    }
    let rendered = if measure_width(value) > width {
        proof {
            reveal_strlit("\u{2026}");
        }
        assert("\u{2026}"@ =~= ellipsis());
        truncate(value, width, "\u{2026}")
    } else {
        value.to_owned()
    };
    let used = measure_width(rendered.as_str());
    let padding = if used < width {
        width - used
    } else {
        0
    };
    let mut out = rendered;
    push_spaces(&mut out, padding);
    proof {
        if printable_ascii(value@) {
            let sp = crate::text::spaces(padding as nat);
            assert(crate::text::lacks(sp, '\n'));
            if value@.len() > width {
                let k = minus(width as nat, display_width(ellipsis()));
                let pre = value@.subrange(0, k as int);
                assert(crate::text::lacks(pre, '\n')) by {
                    assert forall|i: int| 0 <= i < pre.len() implies pre[i] != '\n' by {
                        assert(pre[i] == value@[i]);
                    }
                }
                assert(crate::text::lacks(ellipsis(), '\n'));
                lemma_lacks_append(pre, ellipsis(), '\n');
                lemma_lacks_append(rendered@, sp, '\n');
            } else {
                assert(crate::text::lacks(value@, '\n'));
                lemma_lacks_append(rendered@, sp, '\n');
            }
        }
    }
    out
}

/// `rendered` with the first occurrence of a non-empty `home` replaced by `~`.
pub open spec fn home_relative(rendered: Seq<char>, home: Option<Seq<char>>) -> Seq<char> {
    match home {
        Some(h) => if h.len() > 0 {
            crate::text::replace_first(rendered, h, seq!['~'])
        } else {
            rendered
        },
        None => rendered,
    }
}

/// Shows a directory with every occurrence of the home directory `home` (empty
/// when unknown) replaced by `~`, as `str::replace` does.
pub fn format_directory(directory: &str, home: &str) -> (r: String)
    ensures
        r@ == crate::text::replace_all(directory@, home@, seq!['~']),
{
    proof {
        reveal_strlit("~");
    }
    assert("~"@ =~= seq!['~']);
    replace_all_text(directory, home, "~")
}

/// Shows a path relative to the home directory.
pub fn home_relative_with(rendered: &str, home: Option<&str>) -> (r: String)
    ensures
        r@ == home_relative(rendered@, match home {
            Some(h) => Some(h@),
            None => None,
        }),
{
    match home {
        Some(h) => {
            if h.is_empty() {
                rendered.to_owned()
            } else {
                proof {
                    reveal_strlit("~");
                }
                assert("~"@ =~= seq!['~']);
                replace_first_text(rendered, h, "~")
            }
        },
        None => rendered.to_owned(),
    }
}

pub open spec fn zed_prefix() -> Seq<char> {
    seq!['Z', 'e', 'd', ' ']
}

pub open spec fn zed_version_separator() -> Seq<char> {
    seq![' ', '\u{2013}', ' ']
}

/// The version shown for an IDE, read from the first output line of its
/// `--version`: for Zed, what follows `Zed ` up to ` – `; for VS Code, the
/// first line; otherwise the last word if it holds a digit, else the whole
/// (trimmed) text.
pub open spec fn version_text(kind: IdeKind, raw: Seq<char>) -> Seq<char> {
    let t = crate::text::trim(raw);
    match kind {
        IdeKind::Zed | IdeKind::ZedPreview => if crate::text::starts_with(t, zed_prefix()) {
            let rest = t.subrange(4, t.len() as int);
            match crate::text::first_occurrence(rest, zed_version_separator()) {
                Some(i) => rest.subrange(0, i),
                None => rest,
            }
        } else {
            t
        },
        IdeKind::VsCode | IdeKind::VsCodeInsiders => crate::text::trim(
            crate::text::before_line_feed(t),
        ),
        _ => if crate::text::has_ascii_digit(crate::text::last_word(t)) {
            crate::text::last_word(t)
        } else {
            t
        },
    }
}

/// Extracts the version to show from an IDE's version output.
pub fn extract_version(kind: IdeKind, raw: &str) -> (r: String)
    ensures
        r@ == version_text(kind, raw@),
        r@.len() <= raw@.len(),
{
    let t = trim_text(raw);
    proof {
        crate::text::lemma_trim_len(raw@);
    }
    match kind {
        IdeKind::Zed | IdeKind::ZedPreview => {
            let prefix = ['Z', 'e', 'd', ' '];
            assert(prefix@ == zed_prefix());
            if occurs_at_index(&t, &prefix, 0) {
                let rest = sub_chars(&t, 4, t.len());
                let sep = [' ', '\u{2013}', ' '];
                assert(sep@ == zed_version_separator());
                match find_chars(&rest, &sep) {
                    Some(i) => string_of(&sub_chars(&rest, 0, i)),
                    None => string_of(&rest),
                }
            } else {
                string_of(&t)
            }
        },
        IdeKind::VsCode | IdeKind::VsCodeInsiders => {
            let e = line_feed_index(&t);
            let line = sub_chars(&t, 0, e);
            let (a, b) = trim_bounds(&line);
            string_of(&sub_chars(&line, a, b))
        },
        _ => {
            let start = last_word_start(&t);
            if has_ascii_digit_in(&t, start, t.len()) {
                string_of(&sub_chars(&t, start, t.len()))
            } else {
                string_of(&t)
            }
        },
    }
}

pub open spec fn column_gap() -> Seq<char> {
    seq![' ', ' ']
}

pub open spec fn max_nat(a: nat, b: nat) -> nat {
    if a >= b {
        a
    } else {
        b
    }
}

/// `a - b`, or 0 where `b` is larger.
pub open spec fn minus(a: nat, b: nat) -> nat {
    if a >= b {
        (a - b) as nat
    } else {
        0
    }
}

/// The label of a launcher, for a terminal `columns` wide: the IDE name, the
/// version, the application path and the launcher path (paths relative to
/// `home`), each fitted to its column, two spaces apart. The terminal counts
/// as at least 80 columns, of which 8 are kept free; the name column is at
/// least 12 wide, the version column at least 7, and of what remains the
/// application path gets two thirds and the launcher path the rest (each at
/// least 12).
pub open spec fn label_text(
    kind: IdeKind,
    version: Option<Seq<char>>,
    app_path: Option<Seq<char>>,
    launcher_path: Seq<char>,
    home: Option<Seq<char>>,
    columns: nat,
) -> Seq<char> {
    let total = minus(max_nat(columns, 80), 8);
    let name = crate::ides::display_name_of(kind);
    let version = shown_version(kind, version);
    let app = shown_path(app_path, home);
    let launcher = home_relative(launcher_path, home);
    let name_width = max_nat(name.len(), 12);
    let version_width = max_nat(version.len(), 7);
    let remaining = minus(total, name_width + version_width + 6);
    let app_width = remaining * 2 / 3;
    let launcher_width = minus(remaining, app_width);
    padded(name, name_width) + column_gap() + padded(version, version_width) + column_gap()
        + padded(app, max_nat(app_width, 12)) + column_gap() + padded(
        launcher,
        max_nat(launcher_width, 12),
    )
}

/// The version shown in a label: the one extracted from the version output,
/// if any.
pub open spec fn shown_version(kind: IdeKind, version: Option<Seq<char>>) -> Seq<char> {
    match version {
        Some(v) => version_text(kind, v),
        None => seq![],
    }
}

/// A path as shown in a label: relative to `home`, empty where there is none.
pub open spec fn shown_path(path: Option<Seq<char>>, home: Option<Seq<char>>) -> Seq<char> {
    match path {
        Some(p) => home_relative(p, home),
        None => seq![],
    }
}

/// The start of a label whose version is printable ASCII: the IDE name and
/// the version, each followed by spaces up to its column's width, and the
/// gaps after them.
pub open spec fn label_head(kind: IdeKind, version: Seq<char>) -> Seq<char> {
    let name = crate::ides::display_name_of(kind);
    crate::ides::display_name_of(kind) + crate::text::spaces(minus(max_nat(name.len(), 12), name.len()))
        + column_gap() + version + crate::text::spaces(minus(max_nat(version.len(), 7), version.len()))
        + column_gap()
}

/// What a label built from its four cells shows, given what `pad` makes of
/// printable ASCII text.
#[verifier::spinoff_prover]
proof fn lemma_label_facts(
    kind: IdeKind,
    v: Seq<char>,
    nc: Seq<char>,
    vc: Seq<char>,
    ac: Seq<char>,
    lc: Seq<char>,
    ascii_paths: bool,
)
    requires
        nc == crate::ides::display_name_of(kind) + crate::text::spaces(
            minus(max_nat(crate::ides::display_name_of(kind).len(), 12), crate::ides::display_name_of(kind).len()),
        ),
        crate::text::lacks(nc, '\n'),
        printable_ascii(v) ==> vc == v + crate::text::spaces(minus(max_nat(v.len(), 7), v.len())),
        printable_ascii(v) ==> crate::text::lacks(vc, '\n'),
        ascii_paths ==> crate::text::lacks(ac, '\n') && crate::text::lacks(lc, '\n'),
    ensures
        printable_ascii(v) ==> crate::text::starts_with(
            nc + column_gap() + vc + column_gap() + ac + column_gap() + lc,
            label_head(kind, v),
        ),
        printable_ascii(v) && ascii_paths ==> crate::text::lacks(
            nc + column_gap() + vc + column_gap() + ac + column_gap() + lc,
            '\n',
        ),
{
    let gap = column_gap();
    let label = nc + gap + vc + gap + ac + gap + lc;
    if printable_ascii(v) {
        let head = nc + gap + vc + gap;
        assert(head == label_head(kind, v));
        assert(label =~= head + (ac + gap + lc));
        assert(label.subrange(0, head.len() as int) =~= head);
        if ascii_paths {
            assert(crate::text::lacks(gap, '\n'));
            lemma_lacks_append(nc, gap, '\n');
            lemma_lacks_append(nc + gap, vc, '\n');
            lemma_lacks_append(nc + gap + vc, gap, '\n');
            lemma_lacks_append(head, ac, '\n');
            lemma_lacks_append(head + ac, gap, '\n');
            lemma_lacks_append(head + ac + gap, lc, '\n');
        }
    }
}

/// Every IDE name is printable ASCII.
proof fn lemma_display_name_ascii(kind: IdeKind)
    ensures
        printable_ascii(crate::ides::display_name_of(kind)),
{
    reveal_strlit("Zed");
    reveal_strlit("Zed Preview");
    reveal_strlit("CLion");
    reveal_strlit("GoLand");
    reveal_strlit("RubyMine");
    reveal_strlit("RustRover");
    reveal_strlit("WebStorm");
    reveal_strlit("VS Code");
    reveal_strlit("VS Code Insiders");
}

pub open spec fn option_str_view(o: Option<&str>) -> Option<Seq<char>> {
    match o {
        Some(s) => Some(s@),
        None => None,
    }
}

/// Builds the label of a launcher (see `label_text`).
#[verifier::spinoff_prover]
#[verifier::rlimit(40)]
pub fn format_label_with_home(
    kind: IdeKind,
    version: Option<&str>,
    app_path: Option<&str>,
    launcher_path: &str,
    home: Option<&str>,
    columns: u16,
) -> (r: String)
    requires
        version matches Some(v) ==> v@.len() <= isize::MAX,
    ensures
        r@ == label_text(
            kind,
            option_str_view(version),
            option_str_view(app_path),
            launcher_path@,
            option_str_view(home),
            columns as nat,
        ),
        printable_ascii(shown_version(kind, option_str_view(version))) ==> crate::text::starts_with(
            r@,
            label_head(kind, shown_version(kind, option_str_view(version))),
        ),
        printable_ascii(shown_version(kind, option_str_view(version))) && printable_ascii(
            shown_path(option_str_view(app_path), option_str_view(home)),
        ) && printable_ascii(home_relative(launcher_path@, option_str_view(home)))
            ==> crate::text::lacks(r@, '\n'),
{
    let width = columns as usize;
    let total_width = if width > 80 {
        width
    } else {
        80
    } - 8;
    let name = kind.display_name();
    let version = match version {
        Some(v) => extract_version(kind, v),
        None => String::new(),
    };
    let app_path = match app_path {
        Some(p) => home_relative_with(p, home),
        None => String::new(),
    };
    let launcher_path = home_relative_with(launcher_path, home);
    let name_len = chars_of(name).len();
    let version_len = chars_of(version.as_str()).len();
    let name_width = if name_len >= 12 {
        name_len
    } else {
        12
    };
    let version_width = if version_len >= 7 {
        version_len
    } else {
        7
    };
    assert(name_len <= 16) by {
        reveal_strlit("Zed");
        reveal_strlit("Zed Preview");
        reveal_strlit("CLion");
        reveal_strlit("GoLand");
        reveal_strlit("RubyMine");
        reveal_strlit("RustRover");
        reveal_strlit("WebStorm");
        reveal_strlit("VS Code");
        reveal_strlit("VS Code Insiders");
    }
    let used = name_width + version_width + 6;
    let remaining = if total_width >= used {
        total_width - used
    } else {
        0
    };
    let app_width = remaining * 2 / 3;
    let launcher_width = remaining - app_width;
    let app_column = if app_width >= 12 {
        app_width
    } else {
        12
    };
    let launcher_column = if launcher_width >= 12 {
        launcher_width
    } else {
        12
    };
    let name_cell = pad(name, name_width);
    let version_cell = pad(version.as_str(), version_width);
    let app_cell = pad(app_path.as_str(), app_column);
    let launcher_cell = pad(launcher_path.as_str(), launcher_column);
    let ghost nc = name_cell@;
    let mut label = name_cell;
    push_text(&mut label, "  ");
    push_text(&mut label, version_cell.as_str());
    push_text(&mut label, "  ");
    push_text(&mut label, app_cell.as_str());
    push_text(&mut label, "  ");
    push_text(&mut label, launcher_cell.as_str());
    proof {
        reveal_strlit("  ");
        assert("  "@ =~= column_gap());
        lemma_display_name_ascii(kind);
        lemma_label_facts(
            kind,
            version@,
            nc,
            version_cell@,
            app_cell@,
            launcher_cell@,
            printable_ascii(app_path@) && printable_ascii(launcher_path@),
        );
    }
    label
}

} // verus!
