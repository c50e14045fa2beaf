//! The decisions behind the launcher's screens: which view is shown, which
//! releases are listed, what each asset row offers, and the release-notes
//! preview.

use vstd::prelude::*;

use crate::download::{LocalVersion, display_name_spec};
use crate::github::Release;
use crate::table::{Status, StatusView};
use crate::text::{chars_of, is_whitespace, is_ws, string_from, trim_end_spec};

verus! {

// ---------------------------------------------------------------------------
// Navigation
// ---------------------------------------------------------------------------

/// Which main view is currently displayed in the central panel.
#[derive(PartialEq, Eq, Structural, Clone, Copy)]
pub enum Screen {
    /// Version browser (the default view).
    Versions,
    /// Settings panel (login, mp server, etc.).
    Settings,
    /// About panel.
    About,
}

/// The current view and the selected category.
#[derive(Clone, Copy)]
pub struct Navigation {
    pub view: Screen,
    pub selected: usize,
}

impl Navigation {
    /// The starting state: the version browser on the first category.
    pub fn new() -> (r: Navigation)
        ensures
            r.view == Screen::Versions,
            r.selected == 0,
    {
        Navigation { view: Screen::Versions, selected: 0 }
    }

    /// Shows the versions of category `i`.
    pub fn select_category(&mut self, i: usize)
        ensures
            final(self).view == Screen::Versions,
            final(self).selected == i,
    {
        self.view = Screen::Versions;
        self.selected = i;
    }

    /// Shows the settings; the selected category is kept.
    pub fn open_settings(&mut self)
        ensures
            final(self).view == Screen::Settings,
            final(self).selected == old(self).selected,
    {
        self.view = Screen::Settings;
    }

    /// Shows the about panel; the selected category is kept.
    pub fn open_about(&mut self)
        ensures
            final(self).view == Screen::About,
            final(self).selected == old(self).selected,
    {
        self.view = Screen::About;
    }

    /// Category `i` is highlighted: the version browser shows it.
    pub fn is_category_selected(&self, i: usize) -> (r: bool)
        ensures
            r == (self.view == Screen::Versions && self.selected == i),
    {
        self.view == Screen::Versions && self.selected == i
    }

    /// The release list of the selected category is wanted (fetched on
    /// demand): only while the version browser is shown.
    pub fn wants_releases(&self) -> (r: bool)
        ensures
            r == (self.view == Screen::Versions),
    {
        self.view == Screen::Versions
    }
}

// ---------------------------------------------------------------------------
// Release list
// ---------------------------------------------------------------------------

/// The positions of the releases that are listed: all of them when preview
/// releases are shown, otherwise those that are not previews.
pub open spec fn listed_positions(releases: Seq<Release>, show_prerelease: bool) -> Seq<usize>
    decreases releases.len(),
{
    if releases.len() == 0 {
        Seq::empty()
    } else {
        let rest = listed_positions(releases.drop_last(), show_prerelease);
        if show_prerelease || !releases.last().prerelease {
            rest.push((releases.len() - 1) as usize)
        } else {
            rest
        }
    }
}

/// The positions, in order, of the releases to list.
pub fn listed_releases(releases: &Vec<Release>, show_prerelease: bool) -> (r: Vec<usize>)
    ensures
        r@ == listed_positions(releases@, show_prerelease),
{
    let mut out: Vec<usize> = Vec::new();
    let mut i: usize = 0;
    while i < releases.len()
        invariant
            i <= releases@.len(),
            out@ == listed_positions(releases@.take(i as int), show_prerelease),
        decreases releases.len() - i,
    {
        assert(releases@.take(i + 1).drop_last() =~= releases@.take(i as int));
        assert(releases@.take(i + 1).last() == releases@[i as int]);
        if show_prerelease || !releases[i].prerelease {
            out.push(i);
        }
        i += 1;
    }
    assert(releases@.take(releases.len() as int) =~= releases@);
    out
}

// ---------------------------------------------------------------------------
// Asset rows
// ---------------------------------------------------------------------------

/// What the row of one asset offers.
pub enum AssetAction {
    /// A progress bar: bytes received of the total (zero when unknown).
    Progress { received: u64, total: u64 },
    /// Waiting to start.
    Queued,
    /// Unpacking the archive.
    Extracting,
    /// A retry button and the failure message.
    Retry(String),
    /// The file is on disk: delete and launch buttons.
    Installed,
    /// A download button.
    Download,
}

/// The row of an asset, from its recorded status and whether its file is on
/// disk.
pub fn asset_action(status: &Option<Status>, installed: bool) -> (r: AssetAction)
    ensures
        match status {
            Some(s) => match s@ {
                StatusView::Downloading { received, total } => r == AssetAction::Progress {
                    received,
                    total,
                },
                StatusView::Queued => r is Queued,
                StatusView::Extracting => r is Extracting,
                StatusView::Failed(m) => r matches AssetAction::Retry(x) && x@ == m,
                StatusView::Installed(_) => if installed {
                    r is Installed
                } else {
                    r is Download
                },
            },
            None => if installed {
                r is Installed
            } else {
                r is Download
            },
        },
{
    match status {
        Some(Status::Downloading { received, total }) => AssetAction::Progress {
            received: *received,
            total: *total,
        },
        Some(Status::Queued) => AssetAction::Queued,
        Some(Status::Extracting) => AssetAction::Extracting,
        Some(Status::Failed(e)) => AssetAction::Retry(e.clone()),
        _ => {
            if installed {
                AssetAction::Installed
            } else {
                AssetAction::Download
            }
        },
    }
}

/// The name shown in the row of a local version.
pub fn local_display_name(v: &LocalVersion) -> (r: String)
    ensures
        r@ == display_name_spec(*v),
{
    v.display_name()
}

// ---------------------------------------------------------------------------
// Release notes
// ---------------------------------------------------------------------------

/// The notes with every line trimmed at its end, lines joined by `\n`:
/// `rest` is what is left to read, `line` the current line so far, `out` the
/// finished lines.
pub open spec fn trimmed_lines_from(rest: Seq<char>, line: Seq<char>, out: Seq<char>) -> Seq<char>
    decreases rest.len(),
{
    if rest.len() == 0 {
        out + trim_end_spec(line)
    } else if rest[0] == '\n' {
        trimmed_lines_from(rest.drop_first(), Seq::empty(), out + trim_end_spec(line) + seq!['\n'])
    } else {
        trimmed_lines_from(rest.drop_first(), line.push(rest[0]), out)
    }
}

/// The text with each of its lines (as `str::lines` splits them: at `\n`,
/// with one final line ending optional) trimmed at the end and the lines
/// joined with `\n`.
pub open spec fn trimmed_lines(s: Seq<char>) -> Seq<char> {
    let body = if s.len() > 0 && s.last() == '\n' {
        s.drop_last()
    } else {
        s
    };
    trimmed_lines_from(body, Seq::empty(), Seq::empty())
}

/// The preview of release notes: the trimmed lines, cut after `max_chars`
/// characters with `…` appended when longer.
pub open spec fn truncate_notes_spec(s: Seq<char>, max_chars: nat) -> Seq<char> {
    let cleaned = trimmed_lines(s);
    if cleaned.len() > max_chars {
        cleaned.take(max_chars as int).push('…')
    } else {
        cleaned
    }
}

fn trim_end_chars(v: &mut Vec<char>)
    ensures
        final(v)@ == trim_end_spec(old(v)@),
    decreases old(v)@.len(),
{
    if v.len() > 0 && is_whitespace(v[v.len() - 1]) {
        let ghost before = v@;
        v.pop();
        assert(v@ =~= before.drop_last());
        trim_end_chars(v);
    }
}

fn append_chars(out: &mut Vec<char>, more: &Vec<char>)
    ensures
        final(out)@ == old(out)@ + more@,
{
    let mut i: usize = 0;
    while i < more.len()
        invariant
            i <= more@.len(),
            out@ == old(out)@ + more@.take(i as int),
        decreases more.len() - i,
    {
        out.push(more[i]);
        i += 1;
        assert(out@ =~= old(out)@ + more@.take(i as int));
    }
    assert(more@.take(more@.len() as int) =~= more@);
}

/// Trim Markdown-ish release notes to a short, single-block preview.
pub fn truncate_notes(body: &str, max_chars: usize) -> (r: String)
    ensures
        r@ == truncate_notes_spec(body@, max_chars as nat),
{
    let s = chars_of(body);
    let mut n = s.len();
    if n > 0 && s[n - 1] == '\n' {
        n = n - 1;
    }
    let ghost text = s@.take(n as int);
    assert(text =~= if s@.len() > 0 && s@.last() == '\n' {
        s@.drop_last()
    } else {
        s@
    });
    let mut out: Vec<char> = Vec::new();
    let mut line: Vec<char> = Vec::new();
    let mut i: usize = 0;
    assert(text.skip(0) =~= text);
    while i < n
        invariant
            n <= s@.len(),
            i <= n,
            text == s@.take(n as int),
            trimmed_lines_from(text.skip(i as int), line@, out@) == trimmed_lines(body@),
        decreases n - i,
    {
        let ghost rest = text.skip(i as int);
        assert(rest.drop_first() =~= text.skip(i + 1));
        assert(rest[0] == s@[i as int]);
        let c = s[i];
        let ghost line0 = line@;
        let ghost out0 = out@;
        assert(trimmed_lines_from(rest, line0, out0) == if c == '\n' {
            trimmed_lines_from(rest.drop_first(), Seq::empty(), out0 + trim_end_spec(line0) + seq!['\n'])
        } else {
            trimmed_lines_from(rest.drop_first(), line0.push(c), out0)
        });
        if c == '\n' {
            trim_end_chars(&mut line);
            append_chars(&mut out, &line);
            out.push('\n');
            assert(out@ =~= out0 + trim_end_spec(line0) + seq!['\n']);
            line = Vec::new();
            assert(line@ =~= Seq::<char>::empty());
        } else {
            line.push(c);
        }
        i += 1;
    }
    assert(text.skip(n as int) =~= Seq::<char>::empty());
    trim_end_chars(&mut line);
    append_chars(&mut out, &line);
    let cleaned = out;
    if cleaned.len() > max_chars {
        let mut cut: Vec<char> = Vec::new();
        let mut j: usize = 0;
        while j < max_chars
            invariant
                j <= max_chars < cleaned@.len(),
                cut@ == cleaned@.take(j as int),
            decreases max_chars - j,
        {
            cut.push(cleaned[j]);
            j += 1;
            assert(cut@ =~= cleaned@.take(j as int));
        }
        cut.push('…');
        string_from(&cut)
    } else {
        string_from(&cleaned)
    }
}

/// `s` without leading whitespace.
pub open spec fn trim_start_spec(s: Seq<char>) -> Seq<char>
    decreases s.len(),
{
    if s.len() > 0 && is_ws(s[0]) {
        trim_start_spec(s.drop_first())
    } else {
        s
    }
}

/// `s` without leading or trailing whitespace (what `str::trim` leaves).
pub open spec fn trim_spec(s: Seq<char>) -> Seq<char> {
    trim_end_spec(trim_start_spec(s))
}

fn trim_start_from(v: &Vec<char>, i: usize) -> (j: usize)
    requires
        i <= v@.len(),
    ensures
        i <= j <= v@.len(),
        v@.skip(j as int) == trim_start_spec(v@.skip(i as int)),
    decreases v@.len() - i,
{
    if i < v.len() && is_whitespace(v[i]) {
        assert(v@.skip(i as int).drop_first() =~= v@.skip(i + 1));
        trim_start_from(v, i + 1)
    } else {
        i
    }
}

/// The notes shown on a release card: none when the release has no notes
/// or they are blank; otherwise the trimmed notes cut to 500 characters.
pub fn notes_preview(body: &Option<String>) -> (r: Option<String>)
    ensures
        match body {
            None => r is None,
            Some(b) => {
                let t = trim_spec(b@);
                if t.len() == 0 {
                    r is None
                } else {
                    r matches Some(p) && p@ == truncate_notes_spec(t, 500)
                }
            },
        },
{
    match body {
        None => None,
        Some(b) => {
            let v = chars_of(b.as_str());
            assert(v@.skip(0) =~= v@);
            let start = trim_start_from(&v, 0);
            let mut t: Vec<char> = Vec::new();
            let mut k: usize = start;
            while k < v.len()
                invariant
                    start <= k <= v@.len(),
                    t@ == v@.subrange(start as int, k as int),
                decreases v.len() - k,
            {
                t.push(v[k]);
                k += 1;
                assert(t@ =~= v@.subrange(start as int, k as int));
            }
            assert(t@ =~= v@.skip(start as int));
            trim_end_chars(&mut t);
            if t.len() == 0 {
                None
            } else {
                let trimmed = string_from(&t);
                Some(truncate_notes(trimmed.as_str(), 500))
            }
        },
    }
}

/// The preview is at most one character longer than the limit, and short
/// notes are shown whole.
pub proof fn lemma_preview_bounds(s: Seq<char>, max_chars: nat)
    ensures
        truncate_notes_spec(s, max_chars).len() <= max_chars + 1,
        trimmed_lines(s).len() <= max_chars ==> truncate_notes_spec(s, max_chars) == trimmed_lines(s),
        trimmed_lines(s).len() > max_chars ==> truncate_notes_spec(s, max_chars).last() == '…',
{
}

// ---------------------------------------------------------------------------
// Login form
// ---------------------------------------------------------------------------

/// The login request is sent only when both fields are filled in.
pub fn login_form_ready(email: &str, password: &str) -> (r: bool)
    ensures
        r == (email@.len() > 0 && password@.len() > 0),
{
    !email.is_empty() && !password.is_empty()
}

/// Release `i` is listed exactly when previews are shown or it is not a
/// preview, whatever its place in the list; the listed positions are in the
/// list's bounds and in increasing order.
pub proof fn lemma_listed_positions_exact(releases: Seq<Release>, show_prerelease: bool)
    requires
        releases.len() <= usize::MAX,
    ensures
        forall|i: int|
            0 <= i < releases.len() ==> (listed_positions(releases, show_prerelease).contains(
                i as usize,
            ) <==> (show_prerelease || !(#[trigger] releases[i]).prerelease)),
        forall|k: int|
            0 <= k < listed_positions(releases, show_prerelease).len() ==> #[trigger] listed_positions(
                releases,
                show_prerelease,
            )[k] < releases.len(),
        forall|k: int, l: int|
            0 <= k < l < listed_positions(releases, show_prerelease).len() ==> #[trigger] listed_positions(
                releases,
                show_prerelease,
            )[k] < #[trigger] listed_positions(releases, show_prerelease)[l],
    decreases releases.len(),
{
    if releases.len() > 0 {
        let front = releases.drop_last();
        lemma_listed_positions_exact(front, show_prerelease);
        let rest = listed_positions(front, show_prerelease);
        let all = listed_positions(releases, show_prerelease);
        let n = (releases.len() - 1) as usize;
        assert forall|i: int| 0 <= i < releases.len() implies (all.contains(i as usize) <==> (
        show_prerelease || !(#[trigger] releases[i]).prerelease)) by {
            if i < releases.len() - 1 {
                assert(front[i] == releases[i]);
                if all.contains(i as usize) {
                    let k = choose|k: int| 0 <= k < all.len() && all[k] == i as usize;
                    if k < rest.len() {
                        assert(rest.contains(i as usize));
                    }
                }
                if rest.contains(i as usize) {
                    let k = choose|k: int| 0 <= k < rest.len() && rest[k] == i as usize;
                    assert(all[k] == i as usize);
                }
            } else {
                assert(releases.last() == releases[i]);
                if all.contains(i as usize) {
                    let k = choose|k: int| 0 <= k < all.len() && all[k] == i as usize;
                    if k < rest.len() {
                        assert(rest[k] < front.len());
                    }
                }
                if show_prerelease || !releases[i].prerelease {
                    assert(all[all.len() - 1] == n);
                }
            }
        }
    }
}

} // verus!
