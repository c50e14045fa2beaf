//! The Phi-simulator repositories on GitHub, their releases, and the
//! loading state of a release list.

use vstd::prelude::*;
use vstd::string::*;

use crate::text::{before_first, chars_of, has_non_ws, has_visible_char, string_from};

verus! {

/// A category shown in the launcher (one GitHub repository).
#[derive(Clone, Copy)]
pub struct Category {
    /// Display name shown in the sidebar / tab.
    pub name: &'static str,
    /// Short tagline describing this fork.
    pub tagline: &'static str,
    /// GitHub owner (user / org).
    pub owner: &'static str,
    /// GitHub repository name.
    pub repo: &'static str,
}

/// The address of the GitHub API listing of a repository's releases.
pub open spec fn releases_url_spec(owner: Seq<char>, repo: Seq<char>) -> Seq<char> {
    "https://api.github.com/repos/"@ + owner + "/"@ + repo + "/releases?per_page=30"@
}

/// The address of a repository's releases page on GitHub.
pub open spec fn page_url_spec(owner: Seq<char>, repo: Seq<char>) -> Seq<char> {
    "https://github.com/"@ + owner + "/"@ + repo + "/releases"@
}

impl Category {
    /// The GitHub API address that lists this repository's releases.
    pub fn releases_url(&self) -> (r: String)
        ensures
            r@ == releases_url_spec(self.owner@, self.repo@),
    {
        let mut s = String::from_str("https://api.github.com/repos/");
        s.append(self.owner);
        s.append("/");
        s.append(self.repo);
        s.append("/releases?per_page=30");
        s
    }

    /// The repository's releases page on GitHub.
    pub fn page_url(&self) -> (r: String)
        ensures
            r@ == page_url_spec(self.owner@, self.repo@),
    {
        let mut s = String::from_str("https://github.com/");
        s.append(self.owner);
        s.append("/");
        s.append(self.repo);
        s.append("/releases");
        s
    }
}

/// Why a release list could not be fetched, given the HTTP status.
pub fn fetch_failure_message(status: &str) -> (r: String)
    ensures
        r@ == "GitHub 返回状态码 "@ + status@,
{
    let mut s = String::from_str("GitHub 返回状态码 ");
    s.append(status);
    s
}

/// The categories, in display order, as (name, tagline, owner, repository).
pub open spec fn category_table() -> Seq<(Seq<char>, Seq<char>, Seq<char>, Seq<char>)> {
    seq![
        ("Phira"@, "官方本体 · TeamFlos"@, "TeamFlos"@, "phira"@),
        ("Phira-Firefly"@, "Firefly 分支 · tiancra"@, "tiancra"@, "Phira-Firefly"@),
        ("phire"@, "Phi-Recorder 分支 · 2278535805"@, "2278535805"@, "phire"@),
        ("PhirLie"@, "PhirLte 分支 · LuteRenxaer"@, "LuteRenxaer"@, "PhirLte"@),
    ]
}

/// The four categorized Phi-simulator sources.
pub fn categories() -> (r: Vec<Category>)
    ensures
        r@.len() == category_table().len(),
        forall|i: int|
            0 <= i < r@.len() ==> (#[trigger] r@[i]).name@ == category_table()[i].0
                && r@[i].tagline@ == category_table()[i].1 && r@[i].owner@
                == category_table()[i].2 && r@[i].repo@ == category_table()[i].3,
{
    let mut r = Vec::new();
    r.push(
        Category { name: "Phira", tagline: "官方本体 · TeamFlos", owner: "TeamFlos", repo: "phira" },
    );
    r.push(
        Category {
            name: "Phira-Firefly",
            tagline: "Firefly 分支 · tiancra",
            owner: "tiancra",
            repo: "Phira-Firefly",
        },
    );
    r.push(
        Category {
            name: "phire",
            tagline: "Phi-Recorder 分支 · 2278535805",
            owner: "2278535805",
            repo: "phire",
        },
    );
    r.push(
        Category {
            name: "PhirLie",
            tagline: "PhirLte 分支 · LuteRenxaer",
            owner: "LuteRenxaer",
            repo: "PhirLte",
        },
    );
    r
}

/// A single downloadable asset attached to a release.
#[derive(Clone)]
pub struct Asset {
    pub name: String,
    pub download_url: String,
    pub size: u64,
}

/// A GitHub release.
#[derive(Clone)]
pub struct Release {
    pub name: Option<String>,
    pub tag_name: String,
    pub published_at: Option<String>,
    pub prerelease: bool,
    pub body: Option<String>,
    pub assets: Vec<Asset>,
}

/// The display title: the release name when it has a visible character,
/// otherwise the tag.
pub open spec fn title_spec(name: Option<String>, tag: Seq<char>) -> Seq<char> {
    match name {
        Some(n) => if has_non_ws(n@) {
            n@
        } else {
            tag
        },
        None => tag,
    }
}

/// The date part of a timestamp: everything before the first `T`.
pub open spec fn date_spec(published_at: Option<String>) -> Seq<char> {
    match published_at {
        Some(s) => before_first(s@, 'T'),
        None => Seq::empty(),
    }
}

/// The part of `s` before its first `sep`.
pub fn text_before(s: &str, sep: char) -> (r: String)
    ensures
        r@ == before_first(s@, sep),
{
    let v = chars_of(s);
    let mut out: Vec<char> = Vec::new();
    let mut i: usize = 0;
    assert(v@.skip(0) =~= v@);
    assert(out@ + v@ =~= v@);
    while i < v.len() && v[i] != sep
        invariant
            i <= v.len(),
            v@ == s@,
            out@ == v@.take(i as int),
            forall|k: int| 0 <= k < i ==> v@[k] != sep,
            before_first(v@, sep) == out@ + before_first(v@.skip(i as int), sep),
        decreases v.len() - i,
    {
        let ghost rest = v@.skip(i as int);
        assert(rest.drop_first() =~= v@.skip(i + 1));
        assert(rest[0] == v@[i as int]);
        out.push(v[i]);
        i += 1;
        assert(out@ =~= v@.take(i as int));
        assert(seq![rest[0]] + before_first(rest.drop_first(), sep) == before_first(rest, sep));
        assert(before_first(v@, sep) =~= out@ + before_first(v@.skip(i as int), sep));
    }
    assert(before_first(v@.skip(i as int), sep) =~= Seq::<char>::empty());
    assert(before_first(v@, sep) =~= out@);
    string_from(&out)
}

impl Release {
    /// Nice display title for the release.
    pub fn title(&self) -> (r: String)
        ensures
            r@ == title_spec(self.name, self.tag_name@),
    {
        match &self.name {
            Some(n) => {
                if has_visible_char(n.as_str()) {
                    n.clone()
                } else {
                    self.tag_name.clone()
                }
            },
            None => self.tag_name.clone(),
        }
    }

    /// Just the date part of `published_at` (YYYY-MM-DD).
    pub fn date(&self) -> (r: String)
        ensures
            r@ == date_spec(self.published_at),
    {
        match &self.published_at {
            Some(s) => text_before(s.as_str(), 'T'),
            None => String::new(),
        }
    }
}

/// Loading state for one category's release list.
pub enum FetchState {
    Idle,
    Loading,
    Loaded(Vec<Release>),
    Error(String),
}

impl Default for FetchState {
    fn default() -> (r: Self)
        ensures
            r is Idle,
    {
        FetchState::Idle
    }
}

impl FetchState {
    /// Whether no list has been asked for yet (the list is fetched on demand
    /// from this state).
    pub fn is_idle(&self) -> (r: bool)
        ensures
            r == self is Idle,
    {
        matches!(self, FetchState::Idle)
    }

    /// Starts a fetch: returns `false` and changes nothing while one is
    /// already loading; otherwise moves to `Loading` and returns `true`, and
    /// the caller performs the request.
    pub fn begin(&mut self) -> (start: bool)
        ensures
            start == !(*old(self) is Loading),
            *final(self) is Loading,
    {
        if matches!(self, FetchState::Loading) {
            false
        } else {
            *self = FetchState::Loading;
            true
        }
    }

    /// Records the outcome of a fetch: the releases, or the error message.
    pub fn finish(&mut self, outcome: Result<Vec<Release>, String>)
        ensures
            match outcome {
                Ok(rs) => *final(self) == FetchState::Loaded(rs),
                Err(e) => *final(self) == FetchState::Error(e),
            },
    {
        *self = match outcome {
            Ok(rs) => FetchState::Loaded(rs),
            Err(e) => FetchState::Error(e),
        };
    }

    /// Forgets the list so that it is fetched again (refresh / retry).
    pub fn reset(&mut self)
        ensures
            *final(self) is Idle,
    {
        *self = FetchState::Idle;
    }
}

} // verus!
