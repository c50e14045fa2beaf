//! Download bookkeeping, install locations, manually-added local versions,
//! and the rules that pick which release files matter.
//!
//! The byte transfer, archive extraction, directory walks and process
//! launches are performed by the caller; this module decides what to do and
//! records what happened.

use vstd::prelude::*;
use vstd::string::*;

use crate::github::{Asset, Release};
use crate::path::FsPath;
use crate::table::{in_flight, without_prefix, Status, StatusTable, StatusView};
use crate::text::{
    occurs_at,
    chars_of, contains, ends_with, has_infix, has_suffix, push_char, same_text, string_from,
    to_lowercase, spec_to_lowercase,
};

verus! {

// ---------------------------------------------------------------------------
// Names and keys
// ---------------------------------------------------------------------------

/// A character that file systems refuse or treat specially.
pub open spec fn is_reserved(c: char) -> bool {
    c == '/' || c == '\\' || c == ':' || c == '*' || c == '?' || c == '"' || c == '<' || c == '>'
        || c == '|'
}

/// `c`, with a reserved character replaced by `_`.
pub open spec fn sanitize_char(c: char) -> char {
    if is_reserved(c) {
        '_'
    } else {
        c
    }
}

/// `s` with every reserved character replaced by `_`.
pub open spec fn sanitized(s: Seq<char>) -> Seq<char> {
    Seq::new(s.len(), |i: int| sanitize_char(s[i]))
}

/// Replace filesystem-unfriendly characters.
pub fn sanitize(s: &str) -> (r: String)
    ensures
        r@ == sanitized(s@),
{
    let v = chars_of(s);
    let mut out: Vec<char> = Vec::new();
    let mut i: usize = 0;
    while i < v.len()
        invariant
            i <= v.len(),
            v@ == s@,
            out@ == sanitized(s@).take(i as int),
        decreases v.len() - i,
    {
        let c = v[i];
        let d = if c == '/' || c == '\\' || c == ':' || c == '*' || c == '?' || c == '"' || c
            == '<' || c == '>' || c == '|' {
            '_'
        } else {
            c
        };
        out.push(d);
        i += 1;
        assert(out@ =~= sanitized(s@).take(i as int));
    }
    assert(sanitized(s@).take(v.len() as int) =~= sanitized(s@));
    string_from(&out)
}

/// The id of a download: repository, tag and asset name joined by `|`.
pub open spec fn key_spec(repo: Seq<char>, tag: Seq<char>, asset: Seq<char>) -> Seq<char> {
    key_prefix_spec(repo, tag) + asset
}

/// The start shared by the ids of every asset of one (repository, tag).
pub open spec fn key_prefix_spec(repo: Seq<char>, tag: Seq<char>) -> Seq<char> {
    repo + seq!['|'] + tag + seq!['|']
}

fn key_prefix(repo: &str, tag: &str) -> (r: String)
    ensures
        r@ == key_prefix_spec(repo@, tag@),
{
    let mut s = repo.to_owned();
    push_char(&mut s, '|');
    s.append(tag);
    push_char(&mut s, '|');
    s
}

// ---------------------------------------------------------------------------
// Which files matter
// ---------------------------------------------------------------------------

/// The rule on a lowercased asset name: mobile / macOS / Debian packages are
/// never Windows assets; `.exe` files always are; `.zip` / `.7z` archives are
/// when their name mentions `win`; nothing else is.
pub open spec fn windows_rule(n: Seq<char>) -> bool {
    if has_suffix(n, ".apk"@) || has_suffix(n, ".ipa"@) || has_suffix(n, ".dmg"@) || has_suffix(
        n,
        ".deb"@,
    ) {
        false
    } else if has_suffix(n, ".exe"@) {
        true
    } else if has_suffix(n, ".zip"@) || has_suffix(n, ".7z"@) {
        has_infix(n, "win"@) || has_infix(n, "windows"@)
    } else {
        false
    }
}

/// Applies the Windows-asset rule to an already lowercased name.
pub fn windows_asset_rule(lower: &str) -> (r: bool)
    ensures
        r == windows_rule(lower@),
{
    let n = chars_of(lower);
    if ends_with(&n, ".apk") || ends_with(&n, ".ipa") || ends_with(&n, ".dmg") || ends_with(
        &n,
        ".deb",
    ) {
        return false;
    }
    if ends_with(&n, ".exe") {
        return true;
    }
    if ends_with(&n, ".zip") || ends_with(&n, ".7z") {
        return contains(&n, "win") || contains(&n, "windows");
    }
    false
}

/// Windows asset filter: whether a release file is one the launcher offers
/// (decided on the lowercased name).
pub fn is_windows_asset(name: &str) -> (r: bool)
    ensures
        r == windows_rule(spec_to_lowercase(name@)),
{
    let lower = to_lowercase(name);
    windows_asset_rule(lower.as_str())
}

/// Alias of [`is_windows_asset`].
pub fn is_relevant_asset(name: &str) -> (r: bool)
    ensures
        r == windows_rule(spec_to_lowercase(name@)),
{
    is_windows_asset(name)
}

/// Whether a downloaded file is a zip archive to unpack (its lowercased
/// name ends with `.zip`).
pub fn is_zip_archive(name: &str) -> (r: bool)
    ensures
        r == has_suffix(spec_to_lowercase(name@), ".zip"@),
{
    let lower = to_lowercase(name);
    let n = chars_of(lower.as_str());
    ends_with(&n, ".zip")
}

/// How deep below an install directory the search for executables goes.
pub const EXE_SEARCH_DEPTH: usize = 4;

/// Whether a file extension is `exe`, ignoring ASCII case.
pub fn is_exe_extension(ext: &str) -> (r: bool)
    ensures
        r == (ext@.len() == 3 && (ext@[0] == 'e' || ext@[0] == 'E') && (ext@[1] == 'x' || ext@[1]
            == 'X') && (ext@[2] == 'e' || ext@[2] == 'E')),
{
    let v = chars_of(ext);
    v.len() == 3 && (v[0] == 'e' || v[0] == 'E') && (v[1] == 'x' || v[1] == 'X') && (v[2] == 'e'
        || v[2] == 'E')
}

/// How unlikely a lowercased file name is to be the program to start (lower
/// is better): names with `phi` are preferred, uninstallers and installers
/// pushed back.
pub open spec fn exe_score_spec(n: Seq<char>) -> int {
    100 - (if has_infix(n, "phi"@) {
        40int
    } else {
        0
    }) + (if has_infix(n, "uninstall"@) || has_infix(n, "unins"@) {
        100int
    } else {
        0
    }) + (if has_infix(n, "setup"@) || has_infix(n, "install"@) {
        30int
    } else {
        0
    })
}

/// The score of a lowercased file name.
pub fn exe_score(lower: &str) -> (r: i32)
    ensures
        r == exe_score_spec(lower@),
{
    let n = chars_of(lower);
    let mut score: i32 = 100;
    if contains(&n, "phi") {
        score -= 40;
    }
    if contains(&n, "uninstall") || contains(&n, "unins") {
        score += 100;
    }
    if contains(&n, "setup") || contains(&n, "install") {
        score += 30;
    }
    score
}

/// A lowercased file name with none of the installer words: not an
/// uninstaller (`unins`, `uninstall`) and not an installer (`setup`,
/// `install`).
pub open spec fn plain_exe_name(n: Seq<char>) -> bool {
    !has_infix(n, "uninstall"@) && !has_infix(n, "unins"@) && !has_infix(n, "setup"@) && !has_infix(
        n,
        "install"@,
    )
}

/// The rank of a lowercased file name when choosing the program to start
/// (lower is better): installers and uninstallers are skipped while a plain
/// name exists, so every plain name ranks before every other; within each
/// group the score decides.
pub open spec fn exe_rank_spec(n: Seq<char>) -> int {
    (if plain_exe_name(n) {
        0int
    } else {
        1000int
    }) + exe_score_spec(n)
}

/// The rank of a lowercased file name.
pub fn exe_rank(lower: &str) -> (r: i32)
    ensures
        r == exe_rank_spec(lower@),
{
    let n = chars_of(lower);
    let plain = !contains(&n, "uninstall") && !contains(&n, "unins") && !contains(&n, "setup")
        && !contains(&n, "install");
    let score = exe_score(lower);
    if plain {
        score
    } else {
        1000 + score
    }
}

/// The rank of file name `names[i]`.
pub open spec fn name_rank(names: Seq<String>, i: int) -> int {
    exe_rank_spec(spec_to_lowercase(names[i]@))
}

/// File name `names[i]` is plain (on its lowercased form).
pub open spec fn plain_at(names: Seq<String>, i: int) -> bool {
    plain_exe_name(spec_to_lowercase(names[i]@))
}

/// File name `names[i]` mentions `phi` (on its lowercased form).
pub open spec fn phi_at(names: Seq<String>, i: int) -> bool {
    has_infix(spec_to_lowercase(names[i]@), "phi"@)
}

/// Picks the most likely launchable executable among file names: the first
/// one of lowest rank. Installers and uninstallers are skipped whenever some
/// name is plain, and among plain names one with `phi` is preferred.
pub fn pick_executable(names: &Vec<String>) -> (r: Option<usize>)
    ensures
        r is None <==> names@.len() == 0,
        r matches Some(i) ==> {
            &&& i < names@.len()
            &&& forall|j: int| 0 <= j < names@.len() ==> name_rank(names@, i as int) <= name_rank(names@, j)
            &&& forall|j: int| 0 <= j < i ==> name_rank(names@, j) > name_rank(names@, i as int)
            &&& (exists|j: int| 0 <= j < names@.len() && #[trigger] plain_at(names@, j)) ==> plain_at(
                names@,
                i as int,
            )
            &&& (exists|j: int| 0 <= j < names@.len() && #[trigger] plain_at(names@, j) && phi_at(
                names@,
                j,
            )) ==> plain_at(names@, i as int) && phi_at(names@, i as int)
        },
{
    if names.len() == 0 {
        return None;
    }
    let lower0 = to_lowercase(names[0].as_str());
    let mut best: usize = 0;
    let mut best_rank = exe_rank(lower0.as_str());
    let mut i: usize = 1;
    while i < names.len()
        invariant
            1 <= i <= names@.len(),
            best < i,
            best_rank == name_rank(names@, best as int),
            forall|j: int| 0 <= j < i ==> name_rank(names@, best as int) <= name_rank(names@, j),
            forall|j: int| 0 <= j < best ==> name_rank(names@, j) > name_rank(names@, best as int),
        decreases names.len() - i,
    {
        let lower = to_lowercase(names[i].as_str());
        let s = exe_rank(lower.as_str());
        if s < best_rank {
            best = i;
            best_rank = s;
        }
        i += 1;
    }
    proof {
        lemma_lowest_rank_skips_installers(names@, best as int);
    }
    Some(best)
}

// ---------------------------------------------------------------------------
// Local versions
// ---------------------------------------------------------------------------

/// A manually-added local version.
#[derive(Clone)]
pub struct LocalVersion {
    /// Which category / repo this belongs to (e.g. "phira").
    pub repo: String,
    /// Display tag / version string (e.g. "v0.8.2-local").
    pub tag: String,
    /// Optional display name override.
    pub name: Option<String>,
    /// Path to the executable.
    pub exe_path: String,
}

/// The local versions of `local` that belong to `repo`, in order.
pub open spec fn versions_of(local: Seq<LocalVersion>, repo: Seq<char>) -> Seq<LocalVersion>
    decreases local.len(),
{
    if local.len() == 0 {
        Seq::empty()
    } else {
        let rest = versions_of(local.drop_last(), repo);
        if local.last().repo@ == repo {
            rest.push(local.last())
        } else {
            rest
        }
    }
}

/// `local` without the versions of (`repo`, `tag`), in order.
pub open spec fn without_version(local: Seq<LocalVersion>, repo: Seq<char>, tag: Seq<char>) -> Seq<
    LocalVersion,
>
    decreases local.len(),
{
    if local.len() == 0 {
        Seq::empty()
    } else {
        let rest = without_version(local.drop_last(), repo, tag);
        if local.last().repo@ == repo && local.last().tag@ == tag {
            rest
        } else {
            rest.push(local.last())
        }
    }
}

/// The name shown for a local version: its name override, or else its tag.
pub open spec fn display_name_spec(v: LocalVersion) -> Seq<char> {
    match v.name {
        Some(n) => n@,
        None => v.tag@,
    }
}

impl LocalVersion {
    /// The name shown for this version.
    pub fn display_name(&self) -> (r: String)
        ensures
            r@ == display_name_spec(*self),
    {
        match &self.name {
            Some(n) => n.clone(),
            None => self.tag.clone(),
        }
    }

    /// The local version for an executable picked by the user: the tag is
    /// the file stem and the name the file name, each `本地版本` when the
    /// picked path has none.
    pub fn from_picked(repo: &str, stem: Option<&str>, file_name: Option<&str>, exe_path: &str) -> (r:
        LocalVersion)
        ensures
            r.repo@ == repo@,
            r.tag@ == match stem {
                Some(s) => s@,
                None => "本地版本"@,
            },
            r.name matches Some(n) && n@ == match file_name {
                Some(f) => f@,
                None => "本地版本"@,
            },
            r.exe_path@ == exe_path@,
    {
        let tag = match stem {
            Some(s) => s.to_owned(),
            None => "本地版本".to_owned(),
        };
        let name = match file_name {
            Some(f) => f.to_owned(),
            None => "本地版本".to_owned(),
        };
        LocalVersion {
            repo: repo.to_owned(),
            tag,
            name: Some(name),
            exe_path: exe_path.to_owned(),
        }
    }
}

// ---------------------------------------------------------------------------
// The manager
// ---------------------------------------------------------------------------

/// Manages downloads keyed by a unique id (`repo|tag|asset`), the install
/// locations, and the manually-added local versions.
pub struct DownloadManager {
    base_dir: FsPath,
    entries: StatusTable,
    local: Vec<LocalVersion>,
    local_config_path: FsPath,
}

/// The location of the local-versions file below a base directory.
pub open spec fn local_config_spec(base: Seq<Seq<char>>) -> Seq<Seq<char>> {
    base.push("config"@).push("local_versions.json"@)
}

/// The install location of (repo, tag) below a base directory.
pub open spec fn install_dir_spec(base: Seq<Seq<char>>, repo: Seq<char>, tag: Seq<char>) -> Seq<
    Seq<char>,
> {
    base.push("versions"@).push(sanitized(repo)).push(sanitized(tag))
}

impl DownloadManager {
    /// The base directory.
    pub closed spec fn base(&self) -> Seq<Seq<char>> {
        self.base_dir@
    }

    /// The download records.
    pub closed spec fn records(&self) -> Map<Seq<char>, StatusView> {
        self.entries@
    }

    /// The local versions, in the order they were added.
    pub closed spec fn locals(&self) -> Seq<LocalVersion> {
        self.local@
    }

    /// The location of the local-versions file.
    pub closed spec fn config_path(&self) -> Seq<Seq<char>> {
        self.local_config_path@
    }

    /// The location of the local-versions file below `base_dir`.
    pub fn local_config_file(base_dir: &FsPath) -> (r: FsPath)
        ensures
            r@ == local_config_spec(base_dir@),
    {
        base_dir.join("config").join("local_versions.json")
    }

    /// A manager for `base_dir`, with the local versions read from its
    /// local-versions file (none when reading failed).
    pub fn new(base_dir: FsPath, loaded: Option<Vec<LocalVersion>>) -> (r: Self)
        ensures
            r.base() == base_dir@,
            r.records() == Map::<Seq<char>, StatusView>::empty(),
            r.locals() == match loaded {
                Some(v) => v@,
                None => Seq::<LocalVersion>::empty(),
            },
            r.config_path() == local_config_spec(base_dir@),
    {
        let local_config_path = Self::local_config_file(&base_dir);
        let local = match loaded {
            Some(v) => v,
            None => Vec::new(),
        };
        DownloadManager { base_dir, entries: StatusTable::new(), local, local_config_path }
    }

    /// The location of the local-versions file.
    pub fn local_config_path(&self) -> (r: FsPath)
        ensures
            r@ == self.config_path(),
    {
        self.local_config_path.duplicate()
    }

    /// The id of a download.
    pub fn key(repo: &str, tag: &str, asset: &str) -> (r: String)
        ensures
            r@ == key_spec(repo@, tag@, asset@),
    {
        let mut s = key_prefix(repo, tag);
        s.append(asset);
        s
    }

    /// Directory where a given (repo, tag) is installed.
    pub fn install_dir(&self, repo: &str, tag: &str) -> (r: FsPath)
        ensures
            r@ == install_dir_spec(self.base(), repo@, tag@),
    {
        let r = sanitize(repo);
        let t = sanitize(tag);
        self.base_dir.join("versions").join(r.as_str()).join(t.as_str())
    }

    /// Where a downloaded asset of (repo, tag) is stored.
    pub fn asset_path(&self, repo: &str, tag: &str, asset_name: &str) -> (r: FsPath)
        ensures
            r@ == install_dir_spec(self.base(), repo@, tag@).push(sanitized(asset_name@)),
    {
        let a = sanitize(asset_name);
        self.install_dir(repo, tag).join(a.as_str())
    }

    /// The status recorded for a download id, if any.
    pub fn status(&self, key: &str) -> (r: Option<Status>)
        ensures
            r is Some <==> self.records().contains_key(key@),
            r matches Some(s) ==> s@ == self.records()[key@],
    {
        self.entries.get(key)
    }

    /// Begins downloading an asset of (repo, tag). When the file is already
    /// on disk the download is recorded as installed; when a download of it
    /// is under way nothing changes; otherwise it is recorded as queued. The
    /// result says whether the caller starts the transfer.
    pub fn start(&mut self, repo: &str, tag: &str, asset_name: &str, file_exists: bool) -> (spawn:
        bool)
        ensures
            final(self).base() == old(self).base(),
            final(self).locals() == old(self).locals(),
            final(self).config_path() == old(self).config_path(),
            ({
                let k = key_spec(repo@, tag@, asset_name@);
                let before = old(self).records();
                if file_exists {
                    &&& !spawn
                    &&& final(self).records() == before.insert(
                        k,
                        StatusView::Installed(install_dir_spec(old(self).base(), repo@, tag@)),
                    )
                } else if before.contains_key(k) && in_flight(before[k]) {
                    &&& !spawn
                    &&& final(self).records() == before
                } else {
                    &&& spawn
                    &&& final(self).records() == before.insert(k, StatusView::Queued)
                }
            }),
    {
        let key = Self::key(repo, tag, asset_name);
        if file_exists {
            let dir = self.install_dir(repo, tag);
            self.entries.insert(key, Status::Installed(dir));
            return false;
        }
        if let Some(s) = self.entries.get(key.as_str()) {
            if s.is_in_flight() {
                return false;
            }
        }
        self.entries.insert(key, Status::Queued);
        true
    }

    /// Updates the status of a download that is still recorded (progress
    /// reports for a forgotten download are dropped).
    pub fn set_status(&mut self, key: &str, status: Status)
        ensures
            final(self).base() == old(self).base(),
            final(self).locals() == old(self).locals(),
            final(self).config_path() == old(self).config_path(),
            final(self).records() == if old(self).records().contains_key(key@) {
                old(self).records().insert(key@, status@)
            } else {
                old(self).records()
            },
    {
        self.entries.update(key, status);
    }

    /// Records how the transfer of an asset of (repo, tag) ended: installed
    /// in the version's install directory, or failed with its message.
    pub fn finish(&mut self, repo: &str, tag: &str, asset_name: &str, outcome: Result<(), String>)
        ensures
            final(self).base() == old(self).base(),
            final(self).locals() == old(self).locals(),
            final(self).config_path() == old(self).config_path(),
            final(self).records() == old(self).records().insert(
                key_spec(repo@, tag@, asset_name@),
                match outcome {
                    Ok(_) => StatusView::Installed(install_dir_spec(old(self).base(), repo@, tag@)),
                    Err(e) => StatusView::Failed(e@),
                },
            ),
    {
        let key = Self::key(repo, tag, asset_name);
        let status = match outcome {
            Ok(_) => Status::Installed(self.install_dir(repo, tag)),
            Err(e) => Status::Failed(e),
        };
        self.entries.insert(key, status);
    }

    /// Forgets the record of one asset (after its file has been deleted).
    pub fn uninstall_asset(&mut self, repo: &str, tag: &str, asset_name: &str)
        ensures
            final(self).base() == old(self).base(),
            final(self).locals() == old(self).locals(),
            final(self).config_path() == old(self).config_path(),
            final(self).records() == old(self).records().remove(key_spec(repo@, tag@, asset_name@)),
    {
        let key = Self::key(repo, tag, asset_name);
        self.entries.remove(key.as_str());
    }

    /// Forgets the records of every asset of (repo, tag) (after the version
    /// folder has been deleted).
    pub fn uninstall(&mut self, repo: &str, tag: &str)
        ensures
            final(self).base() == old(self).base(),
            final(self).locals() == old(self).locals(),
            final(self).config_path() == old(self).config_path(),
            final(self).records() == without_prefix(old(self).records(), key_prefix_spec(repo@, tag@)),
    {
        let prefix = key_prefix(repo, tag);
        self.entries.remove_prefixed(prefix.as_str());
    }

    // ---- local versions ----

    /// The local versions of a repository, in the order they were added.
    pub fn local_versions(&self, repo: &str) -> (r: Vec<&LocalVersion>)
        ensures
            r@.len() == versions_of(self.locals(), repo@).len(),
            forall|i: int| 0 <= i < r@.len() ==> *r@[i] == versions_of(self.locals(), repo@)[i],
    {
        let mut out: Vec<&LocalVersion> = Vec::new();
        let mut i: usize = 0;
        while i < self.local.len()
            invariant
                i <= self.local@.len(),
                out@.len() == versions_of(self.local@.take(i as int), repo@).len(),
                forall|k: int| 0 <= k < out@.len() ==> *out@[k] == versions_of(self.local@.take(i as int), repo@)[k],
            decreases self.local.len() - i,
        {
            assert(self.local@.take(i + 1).drop_last() =~= self.local@.take(i as int));
            assert(self.local@.take(i + 1).last() == self.local@[i as int]);
            if same_text(self.local[i].repo.as_str(), repo) {
                out.push(&self.local[i]);
            }
            i += 1;
        }
        assert(self.local@.take(self.local.len() as int) =~= self.local@);
        out
    }

    /// Every local version, in the order they were added (the list that is
    /// saved).
    pub fn all_local_versions(&self) -> (r: &Vec<LocalVersion>)
        ensures
            r@ == self.locals(),
    {
        &self.local
    }

    /// Adds a local version at the end of the list (the caller then saves the
    /// list).
    pub fn add_local(&mut self, v: LocalVersion)
        ensures
            final(self).base() == old(self).base(),
            final(self).records() == old(self).records(),
            final(self).config_path() == old(self).config_path(),
            final(self).locals() == old(self).locals().push(v),
    {
        self.local.push(v);
    }

    /// Removes every local version of (repo, tag), keeping the order of the
    /// rest (the caller then saves the list).
    pub fn remove_local(&mut self, repo: &str, tag: &str)
        ensures
            final(self).base() == old(self).base(),
            final(self).records() == old(self).records(),
            final(self).config_path() == old(self).config_path(),
            final(self).locals() == without_version(old(self).locals(), repo@, tag@),
    {
        let mut old_list: Vec<LocalVersion> = Vec::new();
        std::mem::swap(&mut old_list, &mut self.local);
        let ghost orig = old_list@;
        let mut kept: Vec<LocalVersion> = Vec::new();
        let mut rest = old_list;
        let ghost n = orig.len();
        while rest.len() > 0
            invariant
                n == orig.len(),
                rest@.len() <= n,
                rest@ == orig.skip(n - rest@.len()),
                kept@ == without_version(orig.take(n - rest@.len()), repo@, tag@),
            decreases rest.len(),
        {
            let ghost done = n - rest@.len();
            let v = rest.remove(0);
            assert(v == orig[done]);
            assert(rest@ =~= orig.skip(done + 1));
            assert(orig.take(done + 1).drop_last() =~= orig.take(done));
            assert(orig.take(done + 1).last() == orig[done]);
            let drop = same_text(v.repo.as_str(), repo) && same_text(v.tag.as_str(), tag);
            if !drop {
                kept.push(v);
            }
        }
        assert(orig.take(n as int) =~= orig);
        self.local = kept;
    }
}

// ---------------------------------------------------------------------------
// The newest release
// ---------------------------------------------------------------------------

/// Why the newest release offers nothing to download.
pub enum LatestError {
    /// The release list is empty.
    NoRelease,
    /// The newest release has no Windows asset.
    NoWindowsAsset,
}

impl LatestError {
    /// The message shown for this error.
    pub fn message(&self) -> (r: String)
        ensures
            r@ == match self {
                LatestError::NoRelease => "没有找到任何 Release"@,
                LatestError::NoWindowsAsset => "当前版本没有 Windows 资产"@,
            },
    {
        match self {
            LatestError::NoRelease => "没有找到任何 Release".to_owned(),
            LatestError::NoWindowsAsset => "当前版本没有 Windows 资产".to_owned(),
        }
    }
}

/// Why a transfer failed, given the HTTP status of the download response.
pub fn download_failure_message(status: &str) -> (r: String)
    ensures
        r@ == "下载失败，状态码 "@ + status@,
{
    let mut s = String::from_str("下载失败，状态码 ");
    s.append(status);
    s
}

/// Why the release list for the newest-release download could not be
/// fetched, given the HTTP status.
pub fn release_list_failure_message(status: &str) -> (r: String)
    ensures
        r@ == "GitHub API 请求失败，状态码 "@ + status@,
{
    let mut s = String::from_str("GitHub API 请求失败，状态码 ");
    s.append(status);
    s
}

/// The positions, in order, of the Windows assets among `assets`.
pub open spec fn windows_positions(assets: Seq<Asset>) -> Seq<usize>
    decreases assets.len(),
{
    if assets.len() == 0 {
        Seq::empty()
    } else {
        let rest = windows_positions(assets.drop_last());
        if windows_rule(spec_to_lowercase(assets.last().name@)) {
            rest.push((assets.len() - 1) as usize)
        } else {
            rest
        }
    }
}

/// The positions of the Windows assets of a release, in order.
pub fn windows_assets(assets: &Vec<Asset>) -> (r: Vec<usize>)
    ensures
        r@ == windows_positions(assets@),
{
    let mut out: Vec<usize> = Vec::new();
    let mut i: usize = 0;
    while i < assets.len()
        invariant
            i <= assets@.len(),
            out@ == windows_positions(assets@.take(i as int)),
        decreases assets.len() - i,
    {
        assert(assets@.take(i + 1).drop_last() =~= assets@.take(i as int));
        assert(assets@.take(i + 1).last() == assets@[i as int]);
        if is_windows_asset(assets[i].name.as_str()) {
            out.push(i);
        }
        i += 1;
    }
    assert(assets@.take(assets.len() as int) =~= assets@);
    out
}

/// What to download of the newest release (the first of the list): the
/// positions of its Windows assets, or why there are none. The caller starts
/// each one whose file is not on disk yet.
pub fn latest_windows_assets(releases: &Vec<Release>) -> (r: Result<Vec<usize>, LatestError>)
    ensures
        match r {
            Err(LatestError::NoRelease) => releases@.len() == 0,
            Err(LatestError::NoWindowsAsset) => releases@.len() > 0 && windows_positions(
                releases@[0].assets@,
            ).len() == 0,
            Ok(v) => releases@.len() > 0 && v@ == windows_positions(releases@[0].assets@) && v@.len()
                > 0,
        },
{
    if releases.len() == 0 {
        return Err(LatestError::NoRelease);
    }
    let ps = windows_assets(&releases[0].assets);
    if ps.len() == 0 {
        return Err(LatestError::NoWindowsAsset);
    }
    Ok(ps)
}


// ---------------------------------------------------------------------------
// Laws
// ---------------------------------------------------------------------------

/// Sanitizing keeps the length, keeps every ordinary character, and leaves
/// no reserved character.
pub proof fn lemma_sanitized_chars(s: Seq<char>)
    ensures
        sanitized(s).len() == s.len(),
        forall|i: int| 0 <= i < s.len() ==> !is_reserved(#[trigger] sanitized(s)[i]),
        forall|i: int| 0 <= i < s.len() && !is_reserved(s[i]) ==> #[trigger] sanitized(s)[i] == s[i],
{
}

/// Sanitizing a sanitized name changes nothing.
pub proof fn lemma_sanitize_idempotent(s: Seq<char>)
    ensures
        sanitized(sanitized(s)) == sanitized(s),
{
    assert(sanitized(sanitized(s)) =~= sanitized(s));
}

/// The id of every asset of (repo, tag) starts with the prefix that
/// uninstalling (repo, tag) clears.
pub proof fn lemma_key_has_version_prefix(repo: Seq<char>, tag: Seq<char>, asset: Seq<char>)
    ensures
        crate::text::has_prefix(key_spec(repo, tag, asset), key_prefix_spec(repo, tag)),
{
    let k = key_spec(repo, tag, asset);
    let p = key_prefix_spec(repo, tag);
    assert(k.subrange(0, p.len() as int) =~= p);
}

/// After uninstalling (repo, tag) no asset of that version has a record,
/// and every record whose id lies outside the version stays as it was.
pub proof fn lemma_uninstall_forgets_version(
    m: Map<Seq<char>, StatusView>,
    repo: Seq<char>,
    tag: Seq<char>,
    asset: Seq<char>,
    other: Seq<char>,
)
    ensures
        !without_prefix(m, key_prefix_spec(repo, tag)).contains_key(key_spec(repo, tag, asset)),
        m.contains_key(other) && !crate::text::has_prefix(other, key_prefix_spec(repo, tag)) ==> {
            &&& without_prefix(m, key_prefix_spec(repo, tag)).contains_key(other)
            &&& without_prefix(m, key_prefix_spec(repo, tag))[other] == m[other]
        },
{
    lemma_key_has_version_prefix(repo, tag, asset);
}

/// A progress report for a download whose record was removed does not bring
/// the record back.
pub proof fn lemma_progress_after_removal(
    m: Map<Seq<char>, StatusView>,
    key: Seq<char>,
    status: StatusView,
)
    ensures
        ({
            let removed = m.remove(key);
            let updated = if removed.contains_key(key) {
                removed.insert(key, status)
            } else {
                removed
            };
            &&& !updated.contains_key(key)
            &&& updated == removed
        }),
{
}

/// Once a download is started (recorded as queued), starting it again
/// while the file is not on disk launches nothing.
pub proof fn lemma_no_second_start(m: Map<Seq<char>, StatusView>, key: Seq<char>)
    ensures
        ({
            let after = m.insert(key, StatusView::Queued);
            after.contains_key(key) && in_flight(after[key])
        }),
{
}

proof fn lemma_versions_of_members(local: Seq<LocalVersion>, repo: Seq<char>)
    ensures
        forall|i: int|
            0 <= i < versions_of(local, repo).len() ==> (#[trigger] versions_of(local, repo)[i]).repo@
                == repo && local.contains(versions_of(local, repo)[i]),
    decreases local.len(),
{
    if local.len() > 0 {
        lemma_versions_of_members(local.drop_last(), repo);
        assert forall|i: int| 0 <= i < versions_of(local, repo).len() implies (#[trigger] versions_of(
            local,
            repo,
        )[i]).repo@ == repo && local.contains(versions_of(local, repo)[i]) by {
            let rest = versions_of(local.drop_last(), repo);
            if i < rest.len() {
                let j = choose|j: int| 0 <= j < local.drop_last().len() && local.drop_last()[j] == rest[i];
                assert(local[j] == rest[i]);
            } else {
                assert(local[local.len() - 1] == local.last());
            }
        }
    }
}

proof fn lemma_without_version_members(local: Seq<LocalVersion>, repo: Seq<char>, tag: Seq<char>)
    ensures
        forall|v: LocalVersion|
            #[trigger] without_version(local, repo, tag).contains(v) ==> !(v.repo@ == repo && v.tag@
                == tag),
    decreases local.len(),
{
    if local.len() > 0 {
        lemma_without_version_members(local.drop_last(), repo, tag);
        let rest = without_version(local.drop_last(), repo, tag);
        assert forall|v: LocalVersion| #[trigger] without_version(local, repo, tag).contains(v) implies !(
        v.repo@ == repo && v.tag@ == tag) by {
            let w = without_version(local, repo, tag);
            let j = choose|j: int| 0 <= j < w.len() && w[j] == v;
            if j < rest.len() {
                assert(rest.contains(v));
            }
        }
    }
}

/// After removing the local versions of (repo, tag), none of the versions
/// listed for `repo` carries `tag`.
pub proof fn lemma_removed_version_not_listed(local: Seq<LocalVersion>, repo: Seq<char>, tag: Seq<char>)
    ensures
        forall|i: int|
            0 <= i < versions_of(without_version(local, repo, tag), repo).len() ==> (
            #[trigger] versions_of(without_version(local, repo, tag), repo)[i]).tag@ != tag,
{
    let w = without_version(local, repo, tag);
    lemma_versions_of_members(w, repo);
    lemma_without_version_members(local, repo, tag);
    assert forall|i: int| 0 <= i < versions_of(w, repo).len() implies (#[trigger] versions_of(
        w,
        repo,
    )[i]).tag@ != tag by {
        assert(w.contains(versions_of(w, repo)[i]));
    }
}

/// A local version that is added is listed last among its repository's
/// versions, after those listed before.
pub proof fn lemma_added_version_listed(local: Seq<LocalVersion>, v: LocalVersion)
    ensures
        versions_of(local.push(v), v.repo@) == versions_of(local, v.repo@).push(v),
{
    assert(local.push(v).drop_last() =~= local);
}

/// Every `.exe` file is offered, and packages for other systems never are
/// (on lowercased names).
pub proof fn lemma_exe_offered_packages_not(n: Seq<char>)
    ensures
        has_suffix(n, ".exe"@) ==> windows_rule(n),
        has_suffix(n, ".apk"@) || has_suffix(n, ".ipa"@) || has_suffix(n, ".dmg"@) || has_suffix(
            n,
            ".deb"@,
        ) ==> !windows_rule(n),
{
    reveal_strlit(".exe");
    reveal_strlit(".apk");
    reveal_strlit(".ipa");
    reveal_strlit(".dmg");
    reveal_strlit(".deb");
    if has_suffix(n, ".exe"@) {
        let last = n[n.len() - 1];
        assert(n.subrange(n.len() - 4, n.len() as int)[3] == last);
        assert(last == 'e');
        if has_suffix(n, ".apk"@) {
            assert(n.subrange(n.len() - 4, n.len() as int)[3] == 'k');
        }
        if has_suffix(n, ".ipa"@) {
            assert(n.subrange(n.len() - 4, n.len() as int)[3] == 'a');
        }
        if has_suffix(n, ".dmg"@) {
            assert(n.subrange(n.len() - 4, n.len() as int)[3] == 'g');
        }
        if has_suffix(n, ".deb"@) {
            assert(n.subrange(n.len() - 4, n.len() as int)[3] == 'b');
        }
    }
}

/// Every plain name ranks before every installer or uninstaller, and a
/// plain name with `phi` before a plain name without it (on lowercased
/// names).
pub proof fn lemma_exe_preferences(a: Seq<char>, b: Seq<char>)
    ensures
        plain_exe_name(a) && !plain_exe_name(b) ==> exe_rank_spec(a) < exe_rank_spec(b),
        plain_exe_name(a) && has_infix(a, "phi"@) && plain_exe_name(b) && !has_infix(b, "phi"@)
            ==> exe_rank_spec(a) < exe_rank_spec(b),
{
}

/// A name of lowest rank is plain whenever some name is plain, and mentions
/// `phi` whenever some plain name does: installers and uninstallers are
/// skipped, and `phi` is preferred.
pub proof fn lemma_lowest_rank_skips_installers(names: Seq<String>, picked: int)
    requires
        0 <= picked < names.len(),
        forall|j: int| 0 <= j < names.len() ==> name_rank(names, picked) <= name_rank(names, j),
    ensures
        (exists|j: int| 0 <= j < names.len() && #[trigger] plain_at(names, j)) ==> plain_at(
            names,
            picked,
        ),
        (exists|j: int| 0 <= j < names.len() && #[trigger] plain_at(names, j) && phi_at(names, j))
            ==> plain_at(names, picked) && phi_at(names, picked),
{
    let p = spec_to_lowercase(names[picked]@);
    if exists|j: int| 0 <= j < names.len() && #[trigger] plain_at(names, j) {
        let j = choose|j: int| 0 <= j < names.len() && #[trigger] plain_at(names, j);
        assert(name_rank(names, picked) <= name_rank(names, j));
        lemma_exe_preferences(spec_to_lowercase(names[j]@), p);
    }
    if exists|j: int| 0 <= j < names.len() && #[trigger] plain_at(names, j) && phi_at(names, j) {
        let j = choose|j: int| 0 <= j < names.len() && #[trigger] plain_at(names, j) && phi_at(names, j);
        assert(name_rank(names, picked) <= name_rank(names, j));
        lemma_exe_preferences(spec_to_lowercase(names[j]@), p);
    }
}

/// Position `i` of a release's assets is offered exactly when the asset's
/// lowercased name passes the Windows rule, whatever its place in the list;
/// the positions are in the list's bounds and in increasing order.
pub proof fn lemma_windows_positions_exact(assets: Seq<Asset>)
    requires
        assets.len() <= usize::MAX,
    ensures
        forall|i: int|
            0 <= i < assets.len() ==> (windows_positions(assets).contains(i as usize) <==> windows_rule(
                spec_to_lowercase(#[trigger] assets[i].name@),
            )),
        forall|k: int|
            0 <= k < windows_positions(assets).len() ==> #[trigger] windows_positions(assets)[k]
                < assets.len(),
        forall|k: int, l: int|
            0 <= k < l < windows_positions(assets).len() ==> #[trigger] windows_positions(assets)[k]
                < #[trigger] windows_positions(assets)[l],
    decreases assets.len(),
{
    if assets.len() > 0 {
        let front = assets.drop_last();
        lemma_windows_positions_exact(front);
        let rest = windows_positions(front);
        let all = windows_positions(assets);
        let n = (assets.len() - 1) as usize;
        assert forall|i: int| 0 <= i < assets.len() implies (all.contains(i as usize) <==> windows_rule(
            spec_to_lowercase(#[trigger] assets[i].name@),
        )) by {
            if i < assets.len() - 1 {
                assert(front[i] == assets[i]);
                if all.contains(i as usize) {
                    let k = choose|k: int| 0 <= k < all.len() && all[k] == i as usize;
                    if k < rest.len() {
                        assert(rest.contains(i as usize));
                    }
                }
                if rest.contains(i as usize) {
                    let k = choose|k: int| 0 <= k < rest.len() && rest[k] == i as usize;
                    assert(all[k] == i as usize);
                }
            } else {
                assert(assets.last() == assets[i]);
                if all.contains(i as usize) {
                    let k = choose|k: int| 0 <= k < all.len() && all[k] == i as usize;
                    if k < rest.len() {
                        assert(rest[k] < front.len());
                    }
                }
                if windows_rule(spec_to_lowercase(assets[i].name@)) {
                    assert(all[all.len() - 1] == n);
                }
            }
        }
    }
}

/// A `.zip` or `.7z` archive is offered exactly when its lowercased name
/// mentions `win` (which `windows` does too); an archive for another system
/// is never offered.
pub proof fn lemma_archives_need_win(n: Seq<char>)
    requires
        has_suffix(n, ".zip"@) || has_suffix(n, ".7z"@),
    ensures
        windows_rule(n) <==> has_infix(n, "win"@),
{
    reveal_strlit(".zip");
    reveal_strlit(".7z");
    reveal_strlit(".exe");
    reveal_strlit(".apk");
    reveal_strlit(".ipa");
    reveal_strlit(".dmg");
    reveal_strlit(".deb");
    reveal_strlit("win");
    reveal_strlit("windows");
    let last = n[n.len() - 1];
    assert(last == 'p' || last == 'z') by {
        if has_suffix(n, ".zip"@) {
            assert(n.subrange(n.len() - 4, n.len() as int)[3] == last);
        } else {
            assert(n.subrange(n.len() - 3, n.len() as int)[2] == last);
        }
    }
    if has_suffix(n, ".apk"@) {
        assert(n.subrange(n.len() - 4, n.len() as int)[3] == last);
    }
    if has_suffix(n, ".ipa"@) {
        assert(n.subrange(n.len() - 4, n.len() as int)[3] == last);
    }
    if has_suffix(n, ".dmg"@) {
        assert(n.subrange(n.len() - 4, n.len() as int)[3] == last);
    }
    if has_suffix(n, ".deb"@) {
        assert(n.subrange(n.len() - 4, n.len() as int)[3] == last);
    }
    if has_suffix(n, ".exe"@) {
        assert(n.subrange(n.len() - 4, n.len() as int)[3] == last);
    }
    if has_infix(n, "windows"@) {
        let at = choose|at: int| #[trigger] occurs_at(n, "windows"@, at);
        assert(n.subrange(at, at + 3) =~= "win"@) by {
            assert forall|j: int| 0 <= j < 3 implies n.subrange(at, at + 3)[j] == "win"@[j] by {
                assert(n.subrange(at, at + 7)[j] == n[at + j]);
            }
        }
        assert(occurs_at(n, "win"@, at));
    }
}

/// Removing (repo, tag) keeps, in their order, exactly the local versions
/// that belong to another repository or carry another tag.
pub proof fn lemma_without_version_filters(local: Seq<LocalVersion>, repo: Seq<char>, tag: Seq<char>)
    ensures
        without_version(local, repo, tag) == local.filter(
            |v: LocalVersion| !(v.repo@ == repo && v.tag@ == tag),
        ),
        forall|v: LocalVersion|
            #[trigger] without_version(local, repo, tag).contains(v) <==> (local.contains(v) && !(
            v.repo@ == repo && v.tag@ == tag)),
    decreases local.len(),
{
    let pred = |v: LocalVersion| !(v.repo@ == repo && v.tag@ == tag);
    reveal(Seq::filter);
    if local.len() > 0 {
        lemma_without_version_filters(local.drop_last(), repo, tag);
        let w = without_version(local, repo, tag);
        let rest = without_version(local.drop_last(), repo, tag);
        assert forall|v: LocalVersion| #[trigger] w.contains(v) <==> (local.contains(v) && !(v.repo@
            == repo && v.tag@ == tag)) by {
            if w.contains(v) {
                let j = choose|j: int| 0 <= j < w.len() && w[j] == v;
                if j < rest.len() {
                    assert(rest.contains(v));
                    let k = choose|k: int| 0 <= k < local.drop_last().len() && local.drop_last()[k] == v;
                    assert(local[k] == v);
                } else {
                    assert(local[local.len() - 1] == v);
                }
            }
            if local.contains(v) && !(v.repo@ == repo && v.tag@ == tag) {
                let k = choose|k: int| 0 <= k < local.len() && local[k] == v;
                if k < local.len() - 1 {
                    assert(local.drop_last()[k] == v);
                    assert(rest.contains(v));
                    let j = choose|j: int| 0 <= j < rest.len() && rest[j] == v;
                    assert(w[j] == v);
                } else {
                    assert(w[w.len() - 1] == v);
                }
            }
        }
    }
}

/// Removing the local versions of (repo, tag) leaves the versions listed for
/// every other repository as they were.
pub proof fn lemma_remove_keeps_other_repos(
    local: Seq<LocalVersion>,
    repo: Seq<char>,
    tag: Seq<char>,
    other: Seq<char>,
)
    requires
        other != repo,
    ensures
        versions_of(without_version(local, repo, tag), other) == versions_of(local, other),
    decreases local.len(),
{
    if local.len() > 0 {
        lemma_remove_keeps_other_repos(local.drop_last(), repo, tag, other);
        let rest = without_version(local.drop_last(), repo, tag);
        if !(local.last().repo@ == repo && local.last().tag@ == tag) {
            assert(rest.push(local.last()).drop_last() =~= rest);
        }
    }
}

} // verus!
