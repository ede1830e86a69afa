//! The development timeline: which scanned repositories are original work,
//! the dated entries built from them (newest first), and the Markdown and
//! JSON reports.
//!
//! Running `git` and `find` is left to the caller, which hands over what the
//! commands printed in a `RepoProbe`; everything decided from that output is
//! here.
use vstd::prelude::*;
use crate::port_market::clone_strings;
use crate::text;

verus! {

/// An instant in UTC: seconds since the epoch and nanoseconds within the
/// second. Instants compare as these pairs do.
pub open spec fn instant_lt(a: (i64, u32), b: (i64, u32)) -> bool {
    a.0 < b.0 || (a.0 == b.0 && a.1 < b.1)
}

/// What `chrono::DateTime::parse_from_rfc3339` makes of a text, taken to
/// UTC: `None` where the text is not RFC 3339.
pub uninterp spec fn rfc3339_instant(text: Seq<char>) -> Option<(i64, u32)>;

/// `chrono::DateTime::parse_from_rfc3339`, converted to UTC with the
/// instant given as its Unix seconds and the nanoseconds within the second.
/// The grammar of RFC 3339 and the calendar arithmetic are not restated: the
/// result is named `rfc3339_instant`.
#[verifier::external_body]
fn parse_rfc3339(text: &str) -> (r: Option<(i64, u32)>)
    ensures
        r == rfc3339_instant(text@),
{
    match chrono::DateTime::parse_from_rfc3339(text) {
        Ok(d) => Some((d.timestamp(), d.timestamp_subsec_nanos())),
        Err(_) => None,
    }
}

/// The day of a Unix time in UTC, written `%Y-%m-%d` by chrono.
pub uninterp spec fn utc_day_text(secs: i64) -> Seq<char>;

/// `chrono::DateTime::<Utc>::from_timestamp(secs, 0)` (the epoch where that
/// is out of range) formatted with `%Y-%m-%d`. The calendar arithmetic is not
/// restated: the result is named `utc_day_text`.
#[verifier::external_body]
fn format_utc_day(secs: i64) -> (r: String)
    ensures
        r@ == utc_day_text(secs),
{
    chrono::DateTime::from_timestamp(secs, 0).unwrap_or_default().format("%Y-%m-%d").to_string()
}

/// A Unix time in UTC, written `%Y-%m-%d %H:%M:%S UTC` by chrono.
pub uninterp spec fn utc_second_text(secs: i64) -> Seq<char>;

/// `chrono::DateTime::<Utc>::from_timestamp(secs, 0)` (the epoch where that
/// is out of range) formatted with `%Y-%m-%d %H:%M:%S UTC`. The calendar
/// arithmetic is not restated: the result is named `utc_second_text`.
#[verifier::external_body]
fn format_utc_second(secs: i64) -> (r: String)
    ensures
        r@ == utc_second_text(secs),
{
    chrono::DateTime::from_timestamp(secs, 0).unwrap_or_default().format("%Y-%m-%d %H:%M:%S UTC").to_string()
}

/// An instant in UTC as chrono's `to_rfc3339` writes it.
pub uninterp spec fn rfc3339_text(secs: i64, nanos: u32) -> Seq<char>;

/// `chrono::DateTime::<Utc>::from_timestamp(secs, nanos)` (the epoch where
/// that is out of range) written by `to_rfc3339`. The calendar arithmetic and
/// the rendering of the fraction are not restated: the result is named
/// `rfc3339_text`.
#[verifier::external_body]
pub(crate) fn format_rfc3339(secs: i64, nanos: u32) -> (r: String)
    ensures
        r@ == rfc3339_text(secs, nanos),
{
    chrono::DateTime::from_timestamp(secs, nanos).unwrap_or_default().to_rfc3339()
}

/// The last component of a path (`Path::file_name`), where it has one that
/// is a string.
pub uninterp spec fn path_file_name(path: Seq<char>) -> Option<Seq<char>>;

/// `std::path::Path::file_name`, as a string. Its component parsing is not
/// restated: the result is named `path_file_name`.
#[verifier::external_body]
fn file_name_of(path: &str) -> (r: Option<String>)
    ensures
        match r {
            Some(n) => path_file_name(path@) == Some(n@),
            None => path_file_name(path@) is None,
        },
{
    let n = std::path::Path::new(path).file_name()?;
    Some(n.to_str()?.to_string())
}

/// What the commands run on one repository printed. Each field is `None`
/// where its command could not run or failed (or, for the remote and the
/// last commit date, printed no UTF-8).
pub struct RepoProbe {
    /// `git remote get-url origin`.
    pub remote_output: Option<String>,
    /// `git log --oneline --author=mdupont --since=2024-01-01`.
    pub author_log: Option<String>,
    /// `git log --oneline --grep=CRQ-016 --grep=nixify --grep=introspector`.
    pub pattern_log: Option<String>,
    /// `git log -1 --format=%cI`.
    pub last_commit_output: Option<String>,
    /// `git rev-list --count HEAD`.
    pub count_output: Option<String>,
    /// `find <path> -name *.rs -type f`.
    pub rust_file_list: Option<String>,
}

/// A scanned repository.
pub struct RepoInfo {
    pub name: String,
    pub path: String,
    pub remote_url: String,
    pub is_fork: bool,
    pub is_original: bool,
    /// The last commit's instant (Unix seconds, nanoseconds).
    pub last_commit_date: Option<(i64, u32)>,
    pub commit_count: usize,
    pub rust_files: Vec<String>,
}

/// A repository as values.
pub struct RepoView {
    pub name: Seq<char>,
    pub path: Seq<char>,
    pub remote_url: Seq<char>,
    pub is_fork: bool,
    pub is_original: bool,
    pub last_commit_date: Option<(i64, u32)>,
    pub commit_count: nat,
    pub rust_files: Seq<Seq<char>>,
}

impl View for RepoInfo {
    type V = RepoView;

    open spec fn view(&self) -> RepoView {
        RepoView {
            name: self.name@,
            path: self.path@,
            remote_url: self.remote_url@,
            is_fork: self.is_fork,
            is_original: self.is_original,
            last_commit_date: self.last_commit_date,
            commit_count: self.commit_count as nat,
            rust_files: text::string_views(self.rust_files@),
        }
    }
}

/// One dated entry of the timeline.
pub struct TimelineEntry {
    /// The instant (Unix seconds, nanoseconds).
    pub date: (i64, u32),
    pub repo_name: String,
    /// `original_work`, `fork` or `external`.
    pub event_type: String,
    pub description: String,
    pub files_changed: Vec<String>,
}

/// A timeline entry as values.
pub struct EntryView {
    pub date: (i64, u32),
    pub repo_name: Seq<char>,
    pub event_type: Seq<char>,
    pub description: Seq<char>,
    pub files_changed: Seq<Seq<char>>,
}

impl View for TimelineEntry {
    type V = EntryView;

    open spec fn view(&self) -> EntryView {
        EntryView {
            date: self.date,
            repo_name: self.repo_name@,
            event_type: self.event_type@,
            description: self.description@,
            files_changed: text::string_views(self.files_changed@),
        }
    }
}

impl TimelineEntry {
    /// A copy of the entry.
    pub fn duplicate(&self) -> (r: Self)
        ensures
            r@ == self@,
    {
        TimelineEntry {
            date: self.date,
            repo_name: self.repo_name.clone(),
            event_type: self.event_type.clone(),
            description: self.description.clone(),
            files_changed: clone_strings(&self.files_changed),
        }
    }
}

/// The repositories found and the timeline built from them.
pub struct TimelineBuilder {
    pub repositories: Vec<RepoInfo>,
    pub timeline_entries: Vec<TimelineEntry>,
}

/// The views of the repositories.
pub open spec fn repo_views(v: Seq<RepoInfo>) -> Seq<RepoView> {
    v.map_values(|r: RepoInfo| r@)
}

/// The views of the entries.
pub open spec fn entry_views(v: Seq<TimelineEntry>) -> Seq<EntryView> {
    v.map_values(|e: TimelineEntry| e@)
}

/// The origin's URL, trimmed, or `local` where there is none.
pub open spec fn remote_url_of(output: Option<Seq<char>>) -> Seq<char> {
    match output {
        Some(s) => text::trim(s),
        None => "local"@,
    }
}

/// The number of lines a command printed (none where it failed).
pub open spec fn line_count(output: Option<Seq<char>>) -> nat {
    match output {
        Some(s) => text::lines(s).len(),
        None => 0,
    }
}

/// A command succeeded and printed something.
pub open spec fn printed_something(output: Option<Seq<char>>) -> bool {
    match output {
        Some(s) => s.len() > 0,
        None => false,
    }
}

/// The instant of the last commit, from the output of `git log -1 --format=%cI`.
pub open spec fn last_commit_of(output: Option<Seq<char>>) -> Option<(i64, u32)> {
    match output {
        Some(s) => rfc3339_instant(text::trim(s)),
        None => None,
    }
}

/// The commit count printed by `git rev-list --count`, or 0 where it
/// failed or printed no number.
pub open spec fn commit_count_of(output: Option<Seq<char>>) -> nat {
    match output {
        Some(s) => match text::parse_usize(text::trim(s)) {
            Ok(n) => n,
            Err(_) => 0,
        },
        None => 0,
    }
}

/// The files that `find` listed, one per line.
pub open spec fn file_list_of(output: Option<Seq<char>>) -> Seq<Seq<char>> {
    match output {
        Some(s) => text::lines(s),
        None => Seq::empty(),
    }
}

/// The optional text of an optional string.
pub open spec fn opt_view(o: Option<String>) -> Option<Seq<char>> {
    match o {
        Some(s) => Some(s@),
        None => None,
    }
}

/// The organisation whose repositories are this project's own.
pub open spec fn org_marker() -> Seq<char> {
    "meta-introspector"@
}

/// A repository counts as original work: more than five commits of ours
/// since 2024, a remote under the project's organisation, or a commit that
/// mentions one of our patterns.
pub open spec fn original_by_probe(remote: Seq<char>, probe_author: Option<Seq<char>>, probe_pattern: Option<Seq<char>>) -> bool {
    line_count(probe_author) > 5 || text::contains_sub(remote, org_marker()) || printed_something(probe_pattern)
}

/// The repository that a probe describes.
pub open spec fn repo_of(name: Seq<char>, path: Seq<char>, probe: RepoProbe) -> RepoView {
    let remote = remote_url_of(opt_view(probe.remote_output));
    let original = original_by_probe(remote, opt_view(probe.author_log), opt_view(probe.pattern_log));
    RepoView {
        name,
        path,
        remote_url: remote,
        is_fork: text::contains_sub(remote, org_marker()) && !original,
        is_original: original,
        last_commit_date: last_commit_of(opt_view(probe.last_commit_output)),
        commit_count: commit_count_of(opt_view(probe.count_output)),
        rust_files: file_list_of(opt_view(probe.rust_file_list)),
    }
}

/// A repository is kept: it was reached through a link in the home
/// directory, is original work, or has commits.
pub open spec fn kept(r: RepoView, is_symlink: bool) -> bool {
    is_symlink || r.is_original || r.commit_count > 0
}

/// Trims the origin's URL, or gives `local`.
pub fn remote_url_from(output: &Option<String>) -> (r: String)
    ensures
        r@ == remote_url_of(opt_view(*output)),
{
    match output {
        Some(s) => text::trim_str(s.as_str()),
        None => String::from_str("local"),
    }
}

/// Counts the lines a command printed.
pub fn count_lines(output: &Option<String>) -> (r: usize)
    ensures
        r == line_count(opt_view(*output)),
{
    match output {
        Some(s) => text::lines_of(s.as_str()).len(),
        None => 0,
    }
}

/// Whether a command succeeded and printed something.
pub fn printed(output: &Option<String>) -> (r: bool)
    ensures
        r == printed_something(opt_view(*output)),
{
    match output {
        Some(s) => s.unicode_len() > 0,
        None => false,
    }
}

/// Reads the last commit's instant.
pub fn last_commit_from(output: &Option<String>) -> (r: Option<(i64, u32)>)
    ensures
        r == last_commit_of(opt_view(*output)),
{
    match output {
        Some(s) => {
            let t = text::trim_str(s.as_str());
            parse_rfc3339(t.as_str())
        },
        None => None,
    }
}

/// Reads the commit count (`trim().parse().unwrap_or(0)`).
pub fn commit_count_from_output(output: &Option<String>) -> (r: usize)
    ensures
        r == commit_count_of(opt_view(*output)),
{
    match output {
        Some(s) => {
            let t = text::trim_str(s.as_str());
            match text::parse_usize_str(t.as_str()) {
                Ok(n) => n,
                Err(_) => 0,
            }
        },
        None => 0,
    }
}

/// The files that `find` listed.
pub fn rust_files_from(output: &Option<String>) -> (r: Vec<String>)
    ensures
        text::string_views(r@) == file_list_of(opt_view(*output)),
{
    match output {
        Some(s) => text::lines_of(s.as_str()),
        None => {
            let r: Vec<String> = Vec::new();
            assert(text::string_views(r@) =~= Seq::<Seq<char>>::empty());
            r
        },
    }
}

impl TimelineBuilder {
    /// A builder with no repositories and no entries.
    pub fn new() -> (r: Self)
        ensures
            r.repositories@.len() == 0,
            r.timeline_entries@.len() == 0,
    {
        TimelineBuilder { repositories: Vec::new(), timeline_entries: Vec::new() }
    }

    /// Records the repository `name` at `path` from what its commands
    /// printed, where it is kept.
    pub fn analyze_git_repo(&mut self, name: &str, path: &str, is_symlink: bool, probe: &RepoProbe)
        ensures
            final(self).timeline_entries@ == old(self).timeline_entries@,
            kept(repo_of(name@, path@, *probe), is_symlink) ==> repo_views(final(self).repositories@)
                == repo_views(old(self).repositories@).push(repo_of(name@, path@, *probe)),
            !kept(repo_of(name@, path@, *probe), is_symlink) ==> final(self).repositories@
                == old(self).repositories@,
    {
        let remote_url = remote_url_from(&probe.remote_output);
        let our_commits = count_lines(&probe.author_log);
        let is_original = our_commits > 5 || text::contains_str(remote_url.as_str(), "meta-introspector")
            || printed(&probe.pattern_log);
        proof {
            reveal_strlit("meta-introspector");
        }
        let is_fork = text::contains_str(remote_url.as_str(), "meta-introspector") && !is_original;
        let repo_info = RepoInfo {
            name: String::from_str(name),
            path: String::from_str(path),
            remote_url,
            is_fork,
            is_original,
            last_commit_date: last_commit_from(&probe.last_commit_output),
            commit_count: commit_count_from_output(&probe.count_output),
            rust_files: rust_files_from(&probe.rust_file_list),
        };
        assert(repo_info@ == repo_of(name@, path@, *probe));
        if is_symlink || is_original || repo_info.commit_count > 0 {
            let ghost before = self.repositories@;
            self.repositories.push(repo_info);
            assert(repo_views(self.repositories@) =~= repo_views(before).push(repo_of(name@, path@, *probe)));
        }
    }
}


/// The log of our recent commits shows original work on a repository under
/// the project's organisation: it mentions one of our patterns or has more
/// than ten lines.
pub open spec fn original_by_log(remote: Seq<char>, log: Option<Seq<char>>) -> bool {
    text::contains_sub(remote, org_marker()) && match log {
        Some(l) => text::contains_sub(l, "CRQ-016"@) || text::contains_sub(l, "nixify"@) || text::contains_sub(
            l,
            "introspector"@,
        ) || text::contains_sub(l, "meta-"@) || text::lines(l).len() > 10,
        None => false,
    }
}

/// Decides `original_by_log`, given the output of
/// `git log --oneline --since=2024-01-01 --author=mdupont` (`None` where it
/// could not run).
pub fn is_original_work(remote_url: &str, log: &Option<String>) -> (r: bool)
    ensures
        r == original_by_log(remote_url@, opt_view(*log)),
{
    proof {
        reveal_strlit("meta-introspector");
    }
    if !text::contains_str(remote_url, "meta-introspector") {
        return false;
    }
    match log {
        Some(l) => {
            let l = l.as_str();
            text::contains_str(l, "CRQ-016") || text::contains_str(l, "nixify") || text::contains_str(
                l,
                "introspector",
            ) || text::contains_str(l, "meta-") || text::lines_of(l).len() > 10
        },
        None => false,
    }
}

/// The repository described by a known remote and a probe.
pub open spec fn analyzed_repo(
    name: Seq<char>,
    path: Seq<char>,
    remote: Seq<char>,
    log: Option<Seq<char>>,
    probe: RepoProbe,
) -> RepoView {
    RepoView {
        name,
        path,
        remote_url: remote,
        is_fork: text::contains_sub(remote, org_marker()),
        is_original: original_by_log(remote, log),
        last_commit_date: last_commit_of(opt_view(probe.last_commit_output)),
        commit_count: commit_count_of(opt_view(probe.count_output)),
        rust_files: file_list_of(opt_view(probe.rust_file_list)),
    }
}

/// Describes the repository at `path` with the given remote: `None` where
/// the path does not exist.
pub fn analyze_repository(
    name: &str,
    path: &str,
    remote_url: &str,
    exists: bool,
    log: &Option<String>,
    probe: &RepoProbe,
) -> (r: Option<RepoInfo>)
    ensures
        !exists ==> r is None,
        exists ==> r is Some && r->0@ == analyzed_repo(name@, path@, remote_url@, opt_view(*log), *probe),
{
    if !exists {
        return None;
    }
    proof {
        reveal_strlit("meta-introspector");
    }
    let is_fork = text::contains_str(remote_url, "meta-introspector");
    let is_original = is_original_work(remote_url, log);
    let last_commit_date = last_commit_from(&probe.last_commit_output);
    let commit_count = commit_count_from_output(&probe.count_output);
    let rust_files = rust_files_from(&probe.rust_file_list);
    Some(
        RepoInfo {
            name: String::from_str(name),
            path: String::from_str(path),
            remote_url: String::from_str(remote_url),
            is_fork,
            is_original,
            last_commit_date,
            commit_count,
            rust_files,
        },
    )
}

/// The repositories that are original work, in order.
pub open spec fn original_repos(rs: Seq<RepoView>) -> Seq<RepoView>
    decreases rs.len(),
{
    if rs.len() == 0 {
        Seq::empty()
    } else if rs.last().is_original {
        original_repos(rs.drop_last()).push(rs.last())
    } else {
        original_repos(rs.drop_last())
    }
}

/// The number of repositories marked as forks.
pub open spec fn fork_count(rs: Seq<RepoView>) -> nat
    decreases rs.len(),
{
    if rs.len() == 0 {
        0
    } else {
        fork_count(rs.drop_last()) + if rs.last().is_fork {
            1nat
        } else {
            0nat
        }
    }
}

/// The number of forks that are not original work.
pub open spec fn plain_fork_count(rs: Seq<RepoView>) -> nat
    decreases rs.len(),
{
    if rs.len() == 0 {
        0
    } else {
        plain_fork_count(rs.drop_last()) + if !rs.last().is_original && rs.last().is_fork {
            1nat
        } else {
            0nat
        }
    }
}

/// The Rust files of the repositories, counted.
pub open spec fn total_files(rs: Seq<RepoView>) -> nat
    decreases rs.len(),
{
    if rs.len() == 0 {
        0
    } else {
        total_files(rs.drop_last()) + rs.last().rust_files.len()
    }
}

/// The commits of the repositories, counted.
pub open spec fn total_commits(rs: Seq<RepoView>) -> nat
    decreases rs.len(),
{
    if rs.len() == 0 {
        0
    } else {
        total_commits(rs.drop_last()) + rs.last().commit_count
    }
}

impl TimelineBuilder {
    /// The numbers of original repositories and of forks that are not
    /// original work.
    pub fn identify_original_work(&self) -> (r: (usize, usize))
        ensures
            r.0 == original_repos(repo_views(self.repositories@)).len(),
            r.1 == plain_fork_count(repo_views(self.repositories@)),
    {
        let ghost rs = repo_views(self.repositories@);
        let n = self.repositories.len();
        let mut original_count: usize = 0;
        let mut fork_count: usize = 0;
        let mut i: usize = 0;
        while i < n
            invariant
                rs == repo_views(self.repositories@),
                n == rs.len(),
                i <= n,
                original_count == original_repos(rs.take(i as int)).len(),
                fork_count == plain_fork_count(rs.take(i as int)),
                original_count <= i,
                fork_count <= i,
            decreases n - i,
        {
            let repo = &self.repositories[i];
            assert(rs.take(i + 1).drop_last() =~= rs.take(i as int));
            assert(rs[i as int] == repo@);
            if repo.is_original {
                original_count = original_count + 1;
            } else if repo.is_fork {
                fork_count = fork_count + 1;
            }
            i = i + 1;
        }
        assert(rs.take(n as int) =~= rs);
        (original_count, fork_count)
    }
}


/// The kind of event a repository's entry records.
pub open spec fn event_type_of(r: RepoView) -> Seq<char> {
    if r.is_original {
        "original_work"@
    } else if r.is_fork {
        "fork"@
    } else {
        "external"@
    }
}

/// `<name> - <n> commits, <m> Rust files`.
pub open spec fn description_of(r: RepoView) -> Seq<char> {
    r.name + " - "@ + text::decimal(r.commit_count) + " commits, "@ + text::decimal(r.rust_files.len())
        + " Rust files"@
}

/// The entry of a repository whose last commit is dated `d`.
pub open spec fn entry_of(r: RepoView, d: (i64, u32)) -> EntryView {
    EntryView {
        date: d,
        repo_name: r.name,
        event_type: event_type_of(r),
        description: description_of(r),
        files_changed: r.rust_files,
    }
}

/// One entry for each repository with a dated last commit, in order.
pub open spec fn dated_entries(rs: Seq<RepoView>) -> Seq<EntryView>
    decreases rs.len(),
{
    if rs.len() == 0 {
        Seq::empty()
    } else {
        match rs.last().last_commit_date {
            Some(d) => dated_entries(rs.drop_last()).push(entry_of(rs.last(), d)),
            None => dated_entries(rs.drop_last()),
        }
    }
}

/// Position `a` comes before position `b`: its instant is later, or the
/// instants are equal and `a` comes first.
pub open spec fn newer_key_lt(ds: Seq<(i64, u32)>, a: usize, b: usize) -> bool {
    instant_lt(ds[b as int], ds[a as int]) || (ds[a as int] == ds[b as int] && a < b)
}

/// `idx` lists every position of `ds` once, newest instant first and, for
/// equal instants, in their order (a stable sort, newest first).
pub open spec fn newest_first_order(ds: Seq<(i64, u32)>, idx: Seq<usize>) -> bool {
    &&& idx.len() == ds.len()
    &&& forall|i: int| 0 <= i < idx.len() ==> #[trigger] idx[i] < ds.len()
    &&& forall|i: int, j: int| 0 <= i < j < idx.len() ==> newer_key_lt(ds, #[trigger] idx[i], #[trigger] idx[j])
}

/// The instants of the entries.
pub open spec fn entry_dates(es: Seq<EntryView>) -> Seq<(i64, u32)> {
    es.map_values(|e: EntryView| e.date)
}

/// `r` is `es` sorted newest first, entries of equal instants keeping their
/// order.
pub open spec fn newest_first(es: Seq<EntryView>, r: Seq<EntryView>) -> bool {
    exists|idx: Seq<usize>|
        #![trigger newest_first_order(entry_dates(es), idx)]
        newest_first_order(entry_dates(es), idx) && r.len() == idx.len() && forall|i: int|
            0 <= i < r.len() ==> #[trigger] r[i] == es[idx[i] as int]
}

/// The positions of `ds` newest first (a stable sort).
pub fn newest_first_indices(ds: &Vec<(i64, u32)>) -> (r: Vec<usize>)
    ensures
        newest_first_order(ds@, r@),
{
    let n = ds.len();
    let mut idx: Vec<usize> = Vec::new();
    let mut k: usize = 0;
    while k < n
        invariant
            n == ds@.len(),
            k <= n,
            idx@.len() == k,
            forall|i: int| 0 <= i < idx@.len() ==> #[trigger] idx@[i] < k,
            forall|i: int, j: int| 0 <= i < j < idx@.len() ==> newer_key_lt(ds@, #[trigger] idx@[i], #[trigger] idx@[j]),
        decreases n - k,
    {
        let (ks, kn) = ds[k];
        let mut p: usize = 0;
        while p < idx.len()
            invariant
                n == ds@.len(),
                k < n,
                ds@[k as int] == (ks, kn),
                p <= idx@.len(),
                forall|i: int| 0 <= i < idx@.len() ==> #[trigger] idx@[i] < k,
                forall|i: int| 0 <= i < p ==> newer_key_lt(ds@, #[trigger] idx@[i], k),
            ensures
                p <= idx@.len(),
                forall|i: int| 0 <= i < p ==> newer_key_lt(ds@, #[trigger] idx@[i], k),
                p < idx@.len() ==> newer_key_lt(ds@, k, idx@[p as int]),
            decreases idx@.len() - p,
        {
            let q = idx[p];
            let (qs, qn) = ds[q];
            if qs < ks || (qs == ks && qn < kn) {
                break;
            }
            p = p + 1;
        }
        let ghost before = idx@;
        idx.insert(p, k);
        proof {
            assert forall|a: int, b: int| 0 <= a < b < idx@.len() implies newer_key_lt(ds@, #[trigger] idx@[a], #[trigger] idx@[b]) by {
                if b < p {
                    assert(idx@[a] == before[a] && idx@[b] == before[b]);
                } else if b == p {
                    assert(idx@[a] == before[a]);
                } else if a < p {
                    assert(idx@[a] == before[a] && idx@[b] == before[b - 1]);
                    if b - 1 > p {
                        assert(newer_key_lt(ds@, before[p as int], before[b - 1]));
                    }
                } else if a == p {
                    assert(idx@[b] == before[b - 1]);
                    if b - 1 > p {
                        assert(newer_key_lt(ds@, before[p as int], before[b - 1]));
                    }
                } else {
                    assert(idx@[a] == before[a - 1] && idx@[b] == before[b - 1]);
                }
            }
            assert forall|i: int| 0 <= i < idx@.len() implies #[trigger] idx@[i] < k + 1 by {
                if i < p {
                    assert(idx@[i] == before[i]);
                } else if i > p {
                    assert(idx@[i] == before[i - 1]);
                }
            }
        }
        k = k + 1;
    }
    idx
}

/// The entry of a repository whose last commit is dated `date`.
fn make_entry(repo: &RepoInfo, date: (i64, u32)) -> (r: TimelineEntry)
    ensures
        r@ == entry_of(repo@, date),
{
    let event_type = if repo.is_original {
        String::from_str("original_work")
    } else if repo.is_fork {
        String::from_str("fork")
    } else {
        String::from_str("external")
    };
    let mut description = repo.name.clone();
    description.append(" - ");
    description.append(text::decimal_string(repo.commit_count as u64).as_str());
    description.append(" commits, ");
    description.append(text::decimal_string(repo.rust_files.len() as u64).as_str());
    description.append(" Rust files");
    proof {
        assert(repo@.rust_files.len() == repo.rust_files@.len());
    }
    TimelineEntry {
        date,
        repo_name: repo.name.clone(),
        event_type,
        description,
        files_changed: clone_strings(&repo.rust_files),
    }
}

impl TimelineBuilder {
    /// Adds an entry for each repository with a dated last commit and sorts
    /// all entries newest first (entries of equal instants keep their order).
    pub fn build_timeline(&mut self)
        ensures
            final(self).repositories@ == old(self).repositories@,
            newest_first(
                entry_views(old(self).timeline_entries@) + dated_entries(repo_views(old(self).repositories@)),
                entry_views(final(self).timeline_entries@),
            ),
    {
        let ghost old_es = entry_views(self.timeline_entries@);
        let ghost rs = repo_views(self.repositories@);
        let mut cands: Vec<TimelineEntry> = Vec::new();
        let m = self.timeline_entries.len();
        let mut i: usize = 0;
        while i < m
            invariant
                m == self.timeline_entries@.len(),
                old_es == entry_views(self.timeline_entries@),
                i <= m,
                entry_views(cands@) == old_es.take(i as int),
            decreases m - i,
        {
            let ghost before = entry_views(cands@);
            cands.push(self.timeline_entries[i].duplicate());
            assert(entry_views(cands@) =~= before.push(old_es[i as int]));
            assert(old_es.take(i + 1) =~= old_es.take(i as int).push(old_es[i as int]));
            i = i + 1;
        }
        assert(old_es.take(m as int) =~= old_es);
        let n = self.repositories.len();
        let mut j: usize = 0;
        assert(old_es + dated_entries(rs.take(0)) =~= old_es);
        while j < n
            invariant
                n == self.repositories@.len(),
                rs == repo_views(self.repositories@),
                j <= n,
                entry_views(cands@) == old_es + dated_entries(rs.take(j as int)),
            decreases n - j,
        {
            let repo = &self.repositories[j];
            assert(rs.take(j + 1).drop_last() =~= rs.take(j as int));
            assert(rs[j as int] == repo@);
            match repo.last_commit_date {
                Some(date) => {
                    let ghost before = entry_views(cands@);
                    cands.push(make_entry(repo, date));
                    assert(entry_views(cands@) =~= before.push(entry_of(repo@, date)));
                },
                None => {},
            }
            j = j + 1;
        }
        assert(rs.take(n as int) =~= rs);
        let ghost es = entry_views(cands@);
        let mut dates: Vec<(i64, u32)> = Vec::new();
        let c = cands.len();
        let mut k: usize = 0;
        while k < c
            invariant
                c == cands@.len(),
                es == entry_views(cands@),
                k <= c,
                dates@ == entry_dates(es).take(k as int),
            decreases c - k,
        {
            dates.push(cands[k].date);
            assert(dates@ =~= entry_dates(es).take(k + 1));
            k = k + 1;
        }
        assert(dates@ =~= entry_dates(es));
        let idx = newest_first_indices(&dates);
        let mut out: Vec<TimelineEntry> = Vec::new();
        let mut t: usize = 0;
        while t < c
            invariant
                c == cands@.len(),
                es == entry_views(cands@),
                newest_first_order(entry_dates(es), idx@),
                t <= c,
                out@.len() == t,
                forall|x: int| 0 <= x < t ==> #[trigger] entry_views(out@)[x] == es[idx@[x] as int],
            decreases c - t,
        {
            let q = idx[t];
            assert(idx@[t as int] < entry_dates(es).len());
            let e = cands[q].duplicate();
            let ghost before = out@;
            out.push(e);
            assert forall|x: int| 0 <= x < t + 1 implies #[trigger] entry_views(out@)[x] == es[idx@[x] as int] by {
                if x < t {
                    assert(out@[x] == before[x]);
                    assert(entry_views(before)[x] == es[idx@[x] as int]);
                }
            }
            t = t + 1;
        }
        self.timeline_entries = out;
        assert(newest_first_order(entry_dates(es), idx@) && entry_views(self.timeline_entries@).len() == idx@.len()
            && forall|x: int| 0 <= x < entry_views(self.timeline_entries@).len() ==> #[trigger] entry_views(self.timeline_entries@)[x] == es[idx@[x] as int]);
    }
}


/// The part of a path after its last `/` (`split('/').last()`).
pub open spec fn last_piece(f: Seq<char>) -> Seq<char> {
    text::split_on(f, '/').last()
}

/// The key-file lines of an entry: `` - `<file name>` `` for each file.
pub open spec fn key_file_lines(fs: Seq<Seq<char>>) -> Seq<char>
    decreases fs.len(),
{
    if fs.len() == 0 {
        Seq::empty()
    } else {
        key_file_lines(fs.drop_last()) + "- `"@ + last_piece(fs.last()) + "`\n"@
    }
}

/// The icon of an event type.
pub open spec fn entry_icon(t: Seq<char>) -> Seq<char> {
    if t == "original_work"@ {
        "✨"@
    } else if t == "fork"@ {
        "🍴"@
    } else {
        "📦"@
    }
}

/// The files of an entry are listed when there are one to ten of them.
pub open spec fn key_files_part(fs: Seq<Seq<char>>) -> Seq<char> {
    if fs.len() > 0 && fs.len() <= 10 {
        "**Key Files**:\n"@ + key_file_lines(fs)
    } else {
        Seq::empty()
    }
}

/// The report's section for one timeline entry.
pub open spec fn entry_section(e: EntryView) -> Seq<char> {
    "### "@ + entry_icon(e.event_type) + " "@ + utc_day_text(e.date.0) + " - "@ + e.repo_name + "\n"@
        + "**Type**: "@ + e.event_type + "\n"@ + "**Description**: "@ + e.description + "\n"@
        + key_files_part(e.files_changed) + "\n"@
}

/// The sections of the entries, in order.
pub open spec fn entry_sections(es: Seq<EntryView>) -> Seq<char>
    decreases es.len(),
{
    if es.len() == 0 {
        Seq::empty()
    } else {
        entry_sections(es.drop_last()) + entry_section(es.last())
    }
}

/// The last-activity line of a repository, where its last commit is dated.
pub open spec fn activity_line(d: Option<(i64, u32)>) -> Seq<char> {
    match d {
        Some(d) => "- **Last Activity**: "@ + utc_day_text(d.0) + "\n"@,
        None => Seq::empty(),
    }
}

/// The report's section for one original repository.
pub open spec fn repo_section(r: RepoView) -> Seq<char> {
    "### "@ + r.name + "\n"@ + "- **Path**: `"@ + r.path + "`\n"@ + "- **Commits**: "@ + text::decimal(
        r.commit_count,
    ) + "\n"@ + "- **Rust Files**: "@ + text::decimal(r.rust_files.len()) + "\n"@ + activity_line(
        r.last_commit_date,
    ) + "\n"@
}

/// The sections of the repositories, in order.
pub open spec fn repo_sections(rs: Seq<RepoView>) -> Seq<char>
    decreases rs.len(),
{
    if rs.len() == 0 {
        Seq::empty()
    } else {
        repo_sections(rs.drop_last()) + repo_section(rs.last())
    }
}

/// The summary of the report.
pub open spec fn summary_text(rs: Seq<RepoView>) -> Seq<char> {
    let orig = original_repos(rs);
    "## Summary\n\n"@ + "- **Original Repositories**: "@ + text::decimal(orig.len()) + "\n"@
        + "- **Total Rust Files**: "@ + text::decimal(total_files(orig)) + "\n"@ + "- **Total Commits**: "@
        + text::decimal(total_commits(orig)) + "\n"@ + "- **Forks Managed**: "@ + text::decimal(fork_count(rs))
        + "\n"@
}

/// The Markdown report generated at Unix time `now`.
pub open spec fn report_text(rs: Seq<RepoView>, es: Seq<EntryView>, now: i64) -> Seq<char> {
    "# Meta-Introspector Development Timeline\n\n"@ + "Generated: "@ + utc_second_text(now) + "\n\n"@
        + summary_text(rs) + "\n## Timeline (Reverse Chronological)\n\n"@ + entry_sections(es)
        + "## Original Work Repositories\n\n"@ + repo_sections(original_repos(rs))
}

/// The totals of the report fit in a `usize`.
pub open spec fn report_fits(rs: Seq<RepoView>) -> bool {
    total_files(original_repos(rs)) <= usize::MAX && total_commits(original_repos(rs)) <= usize::MAX
}

/// `usize` to decimal.
fn usize_text(n: usize) -> (r: String)
    ensures
        r@ == text::decimal(n as nat),
{
    text::decimal_string(n as u64)
}

/// Builds `key_file_lines`.
fn key_files_text(fs: &Vec<String>) -> (r: String)
    ensures
        r@ == key_file_lines(text::string_views(fs@)),
{
    let ghost all = text::string_views(fs@);
    let mut r = String::new();
    let mut i: usize = 0;
    assert(r@ =~= key_file_lines(all.take(0)));
    while i < fs.len()
        invariant
            all == text::string_views(fs@),
            i <= fs@.len(),
            r@ == key_file_lines(all.take(i as int)),
        decreases fs@.len() - i,
    {
        let pieces = text::split_str(fs[i].as_str(), '/');
        proof {
            text::lemma_split_on_nonempty(fs@[i as int]@, '/');
        }
        let last = &pieces[pieces.len() - 1];
        assert(last@ == last_piece(all[i as int]));
        r.append("- `");
        r.append(last.as_str());
        r.append("`\n");
        assert(all.take(i + 1).drop_last() =~= all.take(i as int));
        i = i + 1;
    }
    assert(all.take(fs@.len() as int) =~= all);
    r
}

/// Builds `entry_section`.
fn entry_section_text(e: &TimelineEntry) -> (r: String)
    ensures
        r@ == entry_section(e@),
{
    let icon = if text::str_eq(e.event_type.as_str(), "original_work") {
        "✨"
    } else if text::str_eq(e.event_type.as_str(), "fork") {
        "🍴"
    } else {
        "📦"
    };
    let mut r = String::from_str("### ");
    r.append(icon);
    r.append(" ");
    r.append(format_utc_day(e.date.0).as_str());
    r.append(" - ");
    r.append(e.repo_name.as_str());
    r.append("\n**Type**: ");
    r.append(e.event_type.as_str());
    r.append("\n**Description**: ");
    r.append(e.description.as_str());
    r.append("\n");
    let ghost head = r@;
    let n = e.files_changed.len();
    if n > 0 && n <= 10 {
        r.append("**Key Files**:\n");
        r.append(key_files_text(&e.files_changed).as_str());
    }
    r.append("\n");
    proof {
        reveal_strlit("\n**Type**: ");
        reveal_strlit("**Type**: ");
        reveal_strlit("\n**Description**: ");
        reveal_strlit("**Description**: ");
        reveal_strlit("\n");
        assert(head =~= "### "@ + entry_icon(e@.event_type) + " "@ + utc_day_text(e@.date.0) + " - "@
            + e@.repo_name + "\n"@ + "**Type**: "@ + e@.event_type + "\n"@ + "**Description**: "@
            + e@.description + "\n"@);
    }
    r
}

/// Builds `repo_section`.
fn repo_section_text(repo: &RepoInfo) -> (r: String)
    ensures
        r@ == repo_section(repo@),
{
    let mut r = String::from_str("### ");
    r.append(repo.name.as_str());
    r.append("\n- **Path**: `");
    r.append(repo.path.as_str());
    r.append("`\n- **Commits**: ");
    r.append(usize_text(repo.commit_count).as_str());
    r.append("\n- **Rust Files**: ");
    r.append(usize_text(repo.rust_files.len()).as_str());
    r.append("\n");
    let ghost head = r@;
    match repo.last_commit_date {
        Some(d) => {
            r.append("- **Last Activity**: ");
            r.append(format_utc_day(d.0).as_str());
            r.append("\n");
        },
        None => {},
    }
    r.append("\n");
    proof {
        reveal_strlit("\n- **Path**: `");
        reveal_strlit("- **Path**: `");
        reveal_strlit("`\n- **Commits**: ");
        reveal_strlit("`\n");
        reveal_strlit("- **Commits**: ");
        reveal_strlit("\n- **Rust Files**: ");
        reveal_strlit("- **Rust Files**: ");
        reveal_strlit("\n");
        assert(repo@.rust_files.len() == repo.rust_files@.len());
        assert(head =~= "### "@ + repo@.name + "\n"@ + "- **Path**: `"@ + repo@.path + "`\n"@ + "- **Commits**: "@
            + text::decimal(repo@.commit_count) + "\n"@ + "- **Rust Files**: "@ + text::decimal(repo@.rust_files.len())
            + "\n"@);
    }
    r
}


/// The totals over the first `i` repositories stay within those over all.
proof fn lemma_totals_grow(rs: Seq<RepoView>, i: int)
    requires
        0 <= i <= rs.len(),
    ensures
        total_files(original_repos(rs.take(i))) <= total_files(original_repos(rs)),
        total_commits(original_repos(rs.take(i))) <= total_commits(original_repos(rs)),
    decreases rs.len(),
{
    if i == rs.len() {
        assert(rs.take(i) =~= rs);
    } else {
        lemma_totals_grow(rs.drop_last(), i);
        assert(rs.drop_last().take(i) =~= rs.take(i));
        if rs.last().is_original {
            assert(original_repos(rs).drop_last() =~= original_repos(rs.drop_last()));
        }
    }
}

impl TimelineBuilder {
    /// The Markdown report, generated at Unix time `now`.
    pub fn generate_report(&self, now: i64) -> (r: String)
        requires
            report_fits(repo_views(self.repositories@)),
        ensures
            r@ == report_text(repo_views(self.repositories@), entry_views(self.timeline_entries@), now),
    {
        let ghost rs = repo_views(self.repositories@);
        let ghost es = entry_views(self.timeline_entries@);
        let n = self.repositories.len();
        let mut originals: usize = 0;
        let mut files: usize = 0;
        let mut commits: usize = 0;
        let mut forks: usize = 0;
        let mut i: usize = 0;
        while i < n
            invariant
                rs == repo_views(self.repositories@),
                n == rs.len(),
                i <= n,
                report_fits(rs),
                originals == original_repos(rs.take(i as int)).len(),
                files == total_files(original_repos(rs.take(i as int))),
                commits == total_commits(original_repos(rs.take(i as int))),
                forks == fork_count(rs.take(i as int)),
                originals <= i,
                forks <= i,
            decreases n - i,
        {
            let repo = &self.repositories[i];
            assert(rs.take(i + 1).drop_last() =~= rs.take(i as int));
            assert(rs[i as int] == repo@);
            proof {
                lemma_totals_grow(rs, i + 1);
            }
            if repo.is_original {
                assert(original_repos(rs.take(i + 1)).drop_last() =~= original_repos(rs.take(i as int)));
                assert(repo@.rust_files.len() == repo.rust_files@.len());
                originals = originals + 1;
                files = files + repo.rust_files.len();
                commits = commits + repo.commit_count;
            }
            if repo.is_fork {
                forks = forks + 1;
            }
            i = i + 1;
        }
        assert(rs.take(n as int) =~= rs);
        let mut r = String::from_str("# Meta-Introspector Development Timeline\n\nGenerated: ");
        r.append(format_utc_second(now).as_str());
        r.append("\n\n## Summary\n\n- **Original Repositories**: ");
        r.append(usize_text(originals).as_str());
        r.append("\n- **Total Rust Files**: ");
        r.append(usize_text(files).as_str());
        r.append("\n- **Total Commits**: ");
        r.append(usize_text(commits).as_str());
        r.append("\n- **Forks Managed**: ");
        r.append(usize_text(forks).as_str());
        r.append("\n\n## Timeline (Reverse Chronological)\n\n");
        let ghost head = r@;
        proof {
            reveal_strlit("# Meta-Introspector Development Timeline\n\nGenerated: ");
            reveal_strlit("# Meta-Introspector Development Timeline\n\n");
            reveal_strlit("Generated: ");
            reveal_strlit("\n\n## Summary\n\n- **Original Repositories**: ");
            reveal_strlit("\n\n");
            reveal_strlit("## Summary\n\n");
            reveal_strlit("- **Original Repositories**: ");
            reveal_strlit("\n- **Total Rust Files**: ");
            reveal_strlit("\n");
            reveal_strlit("- **Total Rust Files**: ");
            reveal_strlit("\n- **Total Commits**: ");
            reveal_strlit("- **Total Commits**: ");
            reveal_strlit("\n- **Forks Managed**: ");
            reveal_strlit("- **Forks Managed**: ");
            reveal_strlit("\n\n## Timeline (Reverse Chronological)\n\n");
            reveal_strlit("\n## Timeline (Reverse Chronological)\n\n");
            assert(head =~= "# Meta-Introspector Development Timeline\n\n"@ + "Generated: "@ + utc_second_text(now)
                + "\n\n"@ + summary_text(rs) + "\n## Timeline (Reverse Chronological)\n\n"@);
        }
        let m = self.timeline_entries.len();
        let mut j: usize = 0;
        assert(es.take(0) =~= Seq::<EntryView>::empty());
        assert(r@ =~= head + entry_sections(es.take(0)));
        while j < m
            invariant
                es == entry_views(self.timeline_entries@),
                m == es.len(),
                j <= m,
                r@ == head + entry_sections(es.take(j as int)),
            decreases m - j,
        {
            let sec = entry_section_text(&self.timeline_entries[j]);
            r.append(sec.as_str());
            assert(es.take(j + 1).drop_last() =~= es.take(j as int));
            assert(es[j as int] == self.timeline_entries@[j as int]@);
            assert(r@ =~= head + entry_sections(es.take(j + 1)));
            j = j + 1;
        }
        assert(es.take(m as int) =~= es);
        r.append("## Original Work Repositories\n\n");
        let ghost head2 = r@;
        let mut k: usize = 0;
        assert(rs.take(0) =~= Seq::<RepoView>::empty());
        assert(r@ =~= head2 + repo_sections(original_repos(rs.take(0))));
        while k < n
            invariant
                rs == repo_views(self.repositories@),
                n == rs.len(),
                k <= n,
                r@ == head2 + repo_sections(original_repos(rs.take(k as int))),
            decreases n - k,
        {
            let repo = &self.repositories[k];
            assert(rs.take(k + 1).drop_last() =~= rs.take(k as int));
            assert(rs[k as int] == repo@);
            if repo.is_original {
                let sec = repo_section_text(repo);
                r.append(sec.as_str());
                assert(original_repos(rs.take(k + 1)).drop_last() =~= original_repos(rs.take(k as int)));
                assert(r@ =~= head2 + repo_sections(original_repos(rs.take(k + 1))));
            }
            k = k + 1;
        }
        assert(rs.take(n as int) =~= rs);
        assert(r@ =~= report_text(rs, es, now));
        r
    }
}

/// `true` or `false`.
pub open spec fn json_bool(b: bool) -> Seq<char> {
    if b {
        "true"@
    } else {
        "false"@
    }
}

/// The JSON object of one repository.
pub open spec fn repo_object(r: RepoView) -> Seq<char> {
    "    {\n      \"name\": \""@ + r.name + "\",\n      \"is_original\": "@ + json_bool(r.is_original)
        + ",\n      \"commit_count\": "@ + text::decimal(r.commit_count) + ",\n      \"rust_files\": "@
        + text::decimal(r.rust_files.len()) + "\n    }"@
}

/// The objects of the repositories, separated by `,` and a newline.
pub open spec fn repo_objects(rs: Seq<RepoView>) -> Seq<char>
    decreases rs.len(),
{
    if rs.len() == 0 {
        Seq::empty()
    } else if rs.len() == 1 {
        repo_object(rs[0])
    } else {
        repo_objects(rs.drop_last()) + ",\n"@ + repo_object(rs.last())
    }
}

/// The JSON summary generated at the instant (`secs`, `nanos`).
pub open spec fn json_text(rs: Seq<RepoView>, secs: i64, nanos: u32) -> Seq<char> {
    "{\n"@ + "  \"generated_at\": \""@ + rfc3339_text(secs, nanos) + "\",\n"@ + "  \"repositories\": [\n"@
        + repo_objects(rs) + "\n  ]\n}"@
}

/// Builds `repo_object`.
fn repo_object_text(repo: &RepoInfo) -> (r: String)
    ensures
        r@ == repo_object(repo@),
{
    let mut r = String::from_str("    {\n      \"name\": \"");
    r.append(repo.name.as_str());
    r.append("\",\n      \"is_original\": ");
    r.append(if repo.is_original { "true" } else { "false" });
    r.append(",\n      \"commit_count\": ");
    r.append(usize_text(repo.commit_count).as_str());
    r.append(",\n      \"rust_files\": ");
    r.append(usize_text(repo.rust_files.len()).as_str());
    r.append("\n    }");
    proof {
        assert(repo@.rust_files.len() == repo.rust_files@.len());
    }
    r
}

impl TimelineBuilder {
    /// The JSON summary of the repositories, generated at the instant
    /// (`now_secs`, `now_nanos`).
    pub fn generate_json(&self, now_secs: i64, now_nanos: u32) -> (r: String)
        ensures
            r@ == json_text(repo_views(self.repositories@), now_secs, now_nanos),
    {
        let ghost rs = repo_views(self.repositories@);
        let mut r = String::from_str("{\n  \"generated_at\": \"");
        r.append(format_rfc3339(now_secs, now_nanos).as_str());
        r.append("\",\n  \"repositories\": [\n");
        let ghost head = r@;
        proof {
            reveal_strlit("{\n  \"generated_at\": \"");
            reveal_strlit("{\n");
            reveal_strlit("  \"generated_at\": \"");
            reveal_strlit("\",\n  \"repositories\": [\n");
            reveal_strlit("\",\n");
            reveal_strlit("  \"repositories\": [\n");
            assert(head =~= "{\n"@ + "  \"generated_at\": \""@ + rfc3339_text(now_secs, now_nanos) + "\",\n"@
                + "  \"repositories\": [\n"@);
        }
        let n = self.repositories.len();
        let mut i: usize = 0;
        assert(r@ =~= head + repo_objects(rs.take(0)));
        while i < n
            invariant
                rs == repo_views(self.repositories@),
                n == rs.len(),
                i <= n,
                r@ == head + repo_objects(rs.take(i as int)),
            decreases n - i,
        {
            if i > 0 {
                r.append(",\n");
            }
            let obj = repo_object_text(&self.repositories[i]);
            r.append(obj.as_str());
            assert(rs.take(i + 1).drop_last() =~= rs.take(i as int));
            assert(rs[i as int] == self.repositories@[i as int]@);
            if i == 0 {
                assert(rs.take(1)[0] == rs[0]);
            }
            assert(r@ =~= head + repo_objects(rs.take(i + 1)));
            i = i + 1;
        }
        assert(rs.take(n as int) =~= rs);
        r.append("\n  ]\n}");
        r
    }
}

/// A line that `find` printed for a `.git` directory: the repository's name
/// and path, where the line ends in `/.git` and the path has a last
/// component.
pub open spec fn repo_dir_of(line: Seq<char>) -> Option<(Seq<char>, Seq<char>)> {
    if text::has_suffix(line, "/.git"@) {
        let path = line.take(line.len() - 5);
        match path_file_name(path) {
            Some(name) => Some((name, path)),
            None => None,
        }
    } else {
        None
    }
}

/// The repositories among the lines, in order.
pub open spec fn repo_dirs(ls: Seq<Seq<char>>) -> Seq<(Seq<char>, Seq<char>)>
    decreases ls.len(),
{
    if ls.len() == 0 {
        Seq::empty()
    } else {
        match repo_dir_of(ls.last()) {
            Some(d) => repo_dirs(ls.drop_last()).push(d),
            None => repo_dirs(ls.drop_last()),
        }
    }
}

/// The views of name and path pairs.
pub open spec fn pair_views(v: Seq<(String, String)>) -> Seq<(Seq<char>, Seq<char>)> {
    v.map_values(|p: (String, String)| (p.0@, p.1@))
}

/// The repositories (name, path) that the output of
/// `find <base> -name .git -type d` lists.
pub fn repo_dirs_in(find_output: &str) -> (r: Vec<(String, String)>)
    ensures
        pair_views(r@) == repo_dirs(text::lines(find_output@)),
{
    let ls = text::lines_of(find_output);
    let ghost lv = text::string_views(ls@);
    let mut r: Vec<(String, String)> = Vec::new();
    let mut i: usize = 0;
    assert(pair_views(r@) =~= repo_dirs(lv.take(0)));
    proof {
        reveal_strlit("/.git");
    }
    while i < ls.len()
        invariant
            lv == text::string_views(ls@),
            lv == text::lines(find_output@),
            i <= lv.len(),
            pair_views(r@) == repo_dirs(lv.take(i as int)),
            "/.git"@.len() == 5,
        decreases lv.len() - i,
    {
        let line = ls[i].as_str();
        assert(lv.take(i + 1).drop_last() =~= lv.take(i as int));
        assert(lv[i as int] == line@);
        if text::ends_with(line, "/.git") {
            let len = line.unicode_len();
            let path = line.substring_char(0, len - 5);
            assert(path@ =~= line@.take(line@.len() - 5));
            match file_name_of(path) {
                Some(name) => {
                    let ghost before = r@;
                    r.push((name, String::from_str(path)));
                    assert(pair_views(r@) =~= pair_views(before).push((name@, path@)));
                },
                None => {},
            }
        }
        i = i + 1;
    }
    assert(lv.take(lv.len() as int) =~= lv);
    r
}

/// Under the meta-introspector organisation a log that mentions any of the
/// patterns CRQ-016, nixify, introspector or meta- marks the repository as
/// original work; outside the organisation, or without a log, nothing
/// does.
pub proof fn law_original_work_patterns(remote: Seq<char>, l: Seq<char>)
    ensures
        text::contains_sub(remote, "meta-introspector"@) && (text::contains_sub(l, "CRQ-016"@) || text::contains_sub(
            l,
            "nixify"@,
        ) || text::contains_sub(l, "introspector"@) || text::contains_sub(l, "meta-"@)) ==> original_by_log(
            remote,
            Some(l),
        ),
        !text::contains_sub(remote, "meta-introspector"@) ==> !original_by_log(remote, Some(l)),
        !original_by_log(remote, None),
{
}

} // verus!
