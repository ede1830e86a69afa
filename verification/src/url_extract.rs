//! Collecting the URLs and repository names that GitHub's repository
//! listings hold, each once.
//!
//! Reading the listing files and parsing their JSON is left to the caller,
//! which hands over, for each repository of a listing, the string fields
//! that are read here.
use vstd::prelude::*;
use crate::text;

verus! {

/// The fields of one listed repository that are read; each is `None` where
/// the listing holds no string there.
pub struct RepoRecord {
    pub clone_url: Option<String>,
    pub html_url: Option<String>,
    pub git_url: Option<String>,
    pub ssh_url: Option<String>,
    pub svn_url: Option<String>,
    pub full_name: Option<String>,
    pub name: Option<String>,
}

/// The text of an optional string, as a set of at most one item.
pub open spec fn opt_set(o: Option<String>) -> Set<Seq<char>> {
    match o {
        Some(s) => set![s@],
        None => Set::empty(),
    }
}

/// The URLs of a repository: clone, HTML, git, SSH and SVN.
pub open spec fn record_urls(r: RepoRecord) -> Set<Seq<char>> {
    opt_set(r.clone_url) + opt_set(r.html_url) + opt_set(r.git_url) + opt_set(r.ssh_url) + opt_set(r.svn_url)
}

/// The names of a repository: its full name and its name.
pub open spec fn record_names(r: RepoRecord) -> Set<Seq<char>> {
    opt_set(r.full_name) + opt_set(r.name)
}

/// The URLs of all listed repositories.
pub open spec fn listing_urls(rs: Seq<RepoRecord>) -> Set<Seq<char>>
    decreases rs.len(),
{
    if rs.len() == 0 {
        Set::empty()
    } else {
        listing_urls(rs.drop_last()) + record_urls(rs.last())
    }
}

/// The names of all listed repositories.
pub open spec fn listing_names(rs: Seq<RepoRecord>) -> Set<Seq<char>>
    decreases rs.len(),
{
    if rs.len() == 0 {
        Set::empty()
    } else {
        listing_names(rs.drop_last()) + record_names(rs.last())
    }
}

/// The strings of `v` as a set.
pub open spec fn string_set(v: Seq<String>) -> Set<Seq<char>> {
    text::string_views(v).to_set()
}

/// Nothing occurs twice in `v`.
pub open spec fn distinct(v: Seq<String>) -> bool {
    text::string_views(v).no_duplicates()
}

/// Adds the optional string to `v` unless it is already there.
pub fn insert_unique(v: &mut Vec<String>, s: &Option<String>)
    requires
        distinct(old(v)@),
    ensures
        distinct(final(v)@),
        string_set(final(v)@) == string_set(old(v)@) + opt_set(*s),
{
    match s {
        Some(t) => {
            let ghost vs = text::string_views(v@);
            let mut i: usize = 0;
            while i < v.len()
                invariant
                    vs == text::string_views(v@),
                    i <= v@.len(),
                    forall|k: int| 0 <= k < i ==> vs[k] != t@,
                    v@ == old(v)@,
                    distinct(v@),
                    opt_set(*s) == set![t@],
                decreases v@.len() - i,
            {
                if text::str_eq(v[i].as_str(), t.as_str()) {
                    assert(vs[i as int] == t@);
                    assert(vs.to_set().contains(t@));
                    assert(vs.to_set() + set![t@] =~= vs.to_set());
                    return;
                }
                i = i + 1;
            }
            v.push(t.clone());
            proof {
                assert(text::string_views(v@) =~= vs.push(t@));
                vs.lemma_push_to_set_commute(t@);
                assert(vs.to_set().insert(t@) =~= vs.to_set() + set![t@]);
                assert(!vs.contains(t@));
                assert forall|a: int, b: int| 0 <= a < b < vs.push(t@).len() implies vs.push(t@)[a] != vs.push(
                    t@,
                )[b] by {
                    if b == vs.len() {
                        assert(vs[a] != t@);
                    }
                }
            }
        },
        None => {
            assert(string_set(v@) + Set::<Seq<char>>::empty() =~= string_set(v@));
        },
    }
}

/// Adds the URLs and names of the listed repositories to `urls` and `repos`,
/// each once.
pub fn extract_urls_from_records(records: &Vec<RepoRecord>, urls: &mut Vec<String>, repos: &mut Vec<String>)
    requires
        distinct(old(urls)@),
        distinct(old(repos)@),
    ensures
        distinct(final(urls)@),
        distinct(final(repos)@),
        string_set(final(urls)@) == string_set(old(urls)@) + listing_urls(records@),
        string_set(final(repos)@) == string_set(old(repos)@) + listing_names(records@),
{
    let ghost u0 = string_set(urls@);
    let ghost r0 = string_set(repos@);
    let mut i: usize = 0;
    assert(u0 + listing_urls(records@.take(0)) =~= u0);
    assert(r0 + listing_names(records@.take(0)) =~= r0);
    while i < records.len()
        invariant
            i <= records@.len(),
            distinct(urls@),
            distinct(repos@),
            string_set(urls@) == u0 + listing_urls(records@.take(i as int)),
            string_set(repos@) == r0 + listing_names(records@.take(i as int)),
        decreases records@.len() - i,
    {
        let r = &records[i];
        insert_unique(urls, &r.clone_url);
        insert_unique(urls, &r.html_url);
        insert_unique(urls, &r.git_url);
        insert_unique(urls, &r.ssh_url);
        insert_unique(urls, &r.svn_url);
        insert_unique(repos, &r.full_name);
        insert_unique(repos, &r.name);
        assert(records@.take(i + 1).drop_last() =~= records@.take(i as int));
        assert(records@.take(i + 1).last() == *r);
        assert(string_set(urls@) =~= u0 + listing_urls(records@.take(i + 1)));
        assert(string_set(repos@) =~= r0 + listing_names(records@.take(i + 1)));
        i = i + 1;
    }
    assert(records@.take(records@.len() as int) =~= records@);
}

} // verus!
