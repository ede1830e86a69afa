//! Character-bigram Markov models of the compiler's sources: counting the
//! transitions of file paths and file contents, the binary model format,
//! the overlap of two models (a Venn diagram of their transitions) and the
//! three-character patterns specific to each, and the top transitions of a
//! stored model.
use vstd::prelude::*;
use vstd::string::*;
use crate::text;

verus! {

broadcast use vstd::set_lib::group_set_properties;

/// How often each transition was seen, kept as parallel vectors whose
/// transitions never repeat.
pub struct TransitionCounts {
    transitions: Vec<(char, char)>,
    counts: Vec<u32>,
}

/// How many of the keys satisfy `p`.
pub open spec fn count_keys<K>(ks: Seq<K>, p: spec_fn(K) -> bool) -> nat
    decreases ks.len(),
{
    if ks.len() == 0 {
        0
    } else {
        count_keys(ks.drop_last(), p) + if p(ks.last()) {
            1nat
        } else {
            0nat
        }
    }
}

/// Counting distinct keys counts the set they form.
pub proof fn lemma_count_keys<K>(ks: Seq<K>, p: spec_fn(K) -> bool)
    requires
        ks.no_duplicates(),
    ensures
        ks.to_set().filter(p).finite(),
        ks.to_set().filter(p).len() == count_keys(ks, p),
    decreases ks.len(),
{
    if ks.len() == 0 {
        assert(ks.to_set().filter(p) =~= Set::<K>::empty());
    } else {
        let init = ks.drop_last();
        let x = ks.last();
        assert(init.no_duplicates()) by {
            assert forall|a: int, b: int| 0 <= a < init.len() && 0 <= b < init.len() && a != b implies init[a]
                != init[b] by {
                assert(init[a] == ks[a] && init[b] == ks[b]);
            }
        }
        lemma_count_keys(init, p);
        assert(!init.contains(x)) by {
            if init.contains(x) {
                let i = choose|i: int| 0 <= i < init.len() && init[i] == x;
                assert(ks[i] == ks[ks.len() - 1]);
            }
        }
        assert(ks.to_set() =~= init.to_set().insert(x)) by {
            assert forall|k: K| #[trigger] ks.to_set().contains(k) == init.to_set().insert(x).contains(k) by {
                if ks.contains(k) {
                    let i = choose|i: int| 0 <= i < ks.len() && ks[i] == k;
                    if i < init.len() {
                        assert(init[i] == k);
                    }
                }
                if init.contains(k) {
                    let i = choose|i: int| 0 <= i < init.len() && init[i] == k;
                    assert(ks[i] == k);
                }
            }
        }
        if p(x) {
            assert(ks.to_set().filter(p) =~= init.to_set().filter(p).insert(x));
        } else {
            assert(ks.to_set().filter(p) =~= init.to_set().filter(p));
        }
    }
}

impl TransitionCounts {
    /// Transitions and counts pair up and no transition repeats.
    pub closed spec fn wf(&self) -> bool {
        &&& self.transitions@.len() == self.counts@.len()
        &&& self.transitions@.no_duplicates()
    }

    /// The transitions, in storage order.
    pub closed spec fn transition_seq(&self) -> Seq<(char, char)> {
        self.transitions@
    }

    /// The counts, in storage order.
    pub closed spec fn count_seq(&self) -> Seq<u32> {
        self.counts@
    }

    /// Each transition's count.
    pub closed spec fn as_map(&self) -> Map<(char, char), u32> {
        Map::new(
            |t: (char, char)| self.transitions@.contains(t),
            |t: (char, char)| self.counts@[self.transitions@.index_of(t)],
        )
    }

    /// The stored transitions are the map's keys, without repeats.
    pub proof fn lemma_keys(&self)
        requires
            self.wf(),
        ensures
            self.transition_seq().no_duplicates(),
            self.transition_seq().to_set() == self@.dom(),
            self@.dom().finite(),
            self@.dom().len() == self.transition_seq().len(),
            self.transition_seq().len() == self.count_seq().len(),
            forall|i: int|
                0 <= i < self.transition_seq().len() ==> #[trigger] self@[self.transition_seq()[i]]
                    == self.count_seq()[i],
    {
        assert(self.transition_seq().to_set() =~= self@.dom());
        self.transition_seq().unique_seq_to_set();
        assert forall|i: int| 0 <= i < self.transition_seq().len() implies #[trigger] self@[self.transition_seq()[i]]
            == self.count_seq()[i] by {
            let t = self.transitions@[i];
            assert(self.transitions@.contains(t));
            let j = self.transitions@.index_of(t);
            assert(self.transitions@[j] == t);
        }
    }

    /// No transitions.
    pub fn new() -> (m: Self)
        ensures
            m.wf(),
            m@ == Map::<(char, char), u32>::empty(),
    {
        let m = TransitionCounts { transitions: Vec::new(), counts: Vec::new() };
        assert(m@ =~= Map::<(char, char), u32>::empty());
        m
    }

    /// Number of distinct transitions.
    pub fn len(&self) -> (n: usize)
        requires
            self.wf(),
        ensures
            n == self@.dom().len(),
    {
        proof {
            self.lemma_keys();
        }
        self.transitions.len()
    }

    /// Storage position of a transition.
    fn find(&self, from: char, to: char) -> (r: Option<usize>)
        requires
            self.wf(),
        ensures
            match r {
                Some(i) => i < self.transitions@.len() && self.transitions@[i as int] == (from, to),
                None => !self@.contains_key((from, to)),
            },
    {
        let mut i: usize = 0;
        while i < self.transitions.len()
            invariant
                i <= self.transitions@.len(),
                forall|j: int| 0 <= j < i ==> self.transitions@[j] != (from, to),
            decreases self.transitions@.len() - i,
        {
            let (a, b) = self.transitions[i];
            if a == from && b == to {
                return Some(i);
            }
            i = i + 1;
        }
        None
    }

    /// The count of a transition, if it was seen.
    pub fn count_of(&self, from: char, to: char) -> (r: Option<u32>)
        requires
            self.wf(),
        ensures
            match r {
                Some(c) => self@.contains_key((from, to)) && self@[(from, to)] == c,
                None => !self@.contains_key((from, to)),
            },
    {
        match self.find(from, to) {
            Some(i) => {
                proof {
                    self.lemma_keys();
                }
                Some(self.counts[i])
            },
            None => None,
        }
    }

    /// Sets the count of a transition, adding it if it is new.
    pub fn put(&mut self, from: char, to: char, count: u32)
        requires
            old(self).wf(),
        ensures
            final(self).wf(),
            final(self)@ == old(self)@.insert((from, to), count),
    {
        proof {
            self.lemma_keys();
        }
        let ghost before = self@;
        match self.find(from, to) {
            Some(i) => {
                self.counts.set(i, count);
                proof {
                    assert forall|t: (char, char)| #[trigger] self@.contains_key(t) == before.insert((from, to), count).contains_key(t) by {}
                    assert forall|t: (char, char)| self@.contains_key(t) implies #[trigger] self@[t] == before.insert((from, to), count)[t] by {
                        let j = self.transitions@.index_of(t);
                        assert(self.transitions@[j] == t);
                        if t == (from, to) {
                            assert(j == i) by {
                                if j != i {
                                    assert(self.transitions@[j] == self.transitions@[i as int]);
                                }
                            }
                        }
                    }
                    assert(self@ =~= before.insert((from, to), count));
                }
            },
            None => {
                let ghost old_ts = self.transitions@;
                self.transitions.push((from, to));
                self.counts.push(count);
                proof {
                    assert(!old_ts.contains((from, to)));
                    assert(self.transitions@.no_duplicates()) by {
                        assert forall|a: int, b: int|
                            0 <= a < self.transitions@.len() && 0 <= b < self.transitions@.len() && a != b implies self.transitions@[a]
                            != self.transitions@[b] by {
                            if a < old_ts.len() && b < old_ts.len() {
                                assert(self.transitions@[a] == old_ts[a]);
                                assert(self.transitions@[b] == old_ts[b]);
                            } else if a < old_ts.len() {
                                assert(self.transitions@[a] == old_ts[a]);
                            } else {
                                assert(self.transitions@[b] == old_ts[b]);
                            }
                        }
                    }
                    assert forall|t: (char, char)| #[trigger] self@.contains_key(t) == before.insert((from, to), count).contains_key(t) by {
                        if old_ts.contains(t) {
                            let j = choose|j: int| 0 <= j < old_ts.len() && old_ts[j] == t;
                            assert(self.transitions@[j] == t);
                        }
                        if self.transitions@.contains(t) && t != (from, to) {
                            let j = choose|j: int| 0 <= j < self.transitions@.len() && self.transitions@[j] == t;
                            assert(j < old_ts.len());
                            assert(old_ts[j] == t);
                        }
                        if t == (from, to) {
                            assert(self.transitions@[old_ts.len() as int] == t);
                        }
                    }
                    assert forall|t: (char, char)| self@.contains_key(t) implies #[trigger] self@[t] == before.insert((from, to), count)[t] by {
                        let j = self.transitions@.index_of(t);
                        assert(self.transitions@[j] == t);
                        if t == (from, to) {
                            assert(j == old_ts.len()) by {
                                if j < old_ts.len() {
                                    assert(old_ts[j] == t);
                                }
                            }
                        } else {
                            assert(j < old_ts.len());
                            assert(old_ts[j] == t);
                            assert(old_ts.contains(t));
                            let k = old_ts.index_of(t);
                            assert(old_ts[k] == t);
                            assert(k == j) by {
                                if k != j {
                                    assert(self.transitions@[k] == self.transitions@[j]);
                                }
                            }
                        }
                    }
                    assert(self@ =~= before.insert((from, to), count));
                }
            },
        }
    }

    /// Counts one more occurrence of a transition.
    pub fn record(&mut self, from: char, to: char)
        requires
            old(self).wf(),
            old(self)@.contains_key((from, to)) ==> old(self)@[(from, to)] < u32::MAX,
        ensures
            final(self).wf(),
            final(self)@ == bump(old(self)@, from, to),
    {
        let c = match self.count_of(from, to) {
            Some(c) => c + 1,
            None => 1,
        };
        self.put(from, to, c);
    }

    /// The transition and count at storage position `i`.
    pub fn entry_at(&self, i: usize) -> (e: (char, char, u32))
        requires
            self.wf(),
            i < self@.dom().len(),
        ensures
            self@.contains_key((e.0, e.1)),
            self@[(e.0, e.1)] == e.2,
            (e.0, e.1) == self.transition_seq()[i as int],
    {
        proof {
            self.lemma_keys();
        }
        let (a, b) = self.transitions[i];
        assert(self.transitions@.contains((a, b)));
        (a, b, self.counts[i])
    }
}

impl View for TransitionCounts {
    type V = Map<(char, char), u32>;

    closed spec fn view(&self) -> Map<(char, char), u32> {
        self.as_map()
    }
}

/// The counts with one more occurrence of a transition.
pub open spec fn bump(m: Map<(char, char), u32>, from: char, to: char) -> Map<(char, char), u32> {
    m.insert(
        (from, to),
        if m.contains_key((from, to)) {
            (m[(from, to)] + 1) as u32
        } else {
            1u32
        },
    )
}

/// The counts after every adjacent pair of `s`, left to right.
pub open spec fn add_windows(m: Map<(char, char), u32>, s: Seq<char>) -> Map<(char, char), u32>
    decreases s.len(),
{
    if s.len() < 2 {
        m
    } else {
        add_windows(bump(m, s[0], s[1]), s.drop_first())
    }
}

/// No count passes `u32::MAX` while the pairs of `s` are added.
pub open spec fn windows_fit(m: Map<(char, char), u32>, s: Seq<char>) -> bool
    decreases s.len(),
{
    s.len() < 2 || ((m.contains_key((s[0], s[1])) ==> m[(s[0], s[1])] < u32::MAX) && windows_fit(
        bump(m, s[0], s[1]),
        s.drop_first(),
    ))
}

/// The number of adjacent pairs of `s`.
pub open spec fn window_count(s: Seq<char>) -> nat {
    if s.len() < 2 {
        0
    } else {
        (s.len() - 1) as nat
    }
}

/// Adds every adjacent pair of `s` to the counts, left to right.
fn add_pairs(model: &mut TransitionCounts, s: &Vec<char>)
    requires
        old(model).wf(),
        windows_fit(old(model)@, s@),
    ensures
        final(model).wf(),
        final(model)@ == add_windows(old(model)@, s@),
{
    let ghost goal = add_windows(model@, s@);
    let n = s.len();
    if n < 2 {
        return;
    }
    let mut i: usize = 0;
    assert(s@.skip(0) =~= s@);
    while i + 1 < n
        invariant
            model.wf(),
            n == s@.len(),
            n >= 2,
            i + 1 <= n,
            goal == add_windows(model@, s@.skip(i as int)),
            windows_fit(model@, s@.skip(i as int)),
        decreases n - i,
    {
        let ghost rest = s@.skip(i as int);
        assert(rest[0] == s@[i as int] && rest[1] == s@[i + 1]);
        assert(rest.drop_first() =~= s@.skip(i + 1));
        model.record(s[i], s[i + 1]);
        i = i + 1;
    }
    assert(s@.skip(i as int).len() < 2);
}

/// The number of pairs `add_pairs` counts.
fn pair_count(s: &Vec<char>) -> (n: u64)
    ensures
        n == window_count(s@),
{
    if s.len() < 2 {
        0
    } else {
        (s.len() - 1) as u64
    }
}

/// The training state of the three models: file paths, file contents, and
/// both together.
pub struct VennMarkovAnalyzer {
    pub path_model: TransitionCounts,
    pub path_total: u64,
    pub content_model: TransitionCounts,
    pub content_total: u64,
    pub combined_model: TransitionCounts,
    pub combined_total: u64,
    pub rustc_files: Vec<String>,
}

/// A file path names a compiler source: it mentions `rustc_`, ends in `.rs`
/// and is shorter than 200 bytes.
pub open spec fn rustc_source(path: Seq<char>) -> bool {
    &&& text::contains_sub(path, "rustc_"@)
    &&& text::has_suffix(path, ".rs"@)
    &&& (vstd::utf8::encode_utf8(path).len() as usize) < 200
}

/// Decides `rustc_source`.
pub fn is_rustc_source(path: &str) -> (r: bool)
    ensures
        r == rustc_source(path@),
{
    text::contains_str(path, "rustc_") && text::ends_with(path, ".rs") && path.len() < 200
}

/// Where the content of a listed file is read from.
pub open spec fn content_path_of(file_path: Seq<char>) -> Seq<char> {
    if text::has_prefix(file_path, "./"@) {
        "/mnt/data1/"@ + file_path.skip(2)
    } else {
        "/mnt/data1/"@ + file_path
    }
}

/// Builds `content_path_of`.
pub fn content_path(file_path: &str) -> (r: String)
    ensures
        r@ == content_path_of(file_path@),
{
    proof {
        reveal_strlit("./");
    }
    let mut r = String::from_str("/mnt/data1/");
    if text::starts_with(file_path, "./") {
        let chars = text::chars_of(file_path);
        let rest = text::string_of(vstd::slice::slice_subrange(chars.as_slice(), 2, chars.len()));
        assert(rest@ =~= file_path@.skip(2));
        r.append(rest.as_str());
    } else {
        r.append(file_path);
    }
    r
}

/// The totals after adding the pairs of `s` stay within `u64`.
pub open spec fn totals_fit(total: u64, s: Seq<char>) -> bool {
    total + window_count(s) <= u64::MAX
}

impl VennMarkovAnalyzer {
    /// The three models are well formed.
    pub open spec fn wf(&self) -> bool {
        &&& self.path_model.wf()
        &&& self.content_model.wf()
        &&& self.combined_model.wf()
    }

    /// Empty models and no files.
    pub fn new() -> (a: Self)
        ensures
            a.wf(),
            a.path_model@ == Map::<(char, char), u32>::empty(),
            a.content_model@ == Map::<(char, char), u32>::empty(),
            a.combined_model@ == Map::<(char, char), u32>::empty(),
            a.path_total == 0 && a.content_total == 0 && a.combined_total == 0,
            a.rustc_files@.len() == 0,
    {
        VennMarkovAnalyzer {
            path_model: TransitionCounts::new(),
            path_total: 0,
            content_model: TransitionCounts::new(),
            content_total: 0,
            combined_model: TransitionCounts::new(),
            combined_total: 0,
            rustc_files: Vec::new(),
        }
    }

    /// Keeps a listed file when it names a compiler source.
    pub fn consider_file(&mut self, path: String) -> (kept: bool)
        ensures
            kept == rustc_source(path@),
            final(self).rustc_files@ == if kept {
                old(self).rustc_files@.push(path)
            } else {
                old(self).rustc_files@
            },
            final(self).path_model == old(self).path_model,
            final(self).content_model == old(self).content_model,
            final(self).combined_model == old(self).combined_model,
            final(self).path_total == old(self).path_total,
            final(self).content_total == old(self).content_total,
            final(self).combined_total == old(self).combined_total,
    {
        if is_rustc_source(path.as_str()) {
            self.rustc_files.push(path);
            true
        } else {
            false
        }
    }

    /// How many of the kept files are trained on: the first 100.
    pub fn files_to_train(&self) -> (n: usize)
        ensures
            n == if self.rustc_files@.len() < 100 {
                self.rustc_files@.len()
            } else {
                100
            },
    {
        if self.rustc_files.len() < 100 {
            self.rustc_files.len()
        } else {
            100
        }
    }

    /// Trains the path model, and the combined one, on a file path.
    pub fn train_path(&mut self, path: &str)
        requires
            old(self).wf(),
            windows_fit(old(self).path_model@, path@),
            windows_fit(old(self).combined_model@, path@),
            totals_fit(old(self).path_total, path@),
            totals_fit(old(self).combined_total, path@),
        ensures
            final(self).wf(),
            final(self).path_model@ == add_windows(old(self).path_model@, path@),
            final(self).combined_model@ == add_windows(old(self).combined_model@, path@),
            final(self).path_total == old(self).path_total + window_count(path@),
            final(self).combined_total == old(self).combined_total + window_count(path@),
            final(self).content_model == old(self).content_model,
            final(self).content_total == old(self).content_total,
            final(self).rustc_files == old(self).rustc_files,
    {
        let chars = text::chars_of(path);
        add_pairs(&mut self.path_model, &chars);
        add_pairs(&mut self.combined_model, &chars);
        let n = pair_count(&chars);
        self.path_total = self.path_total + n;
        self.combined_total = self.combined_total + n;
    }

    /// Trains the content model, and the combined one, on a file's content
    /// when it is shorter than 50000 bytes; says whether it did.
    pub fn train_content(&mut self, content: &str) -> (trained: bool)
        requires
            old(self).wf(),
            windows_fit(old(self).content_model@, content@),
            windows_fit(old(self).combined_model@, content@),
            totals_fit(old(self).content_total, content@),
            totals_fit(old(self).combined_total, content@),
        ensures
            final(self).wf(),
            trained == ((vstd::utf8::encode_utf8(content@).len() as usize) < 50000),
            final(self).content_model@ == if trained {
                add_windows(old(self).content_model@, content@)
            } else {
                old(self).content_model@
            },
            final(self).combined_model@ == if trained {
                add_windows(old(self).combined_model@, content@)
            } else {
                old(self).combined_model@
            },
            final(self).content_total == old(self).content_total + if trained {
                window_count(content@)
            } else {
                0
            },
            final(self).combined_total == old(self).combined_total + if trained {
                window_count(content@)
            } else {
                0
            },
            final(self).path_model == old(self).path_model,
            final(self).path_total == old(self).path_total,
            final(self).rustc_files == old(self).rustc_files,
    {
        if content.len() >= 50000 {
            return false;
        }
        let chars = text::chars_of(content);
        add_pairs(&mut self.content_model, &chars);
        add_pairs(&mut self.combined_model, &chars);
        let n = pair_count(&chars);
        self.content_total = self.content_total + n;
        self.combined_total = self.combined_total + n;
        true
    }

    /// The overlap of the path and content models' transitions: path only,
    /// content only, both, either. The last is the sum of the first three;
    /// path only and both make up the path model, content only and both the
    /// content model.
    pub fn compute_venn_overlaps(&self) -> (r: (usize, usize, usize, usize))
        requires
            self.wf(),
            self.path_model@.dom().len() + self.content_model@.dom().len() <= usize::MAX,
        ensures
            ({
                let a = self.path_model@.dom();
                let b = self.content_model@.dom();
                &&& r.0 == a.difference(b).len()
                &&& r.1 == b.difference(a).len()
                &&& r.2 == a.intersect(b).len()
                &&& r.3 == a.union(b).len()
                &&& r.3 == r.0 + r.1 + r.2
                &&& r.0 + r.2 == a.len()
                &&& r.1 + r.2 == b.len()
            }),
    {
        let ghost a = self.path_model@.dom();
        let ghost b = self.content_model@.dom();
        let ghost not_in_b = |t: (char, char)| !b.contains(t);
        let ghost in_b = |t: (char, char)| b.contains(t);
        let ghost not_in_a = |t: (char, char)| !a.contains(t);
        proof {
            self.path_model.lemma_keys();
            self.content_model.lemma_keys();
        }
        let na = self.path_model.len();
        let nb = self.content_model.len();
        let mut a_only: usize = 0;
        let mut both: usize = 0;
        let mut i: usize = 0;
        while i < na
            invariant
                self.wf(),
                na == self.path_model@.dom().len(),
                na == self.path_model.transition_seq().len(),
                a == self.path_model@.dom(),
                b == self.content_model@.dom(),
                not_in_b == (|t: (char, char)| !b.contains(t)),
                in_b == (|t: (char, char)| b.contains(t)),
                i <= na,
                a_only == count_keys(self.path_model.transition_seq().take(i as int), not_in_b),
                both == count_keys(self.path_model.transition_seq().take(i as int), in_b),
                a_only + both == i,
            decreases na - i,
        {
            let ghost ts = self.path_model.transition_seq();
            assert(ts.take(i + 1).drop_last() =~= ts.take(i as int));
            let (x, y, _) = self.path_model.entry_at(i);
            assert(ts.take(i + 1).last() == (x, y));
            match self.content_model.count_of(x, y) {
                Some(_) => {
                    both = both + 1;
                },
                None => {
                    a_only = a_only + 1;
                },
            }
            i = i + 1;
        }
        let mut b_only: usize = 0;
        let mut j: usize = 0;
        while j < nb
            invariant
                self.wf(),
                nb == self.content_model@.dom().len(),
                nb == self.content_model.transition_seq().len(),
                a == self.path_model@.dom(),
                b == self.content_model@.dom(),
                not_in_a == (|t: (char, char)| !a.contains(t)),
                j <= nb,
                b_only == count_keys(self.content_model.transition_seq().take(j as int), not_in_a),
                b_only <= j,
            decreases nb - j,
        {
            let ghost ts = self.content_model.transition_seq();
            assert(ts.take(j + 1).drop_last() =~= ts.take(j as int));
            let (x, y, _) = self.content_model.entry_at(j);
            assert(ts.take(j + 1).last() == (x, y));
            match self.path_model.count_of(x, y) {
                Some(_) => {},
                None => {
                    b_only = b_only + 1;
                },
            }
            j = j + 1;
        }
        proof {
            let ta = self.path_model.transition_seq();
            let tb = self.content_model.transition_seq();
            assert(ta.take(na as int) =~= ta);
            assert(tb.take(nb as int) =~= tb);
            lemma_count_keys(ta, not_in_b);
            lemma_count_keys(ta, in_b);
            lemma_count_keys(tb, not_in_a);
            assert(ta.to_set().filter(not_in_b) =~= a.difference(b));
            assert(ta.to_set().filter(in_b) =~= a.intersect(b));
            assert(tb.to_set().filter(not_in_a) =~= b.difference(a));
            vstd::set_lib::lemma_set_difference_len(a, b);
            vstd::set_lib::lemma_set_difference_len(b, a);
            assert(b.intersect(a) =~= a.intersect(b));
            assert(a + b =~= a.union(b));
        }
        (a_only, b_only, both, a_only + b_only + both)
    }
}

/// Whether a sequence with one more element contains a value.
pub proof fn lemma_push_contains<A>(s: Seq<A>, x: A, y: A)
    ensures
        s.push(x).contains(y) == (s.contains(y) || x == y),
{
    if s.push(x).contains(y) {
        let i = choose|i: int| 0 <= i < s.push(x).len() && s.push(x)[i] == y;
        if i < s.len() {
            assert(s[i] == y);
        }
    }
    if s.contains(y) {
        let i = choose|i: int| 0 <= i < s.len() && s[i] == y;
        assert(s.push(x)[i] == y);
    }
    if x == y {
        assert(s.push(x)[s.len() as int] == y);
    }
}

/// The little-endian bytes of a `u32` (`u32::to_le_bytes`).
pub open spec fn le_bytes(x: u32) -> Seq<u8> {
    seq![(x % 256) as u8, ((x / 256) % 256) as u8, ((x / 65536) % 256) as u8, (x / 16777216) as u8]
}

/// The `u32` of four little-endian bytes (`u32::from_le_bytes`).
pub open spec fn le_value(b: Seq<u8>) -> u32 {
    (b[0] + 256 * b[1] + 65536 * b[2] + 16777216 * b[3]) as u32
}

/// Reading back the bytes of a number gives the number.
pub proof fn lemma_le_round_trip(x: u32)
    ensures
        le_bytes(x).len() == 4,
        le_value(le_bytes(x)) == x,
{
}

/// Appends the little-endian bytes of `x`.
fn push_le(out: &mut Vec<u8>, x: u32)
    ensures
        final(out)@ == old(out)@ + le_bytes(x),
{
    out.push((x % 256) as u8);
    out.push(((x / 256) % 256) as u8);
    out.push(((x / 65536) % 256) as u8);
    out.push((x / 16777216) as u8);
    assert(final(out)@ =~= old(out)@ + le_bytes(x));
}

/// Reads four little-endian bytes at `at`.
fn read_le(b: &Vec<u8>, at: usize) -> (x: u32)
    requires
        at + 4 <= b.len(),
    ensures
        x == le_value(b@.subrange(at as int, at + 4)),
{
    let b0: u64 = b[at] as u64;
    let b1: u64 = b[at + 1] as u64;
    let b2: u64 = b[at + 2] as u64;
    let b3: u64 = b[at + 3] as u64;
    let v: u64 = b0 + 256 * b1 + 65536 * b2 + 16777216 * b3;
    v as u32
}

/// The bytes of one stored transition: from, to and count.
pub open spec fn record_bytes(from: char, to: char, count: u32) -> Seq<u8> {
    le_bytes(from as u32) + le_bytes(to as u32) + le_bytes(count)
}

/// The first characters of the transitions, each once, in order of first
/// appearance.
pub open spec fn first_chars(ts: Seq<(char, char)>) -> Seq<char>
    decreases ts.len(),
{
    if ts.len() == 0 {
        Seq::empty()
    } else {
        let r = first_chars(ts.drop_last());
        if r.contains(ts.last().0) {
            r
        } else {
            r.push(ts.last().0)
        }
    }
}

/// The bytes of the stored transitions that start with `f`, in storage
/// order.
pub open spec fn records_from(ts: Seq<(char, char)>, m: Map<(char, char), u32>, f: char) -> Seq<u8>
    decreases ts.len(),
{
    if ts.len() == 0 {
        Seq::empty()
    } else {
        records_from(ts.drop_last(), m, f) + if ts.last().0 == f {
            record_bytes(ts.last().0, ts.last().1, m[ts.last()])
        } else {
            Seq::empty()
        }
    }
}

/// The records of each first character in turn.
pub open spec fn grouped_records(fs: Seq<char>, ts: Seq<(char, char)>, m: Map<(char, char), u32>) -> Seq<u8>
    decreases fs.len(),
{
    if fs.len() == 0 {
        Seq::empty()
    } else {
        grouped_records(fs.drop_last(), ts, m) + records_from(ts, m, fs.last())
    }
}

/// The stored form of a model: the number of distinct first characters,
/// then every transition with its count, those with the same first
/// character together.
pub open spec fn model_bytes(ts: Seq<(char, char)>, m: Map<(char, char), u32>) -> Seq<u8> {
    le_bytes(first_chars(ts).len() as u32) + grouped_records(first_chars(ts), ts, m)
}

/// `first_chars` never repeats a character and is no longer than the list.
proof fn lemma_first_chars(ts: Seq<(char, char)>)
    ensures
        first_chars(ts).len() <= ts.len(),
        first_chars(ts).no_duplicates(),
        forall|c: char| #[trigger] first_chars(ts).contains(c) <==> exists|i: int| 0 <= i < ts.len() && ts[i].0 == c,
    decreases ts.len(),
{
    if ts.len() > 0 {
        let init = ts.drop_last();
        lemma_first_chars(init);
        let r = first_chars(init);
        assert forall|c: char| #[trigger] first_chars(ts).contains(c) <==> exists|i: int| 0 <= i < ts.len() && ts[i].0 == c by {
            if first_chars(ts).contains(c) {
                if r.contains(c) {
                    let i = choose|i: int| 0 <= i < init.len() && init[i].0 == c;
                    assert(ts[i].0 == c);
                } else {
                    assert(c == ts.last().0);
                    assert(ts[ts.len() - 1].0 == c);
                }
            }
            if exists|i: int| 0 <= i < ts.len() && ts[i].0 == c {
                let i = choose|i: int| 0 <= i < ts.len() && ts[i].0 == c;
                if i < init.len() {
                    assert(init[i].0 == c);
                    assert(r.contains(c));
                    if !r.contains(ts.last().0) {
                        assert(r.push(ts.last().0)[r.len() as int] == ts.last().0);
                        assert(r.push(ts.last().0).contains(c)) by {
                            let k = choose|k: int| 0 <= k < r.len() && r[k] == c;
                            assert(r.push(ts.last().0)[k] == c);
                        }
                    }
                } else {
                    if !r.contains(ts.last().0) {
                        assert(r.push(ts.last().0)[r.len() as int] == c);
                    }
                }
            }
        }
    }
}

/// Encodes a model in its stored form.
pub fn encode_model(model: &TransitionCounts) -> (out: Vec<u8>)
    requires
        model.wf(),
    ensures
        out@ == model_bytes(model.transition_seq(), model@),
{
    proof {
        model.lemma_keys();
    }
    let ghost ts = model.transition_seq();
    let ghost m = model@;
    let n = model.len();
    let mut firsts: Vec<char> = Vec::new();
    let mut i: usize = 0;
    assert(ts.take(0) =~= Seq::<(char, char)>::empty());
    while i < n
        invariant
            model.wf(),
            ts == model.transition_seq(),
            n == ts.len(),
            n == model@.dom().len(),
            i <= n,
            firsts@ == first_chars(ts.take(i as int)),
        decreases n - i,
    {
        assert(ts.take(i + 1).drop_last() =~= ts.take(i as int));
        let (a, _, _) = model.entry_at(i);
        let mut seen = false;
        let mut k: usize = 0;
        while k < firsts.len()
            invariant
                k <= firsts@.len(),
                seen == firsts@.take(k as int).contains(a),
            decreases firsts@.len() - k,
        {
            assert(firsts@.take(k + 1) =~= firsts@.take(k as int).push(firsts@[k as int]));
            proof {
                lemma_push_contains(firsts@.take(k as int), firsts@[k as int], a);
            }
            if firsts[k] == a {
                seen = true;
            }
            k = k + 1;
        }
        assert(firsts@.take(firsts@.len() as int) =~= firsts@);
        if !seen {
            firsts.push(a);
        }
        i = i + 1;
    }
    assert(ts.take(n as int) =~= ts);
    proof {
        lemma_first_chars(ts);
    }
    let nf = firsts.len();
    let mut out: Vec<u8> = Vec::new();
    push_le(&mut out, nf as u32);
    let ghost header = le_bytes(nf as u32);
    let ghost fs = firsts@;
    let mut g: usize = 0;
    assert(fs.take(0) =~= Seq::<char>::empty());
    while g < nf
        invariant
            model.wf(),
            ts == model.transition_seq(),
            m == model@,
            n == ts.len(),
            n == model@.dom().len(),
            fs == firsts@,
            nf == fs.len(),
            g <= nf,
            forall|j: int| 0 <= j < ts.len() ==> #[trigger] m[ts[j]] == model.count_seq()[j],
            out@ == header + grouped_records(fs.take(g as int), ts, m),
        decreases nf - g,
    {
        let f = firsts[g];
        assert(fs.take(g + 1).drop_last() =~= fs.take(g as int));
        let ghost before = out@;
        let mut j: usize = 0;
        assert(ts.take(0) =~= Seq::<(char, char)>::empty());
        while j < n
            invariant
                model.wf(),
                ts == model.transition_seq(),
                m == model@,
                n == ts.len(),
                n == model@.dom().len(),
                j <= n,
                forall|q: int| 0 <= q < ts.len() ==> #[trigger] m[ts[q]] == model.count_seq()[q],
                out@ == before + records_from(ts.take(j as int), m, f),
            decreases n - j,
        {
            assert(ts.take(j + 1).drop_last() =~= ts.take(j as int));
            let (a, b, c) = model.entry_at(j);
            assert(ts.take(j + 1).last() == (a, b));
            if a == f {
                push_le(&mut out, a as u32);
                push_le(&mut out, b as u32);
                push_le(&mut out, c);
                assert(out@ =~= before + records_from(ts.take(j + 1), m, f));
            } else {
                assert(out@ =~= before + records_from(ts.take(j + 1), m, f));
            }
            j = j + 1;
        }
        assert(ts.take(n as int) =~= ts);
        assert(out@ =~= header + grouped_records(fs.take(g + 1), ts, m));
        g = g + 1;
    }
    assert(fs.take(nf as int) =~= fs);
    out
}

/// Whether `u` is the code point of a character: at most `0x10FFFF` and
/// not a surrogate.
pub open spec fn is_scalar(u: u32) -> bool {
    u <= 0x10FFFF && !(0xD800 <= u <= 0xDFFF)
}

/// `char::from_u32`: the character with code point `u`, if `u` is a Unicode
/// scalar value, as its documentation states.
#[verifier::external_body]
fn char_from_u32(u: u32) -> (r: Option<char>)
    ensures
        r == (if is_scalar(u) { Some(u as char) } else { None::<char> }),
{
    char::from_u32(u)
}

/// The character a stored code point stands for, NUL where it is none.
pub open spec fn scalar_or_nul(u: u32) -> char {
    if is_scalar(u) { u as char } else { '\0' }
}

/// The number in the header of a stored model.
pub open spec fn header_count(data: Seq<u8>) -> u32 {
    le_value(data.subrange(0, 4))
}

/// The three numbers of the `j`-th stored record: from, to and count.
pub open spec fn record_at(data: Seq<u8>, j: int) -> (u32, u32, u32) {
    let o = 4 + 12 * j;
    (
        le_value(data.subrange(o, o + 4)),
        le_value(data.subrange(o + 4, o + 8)),
        le_value(data.subrange(o + 8, o + 12)),
    )
}

/// How many records are read: as many as the header announces, but only
/// complete ones.
pub open spec fn records_read(data: Seq<u8>, limit: nat) -> nat {
    if data.len() < 4 {
        0
    } else {
        let n = if header_count(data) < limit { header_count(data) as nat } else { limit };
        let whole = ((data.len() - 4) / 12) as nat;
        if n < whole { n } else { whole }
    }
}

/// The model after the first `k` records, a later record for the same
/// transition replacing an earlier one.
pub open spec fn loaded(data: Seq<u8>, k: nat) -> Map<(char, char), u32>
    decreases k,
{
    if k == 0 {
        Map::empty()
    } else {
        let r = record_at(data, k - 1);
        loaded(data, (k - 1) as nat).insert((scalar_or_nul(r.0), scalar_or_nul(r.1)), r.2)
    }
}

/// Decodes a stored model; code points that are no character read as NUL.
pub fn load_model(data: &Vec<u8>) -> (m: TransitionCounts)
    ensures
        m.wf(),
        m@ == loaded(data@, records_read(data@, 0x1_0000_0000)),
{
    let mut model = TransitionCounts::new();
    if data.len() < 4 {
        return model;
    }
    let total = read_le(data, 0);
    assert(data@.subrange(0, 4) =~= data@.subrange(0, 4));
    let ghost k = records_read(data@, 0x1_0000_0000);
    let mut i: u32 = 0;
    let mut offset: usize = 4;
    while i < total
        invariant
            model.wf(),
            4 <= data.len(),
            total == header_count(data@),
            k == records_read(data@, 0x1_0000_0000),
            i <= total,
            offset == 4 + 12 * i,
            i <= k,
            model@ == loaded(data@, i as nat),
        ensures
            model.wf(),
            model@ == loaded(data@, k),
        decreases total - i,
    {
        if offset > data.len() || data.len() - offset < 12 {
            proof {
                let len = data@.len() as int;
                assert(12 * (i + 1) > len - 4);
                assert((len - 4) / 12 <= i) by (nonlinear_arith)
                    requires
                        12 * (i + 1) > len - 4,
                        len >= 4,
                ;
            }
            break;
        }
        proof {
            let len = data@.len() as int;
            assert(i + 1 <= (len - 4) / 12) by (nonlinear_arith)
                requires
                    12 * (i + 1) <= len - 4,
            ;
        }
        let from = read_le(data, offset);
        let to = read_le(data, offset + 4);
        let count = read_le(data, offset + 8);
        let fc = match char_from_u32(from) {
            Some(c) => c,
            None => '\0',
        };
        let tc = match char_from_u32(to) {
            Some(c) => c,
            None => '\0',
        };
        model.put(fc, tc, count);
        i = i + 1;
        offset = offset + 12;
    }
    model
}

/// A stored code point as an ASCII character, `?` for anything above 127.
pub open spec fn ascii_or_mark(u: u32) -> char {
    if u <= 127 { u as char } else { '?' }
}

/// The first `k` stored records, read as ASCII.
pub open spec fn sampled(data: Seq<u8>, k: nat) -> Seq<(char, char, u32)> {
    Seq::new(
        k,
        |j: int| (ascii_or_mark(record_at(data, j).0), ascii_or_mark(record_at(data, j).1), record_at(data, j).2),
    )
}

/// `i` holds the highest count of `s`, and no earlier item has it.
pub open spec fn is_first_max(s: Seq<(char, char, u32)>, i: int) -> bool {
    &&& 0 <= i < s.len()
    &&& forall|j: int| 0 <= j < s.len() ==> s[j].2 <= #[trigger] s[i].2
    &&& forall|j: int| 0 <= j < i ==> #[trigger] s[j].2 < s[i].2
}

/// The first `k` items of `s` sorted by count, highest first, items with
/// equal counts keeping their order (a stable sort, then a truncation).
pub open spec fn top_by_count(s: Seq<(char, char, u32)>, k: nat) -> Seq<(char, char, u32)>
    decreases k,
{
    if k == 0 || s.len() == 0 {
        Seq::empty()
    } else {
        let i = choose|i: int| is_first_max(s, i);
        seq![s[i]] + top_by_count(s.remove(i), (k - 1) as nat)
    }
}

/// Only one position is the first to hold the highest count.
proof fn lemma_first_max_unique(s: Seq<(char, char, u32)>, i: int, j: int)
    requires
        is_first_max(s, i),
        is_first_max(s, j),
    ensures
        i == j,
{
    if i < j {
        assert(s[i].2 < s[j].2);
        assert(s[i].2 <= s[j].2);
        assert(s[j].2 <= s[i].2);
    } else if j < i {
        assert(s[j].2 < s[i].2);
        assert(s[i].2 <= s[j].2);
    }
}

/// The `k` items with the highest counts, as `top_by_count` orders them.
pub fn top_transitions(items: Vec<(char, char, u32)>, k: usize) -> (r: Vec<(char, char, u32)>)
    ensures
        r@ == top_by_count(items@, k as nat),
{
    let ghost all = items@;
    let mut rest = items;
    let mut out: Vec<(char, char, u32)> = Vec::new();
    let mut left = k;
    while left > 0 && rest.len() > 0
        invariant
            out@ + top_by_count(rest@, left as nat) == top_by_count(all, k as nat),
        decreases left,
    {
        let mut b: usize = 0;
        let mut j: usize = 1;
        while j < rest.len()
            invariant
                rest@.len() > 0,
                b < j <= rest@.len(),
                forall|q: int| 0 <= q < j ==> rest@[q].2 <= #[trigger] rest@[b as int].2,
                forall|q: int| 0 <= q < b ==> #[trigger] rest@[q].2 < rest@[b as int].2,
            decreases rest@.len() - j,
        {
            if rest[j].2 > rest[b].2 {
                b = j;
            }
            j = j + 1;
        }
        let ghost before = rest@;
        proof {
            assert(is_first_max(before, b as int));
            let c = choose|i: int| is_first_max(before, i);
            lemma_first_max_unique(before, b as int, c);
            assert(top_by_count(before, left as nat) == seq![before[b as int]] + top_by_count(
                before.remove(b as int),
                (left - 1) as nat,
            ));
        }
        let item = rest.remove(b);
        out.push(item);
        left = left - 1;
        proof {
            assert(out@ + top_by_count(rest@, left as nat) =~= (out@.drop_last() + seq![item]) + top_by_count(
                rest@,
                left as nat,
            ));
        }
    }
    assert(top_by_count(rest@, left as nat) =~= Seq::<(char, char, u32)>::empty());
    assert(out@ + Seq::<(char, char, u32)>::empty() =~= out@);
    out
}

/// Reads up to 1000 stored records, each code point above 127 shown as `?`,
/// and keeps the three with the highest counts. A model too short for its
/// header cannot be read.
pub fn extract_top_transitions(data: &Vec<u8>) -> (r: Result<Vec<(char, char, u32)>, String>)
    ensures
        data@.len() < 4 ==> r is Err && r->Err_0@ == "Cannot read count"@,
        data@.len() >= 4 ==> r is Ok && r->Ok_0@ == top_by_count(sampled(data@, records_read(data@, 1000)), 3),
{
    if data.len() < 4 {
        return Err(String::from_str("Cannot read count"));
    }
    let total = read_le(data, 0);
    let limit: u32 = if total < 1000 { total } else { 1000 };
    let ghost k = records_read(data@, 1000);
    let mut items: Vec<(char, char, u32)> = Vec::new();
    let mut i: u32 = 0;
    let mut offset: usize = 4;
    while i < limit
        invariant
            4 <= data.len(),
            total == header_count(data@),
            limit == (if total < 1000 { total } else { 1000 }),
            k == records_read(data@, 1000),
            i <= limit,
            offset == 4 + 12 * i,
            i <= k,
            items@ == sampled(data@, i as nat),
        ensures
            items@ == sampled(data@, k),
        decreases limit - i,
    {
        if offset > data.len() || data.len() - offset < 12 {
            proof {
                let len = data@.len() as int;
                assert((len - 4) / 12 <= i) by (nonlinear_arith)
                    requires
                        12 * (i + 1) > len - 4,
                        len >= 4,
                ;
            }
            break;
        }
        proof {
            let len = data@.len() as int;
            assert(i + 1 <= (len - 4) / 12) by (nonlinear_arith)
                requires
                    12 * (i + 1) <= len - 4,
            ;
        }
        let from = read_le(data, offset);
        let to = read_le(data, offset + 4);
        let count = read_le(data, offset + 8);
        let fc = if from <= 127 { (from as u8) as char } else { '?' };
        let tc = if to <= 127 { (to as u8) as char } else { '?' };
        items.push((fc, tc, count));
        assert(items@ =~= sampled(data@, (i + 1) as nat));
        i = i + 1;
        offset = offset + 12;
    }
    Ok(top_transitions(items, 3))
}

/// One sampled model: its file name and its top transitions.
pub struct ModelSample {
    pub filename: String,
    pub top_transitions: Vec<(char, char, u32)>,
}

/// The sampled models, in the order they were added.
pub struct TransitionMatrix {
    models: Vec<ModelSample>,
}

/// A character between single quotes.
pub open spec fn quoted(c: char) -> Seq<char> {
    seq!['\'', c, '\'']
}

/// The header row of the matrix.
pub open spec fn header_row() -> Seq<Seq<char>> {
    seq![
        "Model"@,
        "Top1_From"@,
        "Top1_To"@,
        "Top1_Count"@,
        "Top2_From"@,
        "Top2_To"@,
        "Top2_Count"@,
        "Top3_From"@,
        "Top3_To"@,
        "Top3_Count"@,
    ]
}

/// The three cells of the `i`-th top transition, or placeholders where the
/// model has fewer.
pub open spec fn transition_cells(t: Seq<(char, char, u32)>, i: int) -> Seq<Seq<char>> {
    if i < t.len() {
        seq![quoted(t[i].0), quoted(t[i].1), text::decimal(t[i].2 as nat)]
    } else {
        seq!["-"@, "-"@, "0"@]
    }
}

/// The row of one model.
pub open spec fn model_row(name: Seq<char>, t: Seq<(char, char, u32)>) -> Seq<Seq<char>> {
    seq![name] + transition_cells(t, 0) + transition_cells(t, 1) + transition_cells(t, 2)
}

/// The characters of each cell of each row.
pub open spec fn rows_view(m: Seq<Vec<String>>) -> Seq<Seq<Seq<char>>> {
    m.map_values(|r: Vec<String>| text::string_views(r@))
}

/// The rows joined by commas, each ended by a newline.
pub open spec fn csv_of(rows: Seq<Seq<Seq<char>>>) -> Seq<char>
    decreases rows.len(),
{
    if rows.len() == 0 {
        Seq::empty()
    } else {
        csv_of(rows.drop_last()) + text::join(rows.last(), ","@) + seq!['\n']
    }
}

/// A character between single quotes.
fn quoted_char(c: char) -> (r: String)
    ensures
        r@ == quoted(c),
{
    let mut s = String::new();
    text::push_char(&mut s, '\'');
    text::push_char(&mut s, c);
    text::push_char(&mut s, '\'');
    assert(s@ =~= quoted(c));
    s
}

/// Appends the cells of the `i`-th top transition.
fn push_transition_cells(row: &mut Vec<String>, t: &Vec<(char, char, u32)>, i: usize)
    ensures
        text::string_views(final(row)@) == text::string_views(old(row)@) + transition_cells(t@, i as int),
{
    let ghost before = text::string_views(row@);
    if i < t.len() {
        let (from, to, count) = t[i];
        row.push(quoted_char(from));
        row.push(quoted_char(to));
        row.push(text::decimal_string(count as u64));
    } else {
        row.push(String::from_str("-"));
        row.push(String::from_str("-"));
        row.push(String::from_str("0"));
    }
    assert(text::string_views(row@) =~= before + transition_cells(t@, i as int));
}

impl TransitionMatrix {
    /// The name and top transitions of each model.
    pub closed spec fn samples(&self) -> Seq<(Seq<char>, Seq<(char, char, u32)>)> {
        self.models@.map_values(|m: ModelSample| (m.filename@, m.top_transitions@))
    }

    /// No models yet.
    pub fn new() -> (m: Self)
        ensures
            m.samples() == Seq::<(Seq<char>, Seq<(char, char, u32)>)>::empty(),
    {
        let m = TransitionMatrix { models: Vec::new() };
        assert(m.samples() =~= Seq::<(Seq<char>, Seq<(char, char, u32)>)>::empty());
        m
    }

    /// Adds a sampled model at the end.
    pub fn add_model(&mut self, filename: String, top_transitions: Vec<(char, char, u32)>)
        ensures
            final(self).samples() == old(self).samples().push((filename@, top_transitions@)),
    {
        let ghost before = self.samples();
        self.models.push(ModelSample { filename, top_transitions });
        assert(self.samples() =~= before.push((filename@, top_transitions@)));
    }

    /// Number of models.
    pub fn model_count(&self) -> (n: usize)
        ensures
            n == self.samples().len(),
    {
        self.models.len()
    }

    /// The header row, then one row per model: its name and, for each of
    /// its three top transitions, the quoted characters and the count.
    pub fn create_transition_matrix(&self) -> (m: Vec<Vec<String>>)
        ensures
            rows_view(m@) == seq![header_row()] + self.samples().map_values(
                |p: (Seq<char>, Seq<(char, char, u32)>)| model_row(p.0, p.1),
            ),
    {
        let ghost want = self.samples().map_values(
            |p: (Seq<char>, Seq<(char, char, u32)>)| model_row(p.0, p.1),
        );
        let mut header: Vec<String> = Vec::new();
        header.push(String::from_str("Model"));
        header.push(String::from_str("Top1_From"));
        header.push(String::from_str("Top1_To"));
        header.push(String::from_str("Top1_Count"));
        header.push(String::from_str("Top2_From"));
        header.push(String::from_str("Top2_To"));
        header.push(String::from_str("Top2_Count"));
        header.push(String::from_str("Top3_From"));
        header.push(String::from_str("Top3_To"));
        header.push(String::from_str("Top3_Count"));
        assert(text::string_views(header@) =~= header_row());
        let mut matrix: Vec<Vec<String>> = Vec::new();
        matrix.push(header);
        let mut i: usize = 0;
        while i < self.models.len()
            invariant
                i <= self.models@.len(),
                want == self.samples().map_values(
                    |p: (Seq<char>, Seq<(char, char, u32)>)| model_row(p.0, p.1),
                ),
                rows_view(matrix@) == seq![header_row()] + want.take(i as int),
            decreases self.models@.len() - i,
        {
            let model = &self.models[i];
            let mut row: Vec<String> = Vec::new();
            row.push(model.filename.clone());
            assert(text::string_views(row@) =~= seq![model.filename@]);
            push_transition_cells(&mut row, &model.top_transitions, 0);
            push_transition_cells(&mut row, &model.top_transitions, 1);
            push_transition_cells(&mut row, &model.top_transitions, 2);
            let ghost rv = text::string_views(row@);
            let ghost old_m = matrix@;
            matrix.push(row);
            proof {
                assert(rv == want[i as int]);
                assert(rows_view(matrix@) =~= rows_view(old_m).push(rv));
                assert(want.take(i + 1) =~= want.take(i as int).push(want[i as int]));
                assert(rows_view(matrix@) =~= seq![header_row()] + want.take(i + 1));
            }
            i = i + 1;
        }
        assert(want.take(self.models@.len() as int) =~= want);
        matrix
    }
}

/// The rows as comma-separated lines.
pub fn matrix_csv(matrix: &Vec<Vec<String>>) -> (r: String)
    ensures
        r@ == csv_of(rows_view(matrix@)),
{
    let ghost rows = rows_view(matrix@);
    let mut out = String::new();
    let mut i: usize = 0;
    assert(rows.take(0) =~= Seq::<Seq<Seq<char>>>::empty());
    while i < matrix.len()
        invariant
            i <= matrix@.len(),
            rows == rows_view(matrix@),
            out@ == csv_of(rows.take(i as int)),
        decreases matrix@.len() - i,
    {
        let line = text::join_strings(&matrix[i], ",");
        out.append(line.as_str());
        text::push_char(&mut out, '\n');
        assert(rows.take(i + 1).drop_last() =~= rows.take(i as int));
        i = i + 1;
    }
    assert(rows.take(matrix@.len() as int) =~= rows);
    out
}

/// Three characters `a b c` such that both `a b` and `b c` are transitions of
/// the model.
pub open spec fn chains(m: Map<(char, char), u32>) -> Set<(char, char, char)> {
    Set::new(|t: (char, char, char)| m.contains_key((t.0, t.1)) && m.contains_key((t.1, t.2)))
}

/// The order of three-character strings: by the first character's code
/// point, then the second's, then the third's.
pub open spec fn triple_lt(x: (char, char, char), y: (char, char, char)) -> bool {
    ||| (x.0 as u32) < (y.0 as u32)
    ||| (x.0 == y.0 && (x.1 as u32) < (y.1 as u32))
    ||| (x.0 == y.0 && x.1 == y.1 && (x.2 as u32) < (y.2 as u32))
}

/// Each item comes before every later one.
pub open spec fn strictly_sorted(v: Seq<(char, char, char)>) -> bool {
    forall|i: int, j: int| 0 <= i < j < v.len() ==> triple_lt(#[trigger] v[i], #[trigger] v[j])
}

/// The string of three characters.
pub open spec fn pattern_text(t: (char, char, char)) -> Seq<char> {
    seq![t.0, t.1, t.2]
}

/// `v` lists the patterns of `s`, each once, in sorted order.
pub open spec fn lists_patterns(v: Seq<Seq<char>>, s: Set<(char, char, char)>) -> bool {
    &&& forall|i: int| 0 <= i < v.len() ==> (#[trigger] v[i]).len() == 3 && s.contains((v[i][0], v[i][1], v[i][2]))
    &&& forall|t: (char, char, char)| #[trigger] s.contains(t) ==> v.contains(pattern_text(t))
    &&& forall|i: int, j: int|
        0 <= i < j < v.len() ==> triple_lt((v[i][0], v[i][1], v[i][2]), (v[j][0], v[j][1], v[j][2]))
}

/// Characters with the same code point are the same.
proof fn lemma_char_code(a: char, b: char)
    ensures
        (a as u32) == (b as u32) ==> a == b,
{
}

/// Decides `triple_lt`.
fn lt_triple(x: (char, char, char), y: (char, char, char)) -> (r: bool)
    ensures
        r == triple_lt(x, y),
{
    let (x0, x1, x2) = x;
    let (y0, y1, y2) = y;
    (x0 as u32) < (y0 as u32) || (x0 == y0 && (x1 as u32) < (y1 as u32)) || (x0 == y0 && x1 == y1 && (x2
        as u32) < (y2 as u32))
}

/// Adds `t` to a sorted list unless it is there already.
fn insert_sorted(v: &mut Vec<(char, char, char)>, t: (char, char, char))
    requires
        strictly_sorted(old(v)@),
    ensures
        strictly_sorted(final(v)@),
        forall|x: (char, char, char)| #[trigger] final(v)@.contains(x) == (old(v)@.contains(x) || x == t),
{
    let ghost before = v@;
    let mut i: usize = 0;
    while i < v.len()
        invariant
            v@ == before,
            i <= v@.len(),
            forall|k: int| 0 <= k < i ==> triple_lt(#[trigger] v@[k], t),
        ensures
            v@ == before,
            i <= v@.len(),
            forall|k: int| 0 <= k < i ==> triple_lt(#[trigger] v@[k], t),
            i < v@.len() ==> !triple_lt(v@[i as int], t),
        decreases v@.len() - i,
    {
        if !lt_triple(v[i], t) {
            break;
        }
        i = i + 1;
    }
    if i < v.len() && v[i].0 == t.0 && v[i].1 == t.1 && v[i].2 == t.2 {
        assert(v@[i as int] == t);
        assert forall|x: (char, char, char)| #[trigger] v@.contains(x) == (before.contains(x) || x == t) by {
            if x == t {
                assert(v@[i as int] == x);
            }
        }
        return;
    }
    proof {
        if i < v@.len() {
            let x = v@[i as int];
            lemma_char_code(x.0, t.0);
            lemma_char_code(x.1, t.1);
            lemma_char_code(x.2, t.2);
            assert(triple_lt(t, v@[i as int]));
        }
    }
    v.insert(i, t);
    proof {
        assert forall|a: int, b: int| 0 <= a < b < v@.len() implies triple_lt(#[trigger] v@[a], #[trigger] v@[b]) by {
            if b < i {
                assert(v@[a] == before[a] && v@[b] == before[b]);
            } else if b == i {
                assert(v@[a] == before[a]);
            } else if a < i {
                assert(v@[a] == before[a] && v@[b] == before[b - 1]);
                assert(triple_lt(t, before[i as int]));
                if b - 1 > i {
                    assert(triple_lt(before[i as int], before[b - 1]));
                }
            } else if a == i {
                assert(v@[b] == before[b - 1]);
                if b - 1 > i {
                    assert(triple_lt(before[i as int], before[b - 1]));
                }
            } else {
                assert(v@[a] == before[a - 1] && v@[b] == before[b - 1]);
            }
        }
        assert forall|x: (char, char, char)| #[trigger] v@.contains(x) == (before.contains(x) || x == t) by {
            if v@.contains(x) {
                let k = choose|k: int| 0 <= k < v@.len() && v@[k] == x;
                if k < i {
                    assert(before[k] == x);
                } else if k > i {
                    assert(before[k - 1] == x);
                }
            }
            if before.contains(x) {
                let k = choose|k: int| 0 <= k < before.len() && before[k] == x;
                if k < i {
                    assert(v@[k] == x);
                } else {
                    assert(v@[k + 1] == x);
                }
            }
            if x == t {
                assert(v@[i as int] == x);
            }
        }
    }
}

/// The chains found so far: all those whose first transition is among the
/// first `i` stored ones, and those whose first transition is the `i`-th
/// and whose second is among the first `j`.
pub open spec fn chains_so_far(ts: Seq<(char, char)>, m: Map<(char, char), u32>, i: int, j: int, t: (
    char,
    char,
    char,
)) -> bool {
    ||| (ts.take(i).contains((t.0, t.1)) && m.contains_key((t.1, t.2)))
    ||| (0 <= i < ts.len() && ts[i] == (t.0, t.1) && ts.take(j).contains((t.1, t.2)))
}

/// The chains of `m`, split by whether they are chains of `other` too; each
/// part sorted, without repeats.
fn split_chains(m: &TransitionCounts, other: &TransitionCounts) -> (r: (
    Vec<(char, char, char)>,
    Vec<(char, char, char)>,
))
    requires
        m.wf(),
        other.wf(),
    ensures
        strictly_sorted(r.0@),
        strictly_sorted(r.1@),
        forall|t: (char, char, char)| #[trigger] r.0@.contains(t) == (chains(m@).contains(t) && chains(other@).contains(t)),
        forall|t: (char, char, char)| #[trigger] r.1@.contains(t) == (chains(m@).contains(t) && !chains(other@).contains(t)),
{
    proof {
        m.lemma_keys();
    }
    let ghost ts = m.transition_seq();
    let ghost co = chains(other@);
    let n = m.len();
    let mut both: Vec<(char, char, char)> = Vec::new();
    let mut only: Vec<(char, char, char)> = Vec::new();
    let mut i: usize = 0;
    while i < n
        invariant
            m.wf(),
            other.wf(),
            ts == m.transition_seq(),
            co == chains(other@),
            n == ts.len(),
            n == m@.dom().len(),
            ts.to_set() == m@.dom(),
            i <= n,
            strictly_sorted(both@),
            strictly_sorted(only@),
            forall|t: (char, char, char)| #[trigger] both@.contains(t) == (chains_so_far(ts, m@, i as int, 0, t) && co.contains(t)),
            forall|t: (char, char, char)| #[trigger] only@.contains(t) == (chains_so_far(ts, m@, i as int, 0, t) && !co.contains(t)),
        decreases n - i,
    {
        let (a, b, _) = m.entry_at(i);
        let ab_other = other.count_of(a, b).is_some();
        let mut j: usize = 0;
        proof {
            assert forall|t: (char, char, char)| chains_so_far(ts, m@, i as int, 0, t) == chains_so_far(ts, m@, i as int, 0, t) by {}
        }
        while j < n
            invariant
                m.wf(),
                other.wf(),
                ts == m.transition_seq(),
                co == chains(other@),
                n == ts.len(),
                n == m@.dom().len(),
                ts.to_set() == m@.dom(),
                i < n,
                j <= n,
                ts[i as int] == (a, b),
                ab_other == other@.contains_key((a, b)),
                strictly_sorted(both@),
                strictly_sorted(only@),
                forall|t: (char, char, char)| #[trigger] both@.contains(t) == (chains_so_far(ts, m@, i as int, j as int, t) && co.contains(t)),
                forall|t: (char, char, char)| #[trigger] only@.contains(t) == (chains_so_far(ts, m@, i as int, j as int, t) && !co.contains(t)),
            decreases n - j,
        {
            let (b2, c, _) = m.entry_at(j);
            let ghost nb = both@;
            let ghost no = only@;
            proof {
                assert(ts.take(j + 1) =~= ts.take(j as int).push(ts[j as int]));
                assert forall|x: (char, char)| #[trigger] ts.take(j + 1).contains(x) == (ts.take(j as int).contains(x) || x == (b2, c)) by {
                    lemma_push_contains(ts.take(j as int), ts[j as int], x);
                }
            }
            if b2 == b {
                let t = (a, b, c);
                let in_other = ab_other && other.count_of(b, c).is_some();
                assert(in_other == co.contains(t));
                if in_other {
                    insert_sorted(&mut both, t);
                } else {
                    insert_sorted(&mut only, t);
                }
                proof {
                    assert forall|x: (char, char, char)| #[trigger] both@.contains(x) == (chains_so_far(ts, m@, i as int, j + 1, x) && co.contains(x)) by {
                        assert(ts.take(j + 1).contains((x.1, x.2)) == (ts.take(j as int).contains((x.1, x.2)) || (x.1, x.2) == (b2, c)));
                        assert(nb.contains(x) == (chains_so_far(ts, m@, i as int, j as int, x) && co.contains(x)));
                    }
                    assert forall|x: (char, char, char)| #[trigger] only@.contains(x) == (chains_so_far(ts, m@, i as int, j + 1, x) && !co.contains(x)) by {
                        assert(ts.take(j + 1).contains((x.1, x.2)) == (ts.take(j as int).contains((x.1, x.2)) || (x.1, x.2) == (b2, c)));
                        assert(no.contains(x) == (chains_so_far(ts, m@, i as int, j as int, x) && !co.contains(x)));
                    }
                }
            } else {
                proof {
                    assert forall|x: (char, char, char)| #[trigger] both@.contains(x) == (chains_so_far(ts, m@, i as int, j + 1, x) && co.contains(x)) by {
                        assert(ts.take(j + 1).contains((x.1, x.2)) == (ts.take(j as int).contains((x.1, x.2)) || (x.1, x.2) == (b2, c)));
                        assert(nb.contains(x) == (chains_so_far(ts, m@, i as int, j as int, x) && co.contains(x)));
                    }
                    assert forall|x: (char, char, char)| #[trigger] only@.contains(x) == (chains_so_far(ts, m@, i as int, j + 1, x) && !co.contains(x)) by {
                        assert(ts.take(j + 1).contains((x.1, x.2)) == (ts.take(j as int).contains((x.1, x.2)) || (x.1, x.2) == (b2, c)));
                        assert(no.contains(x) == (chains_so_far(ts, m@, i as int, j as int, x) && !co.contains(x)));
                    }
                }
            }
            j = j + 1;
        }
        proof {
            assert(ts.take(n as int) =~= ts);
            assert(ts.take(i + 1) =~= ts.take(i as int).push(ts[i as int]));
            assert(ts.take(0) =~= Seq::<(char, char)>::empty());
            assert forall|x: (char, char, char)| chains_so_far(ts, m@, i + 1, 0, x) == chains_so_far(ts, m@, i as int, n as int, x) by {
                lemma_push_contains(ts.take(i as int), ts[i as int], (x.0, x.1));
                assert(ts.contains((x.1, x.2)) == ts.to_set().contains((x.1, x.2)));
            }
        }
        i = i + 1;
    }
    proof {
        assert(ts.take(n as int) =~= ts);
        assert forall|x: (char, char, char)| chains_so_far(ts, m@, n as int, 0, x) == chains(m@).contains(x) by {
            assert(ts.contains((x.0, x.1)) == ts.to_set().contains((x.0, x.1)));
        }
    }
    (both, only)
}

/// The three-character strings of a sorted list.
fn pattern_strings(v: &Vec<(char, char, char)>) -> (r: Vec<String>)
    ensures
        text::string_views(r@) == v@.map_values(|t: (char, char, char)| pattern_text(t)),
{
    let mut r: Vec<String> = Vec::new();
    let mut i: usize = 0;
    while i < v.len()
        invariant
            i <= v@.len(),
            text::string_views(r@) == v@.take(i as int).map_values(|t: (char, char, char)| pattern_text(t)),
        decreases v@.len() - i,
    {
        let (a, b, c) = v[i];
        let mut s = String::new();
        text::push_char(&mut s, a);
        text::push_char(&mut s, b);
        text::push_char(&mut s, c);
        assert(s@ =~= pattern_text(v@[i as int]));
        let ghost before = r@;
        r.push(s);
        assert(text::string_views(r@) =~= text::string_views(before).push(pattern_text(v@[i as int])));
        assert(v@.take(i + 1) =~= v@.take(i as int).push(v@[i as int]));
        assert(text::string_views(r@) =~= v@.take(i + 1).map_values(|t: (char, char, char)| pattern_text(t)));
        i = i + 1;
    }
    assert(v@.take(v@.len() as int) =~= v@);
    r
}

/// A sorted list of triples, as strings, lists the patterns of its set.
proof fn lemma_lists_patterns(v: Seq<(char, char, char)>, s: Set<(char, char, char)>)
    requires
        strictly_sorted(v),
        forall|t: (char, char, char)| #[trigger] v.contains(t) == s.contains(t),
    ensures
        lists_patterns(v.map_values(|t: (char, char, char)| pattern_text(t)), s),
{
    let w = v.map_values(|t: (char, char, char)| pattern_text(t));
    assert forall|i: int| 0 <= i < w.len() implies (#[trigger] w[i]).len() == 3 && s.contains((w[i][0], w[i][1], w[i][2])) by {
        assert(w[i] == pattern_text(v[i]));
        assert((w[i][0], w[i][1], w[i][2]) == v[i]);
        assert(v.contains(v[i]));
    }
    assert forall|t: (char, char, char)| #[trigger] s.contains(t) implies w.contains(pattern_text(t)) by {
        assert(v.contains(t));
        let k = choose|k: int| 0 <= k < v.len() && v[k] == t;
        assert(w[k] == pattern_text(t));
    }
    assert forall|i: int, j: int| 0 <= i < j < w.len() implies triple_lt((w[i][0], w[i][1], w[i][2]), (w[j][0], w[j][1], w[j][2])) by {
        assert(w[i] == pattern_text(v[i]));
        assert(w[j] == pattern_text(v[j]));
        assert((w[i][0], w[i][1], w[i][2]) == v[i]);
        assert((w[j][0], w[j][1], w[j][2]) == v[j]);
    }
}

impl VennMarkovAnalyzer {
    /// The three-character patterns `a b c` whose transitions `a b` and `b c`
    /// both occur: those of the path model only, those of the content model
    /// only, and those of both; each list sorted, without repeats.
    pub fn find_model_specific_patterns(&self) -> (r: (Vec<String>, Vec<String>, Vec<String>))
        requires
            self.wf(),
        ensures
            lists_patterns(text::string_views(r.0@), chains(self.path_model@).difference(chains(self.content_model@))),
            lists_patterns(text::string_views(r.1@), chains(self.content_model@).difference(chains(self.path_model@))),
            lists_patterns(text::string_views(r.2@), chains(self.path_model@).intersect(chains(self.content_model@))),
    {
        let (shared, path_only) = split_chains(&self.path_model, &self.content_model);
        let (_, content_only) = split_chains(&self.content_model, &self.path_model);
        let ghost a = chains(self.path_model@);
        let ghost b = chains(self.content_model@);
        proof {
            lemma_lists_patterns(path_only@, a.difference(b));
            lemma_lists_patterns(content_only@, b.difference(a));
            lemma_lists_patterns(shared@, a.intersect(b));
        }
        (pattern_strings(&path_only), pattern_strings(&content_only), pattern_strings(&shared))
    }
}


/// No two stored transitions start with the same character.
pub open spec fn distinct_firsts(ts: Seq<(char, char)>) -> bool {
    forall|i: int, j: int| 0 <= i < j < ts.len() ==> (#[trigger] ts[i]).0 != (#[trigger] ts[j]).0
}

/// The first character of a transition.
pub open spec fn first_of(t: (char, char)) -> char {
    t.0
}

/// The records of the transitions with their counts, in order.
pub open spec fn plain_records(ts: Seq<(char, char)>, m: Map<(char, char), u32>) -> Seq<u8>
    decreases ts.len(),
{
    if ts.len() == 0 {
        Seq::empty()
    } else {
        plain_records(ts.drop_last(), m) + record_bytes(ts.last().0, ts.last().1, m[ts.last()])
    }
}

proof fn lemma_distinct_init(ts: Seq<(char, char)>)
    requires
        ts.len() > 0,
        distinct_firsts(ts),
    ensures
        distinct_firsts(ts.drop_last()),
{
    let init = ts.drop_last();
    assert forall|i: int, j: int| 0 <= i < j < init.len() implies (#[trigger] init[i]).0 != (#[trigger] init[j]).0 by {
        assert(init[i] == ts[i] && init[j] == ts[j]);
    }
}

/// Without shared first characters, the first characters are those of the
/// transitions, in order.
proof fn lemma_firsts_in_order(ts: Seq<(char, char)>)
    requires
        distinct_firsts(ts),
    ensures
        first_chars(ts) == ts.map_values(|t: (char, char)| first_of(t)),
    decreases ts.len(),
{
    if ts.len() > 0 {
        let init = ts.drop_last();
        lemma_distinct_init(ts);
        lemma_firsts_in_order(init);
        let r = first_chars(init);
        assert(!r.contains(ts.last().0)) by {
            if r.contains(ts.last().0) {
                let k = choose|k: int| 0 <= k < r.len() && r[k] == ts.last().0;
                assert(r[k] == first_of(init[k]));
                assert(init[k] == ts[k]);
                assert(ts[k].0 != ts[ts.len() - 1].0);
            }
        }
        assert(ts.map_values(|t: (char, char)| first_of(t)) =~= init.map_values(|t: (char, char)| first_of(t)).push(
            ts.last().0,
        ));
    }
}

/// No stored transition starts with `f`: there are no records from `f`.
proof fn lemma_records_from_none(ts: Seq<(char, char)>, m: Map<(char, char), u32>, f: char)
    requires
        forall|i: int| 0 <= i < ts.len() ==> (#[trigger] ts[i]).0 != f,
    ensures
        records_from(ts, m, f) == Seq::<u8>::empty(),
    decreases ts.len(),
{
    if ts.len() > 0 {
        let init = ts.drop_last();
        assert forall|i: int| 0 <= i < init.len() implies (#[trigger] init[i]).0 != f by {
            assert(init[i] == ts[i]);
        }
        lemma_records_from_none(init, m, f);
        assert(ts.last() == ts[ts.len() - 1]);
        assert(records_from(ts, m, f) =~= Seq::<u8>::empty());
    }
}

/// Without shared first characters, the records from the first character
/// of a transition are that transition's record.
proof fn lemma_records_from_one(ts: Seq<(char, char)>, m: Map<(char, char), u32>, g: int)
    requires
        distinct_firsts(ts),
        0 <= g < ts.len(),
    ensures
        records_from(ts, m, ts[g].0) == record_bytes(ts[g].0, ts[g].1, m[ts[g]]),
    decreases ts.len(),
{
    let init = ts.drop_last();
    let f = ts[g].0;
    lemma_distinct_init(ts);
    if g == ts.len() - 1 {
        assert forall|i: int| 0 <= i < init.len() implies (#[trigger] init[i]).0 != f by {
            assert(init[i] == ts[i]);
        }
        lemma_records_from_none(init, m, f);
        assert(records_from(ts, m, f) =~= record_bytes(ts[g].0, ts[g].1, m[ts[g]]));
    } else {
        lemma_records_from_one(init, m, g);
        assert(init[g] == ts[g]);
        assert(ts.last().0 != f);
        assert(records_from(ts, m, f) =~= records_from(init, m, f));
    }
}

/// Without shared first characters, the grouped records are the records of
/// the transitions in order.
proof fn lemma_grouped_in_order(ts: Seq<(char, char)>, m: Map<(char, char), u32>, k: int)
    requires
        distinct_firsts(ts),
        0 <= k <= ts.len(),
    ensures
        grouped_records(ts.map_values(|t: (char, char)| first_of(t)).take(k), ts, m) == plain_records(ts.take(k), m),
    decreases k,
{
    let fs = ts.map_values(|t: (char, char)| first_of(t));
    if k == 0 {
        assert(fs.take(0) =~= Seq::<char>::empty());
        assert(ts.take(0) =~= Seq::<(char, char)>::empty());
    } else {
        lemma_grouped_in_order(ts, m, k - 1);
        assert(fs.take(k).drop_last() =~= fs.take(k - 1));
        assert(fs.take(k).last() == ts[k - 1].0);
        lemma_records_from_one(ts, m, k - 1);
        assert(ts.take(k).drop_last() =~= ts.take(k - 1));
        assert(ts.take(k).last() == ts[k - 1]);
    }
}

/// The records lie one after another, twelve bytes each.
proof fn lemma_plain_records(ts: Seq<(char, char)>, m: Map<(char, char), u32>)
    ensures
        plain_records(ts, m).len() == 12 * ts.len(),
        forall|j: int|
            0 <= j < ts.len() ==> #[trigger] plain_records(ts, m).subrange(12 * j, 12 * j + 12) == record_bytes(
                ts[j].0,
                ts[j].1,
                m[ts[j]],
            ),
    decreases ts.len(),
{
    if ts.len() > 0 {
        let init = ts.drop_last();
        lemma_plain_records(init, m);
        let p = plain_records(ts, m);
        let pi = plain_records(init, m);
        let last = ts.last();
        lemma_le_round_trip(last.0 as u32);
        lemma_le_round_trip(last.1 as u32);
        lemma_le_round_trip(m[last]);
        assert(record_bytes(last.0, last.1, m[last]).len() == 12);
        assert forall|j: int| 0 <= j < ts.len() implies #[trigger] p.subrange(12 * j, 12 * j + 12) == record_bytes(
            ts[j].0,
            ts[j].1,
            m[ts[j]],
        ) by {
            if j < init.len() {
                assert(p.subrange(12 * j, 12 * j + 12) =~= pi.subrange(12 * j, 12 * j + 12));
                assert(init[j] == ts[j]);
            } else {
                assert(p.subrange(12 * j, 12 * j + 12) =~= record_bytes(last.0, last.1, m[last]));
            }
        }
    }
}

/// A character's code point reads back as the character.
proof fn lemma_scalar_char(c: char)
    ensures
        scalar_or_nul(c as u32) == c,
{
}

/// Reading the first `k` records rebuilds the counts of the first `k`
/// transitions.
proof fn lemma_loaded_prefix(data: Seq<u8>, ts: Seq<(char, char)>, m: Map<(char, char), u32>, k: int)
    requires
        0 <= k <= ts.len(),
        forall|j: int| 0 <= j < ts.len() ==> #[trigger] record_at(data, j) == (ts[j].0 as u32, ts[j].1 as u32, m[ts[j]]),
    ensures
        loaded(data, k as nat) == Map::new(|t: (char, char)| ts.take(k).contains(t), |t: (char, char)| m[t]),
    decreases k,
{
    if k == 0 {
        assert(loaded(data, 0) =~= Map::new(|t: (char, char)| ts.take(0).contains(t), |t: (char, char)| m[t]));
    } else {
        lemma_loaded_prefix(data, ts, m, k - 1);
        let t = ts[k - 1];
        assert(record_at(data, k - 1) == (t.0 as u32, t.1 as u32, m[t]));
        lemma_scalar_char(t.0);
        lemma_scalar_char(t.1);
        assert(ts.take(k) =~= ts.take(k - 1).push(t));
        assert forall|x: (char, char)| #[trigger] ts.take(k).contains(x) == (ts.take(k - 1).contains(x) || x == t) by {
            lemma_push_contains(ts.take(k - 1), t, x);
        }
        assert(loaded(data, k as nat) =~= Map::new(|x: (char, char)| ts.take(k).contains(x), |x: (char, char)| m[x]));
    }
}

/// Writing a model whose transitions all start with different characters
/// and reading it back gives the model again.
///
/// Where two transitions share a first character the stored header counts
/// first characters, not records, and reading stops early.
#[verifier::spinoff_prover]
pub proof fn law_encode_then_load(model: &TransitionCounts)
    requires
        model.wf(),
        distinct_firsts(model.transition_seq()),
        model.transition_seq().len() <= u32::MAX,
    ensures
        ({
            let data = model_bytes(model.transition_seq(), model@);
            loaded(data, records_read(data, 0x1_0000_0000)) == model@
        }),
{
    model.lemma_keys();
    let ts = model.transition_seq();
    let m = model@;
    let n = ts.len();
    lemma_firsts_in_order(ts);
    let fs = ts.map_values(|t: (char, char)| first_of(t));
    lemma_grouped_in_order(ts, m, n as int);
    assert(fs.take(n as int) =~= fs);
    assert(ts.take(n as int) =~= ts);
    let recs = plain_records(ts, m);
    lemma_plain_records(ts, m);
    let header = le_bytes(n as u32);
    lemma_le_round_trip(n as u32);
    let data = model_bytes(ts, m);
    assert(data == header + recs);
    assert(data.subrange(0, 4) =~= header);
    assert(header_count(data) == n);
    assert(records_read(data, 0x1_0000_0000) == n);
    assert forall|j: int| 0 <= j < ts.len() implies #[trigger] record_at(data, j) == (
        ts[j].0 as u32,
        ts[j].1 as u32,
        m[ts[j]],
    ) by {
        let rb = record_bytes(ts[j].0, ts[j].1, m[ts[j]]);
        assert(recs.subrange(12 * j, 12 * j + 12) == rb);
        let o = 4 + 12 * j;
        assert(data.subrange(o, o + 4) =~= rb.subrange(0, 4));
        assert(data.subrange(o + 4, o + 8) =~= rb.subrange(4, 8));
        assert(data.subrange(o + 8, o + 12) =~= rb.subrange(8, 12));
        assert(rb.subrange(0, 4) =~= le_bytes(ts[j].0 as u32));
        assert(rb.subrange(4, 8) =~= le_bytes(ts[j].1 as u32));
        assert(rb.subrange(8, 12) =~= le_bytes(m[ts[j]]));
        lemma_le_round_trip(ts[j].0 as u32);
        lemma_le_round_trip(ts[j].1 as u32);
        lemma_le_round_trip(m[ts[j]]);
    }
    lemma_loaded_prefix(data, ts, m, n as int);
    assert(loaded(data, n) =~= m);
}

/// The sum of all the counts.
pub open spec fn count_sum(s: Seq<(char, char, u32)>) -> nat
    decreases s.len(),
{
    if s.len() == 0 {
        0
    } else {
        count_sum(s.drop_last()) + s.last().2 as nat
    }
}

/// The sum of the counts of the items from `a` to `b`.
pub open spec fn pair_total(s: Seq<(char, char, u32)>, a: char, b: char) -> nat
    decreases s.len(),
{
    if s.len() == 0 {
        0
    } else {
        pair_total(s.drop_last(), a, b) + if s.last().0 == a && s.last().1 == b {
            s.last().2 as nat
        } else {
            0nat
        }
    }
}

/// The pairs that the items go between, each once, in the order in which
/// they first occur.
pub open spec fn distinct_pairs(s: Seq<(char, char, u32)>) -> Seq<(char, char)>
    decreases s.len(),
{
    if s.len() == 0 {
        Seq::empty()
    } else {
        let p = distinct_pairs(s.drop_last());
        if p.contains((s.last().0, s.last().1)) {
            p
        } else {
            p.push((s.last().0, s.last().1))
        }
    }
}

/// The pairs, each with the total of its counts, in order of first
/// occurrence.
pub open spec fn pair_totals(s: Seq<(char, char, u32)>) -> Seq<((char, char), u64)> {
    distinct_pairs(s).map_values(|p: (char, char)| (p, pair_total(s, p.0, p.1) as u64))
}

/// A pair's total is at most the sum of all counts.
proof fn lemma_pair_total_bound(s: Seq<(char, char, u32)>, a: char, b: char)
    ensures
        pair_total(s, a, b) <= count_sum(s),
    decreases s.len(),
{
    if s.len() > 0 {
        lemma_pair_total_bound(s.drop_last(), a, b);
    }
}

/// Every item's pair is among the distinct pairs, which hold no pair twice.
pub proof fn lemma_distinct_pairs(s: Seq<(char, char, u32)>)
    ensures
        distinct_pairs(s).no_duplicates(),
        forall|i: int| 0 <= i < s.len() ==> distinct_pairs(s).contains((#[trigger] s[i].0, s[i].1)),
    decreases s.len(),
{
    if s.len() > 0 {
        let t = s.drop_last();
        lemma_distinct_pairs(t);
        assert forall|i: int| 0 <= i < s.len() implies distinct_pairs(s).contains((#[trigger] s[i].0, s[i].1)) by {
            if i < s.len() - 1 {
                assert(t[i] == s[i]);
                assert(distinct_pairs(t).contains((t[i].0, t[i].1)));
                let j = choose|j: int| 0 <= j < distinct_pairs(t).len() && distinct_pairs(t)[j] == (t[i].0, t[i].1);
                assert(distinct_pairs(s)[j] == (s[i].0, s[i].1));
            } else {
                let p = distinct_pairs(t);
                if !p.contains((s.last().0, s.last().1)) {
                    assert(distinct_pairs(s)[p.len() as int] == (s[i].0, s[i].1));
                }
            }
        }
    }
}

/// Totals the counts of each pair over all the items (models), giving the
/// pairs in order of first occurrence.
pub fn aggregate_pair_totals(items: &Vec<(char, char, u32)>) -> (r: Vec<((char, char), u64)>)
    requires
        count_sum(items@) <= u64::MAX,
    ensures
        r@ == pair_totals(items@),
{
    let mut out: Vec<((char, char), u64)> = Vec::new();
    let mut i: usize = 0;
    while i < items.len()
        invariant
            i <= items@.len(),
            count_sum(items@) <= u64::MAX,
            out@ == pair_totals(items@.take(i as int)),
        decreases items@.len() - i,
    {
        let (a, b, c) = items[i];
        let ghost before = items@.take(i as int);
        let ghost after = items@.take(i + 1);
        assert(after.drop_last() =~= before);
        assert(after.last() == items@[i as int]);
        proof {
            lemma_count_sum_prefix(items@, i + 1);
            lemma_pair_total_bound(after, a, b);
        }
        let mut j: usize = 0;
        while j < out.len() && !(out[j].0.0 == a && out[j].0.1 == b)
            invariant
                j <= out@.len(),
                out@ == pair_totals(before),
                forall|q: int| 0 <= q < j ==> out@[q].0 != (a, b),
            decreases out@.len() - j,
        {
            j = j + 1;
        }
        if j < out.len() {
            let ghost p = distinct_pairs(before);
            assert(p[j as int] == (a, b));
            assert(p.contains((a, b)));
            assert(distinct_pairs(after) == p);
            let total = out[j].1 + c as u64;
            out.set(j, ((a, b), total));
            proof {
                lemma_distinct_pairs(before);
            }
            assert(out@ =~= pair_totals(after));
        } else {
            let ghost p = distinct_pairs(before);
            assert(!p.contains((a, b))) by {
                if p.contains((a, b)) {
                    let q = choose|q: int| 0 <= q < p.len() && p[q] == (a, b);
                    assert(out@[q].0 == p[q]);
                }
            }
            assert(pair_total(before, a, b) == 0) by {
                lemma_absent_pair_total(before, a, b);
            }
            out.push(((a, b), c as u64));
            assert(out@ =~= pair_totals(after));
        }
        i = i + 1;
    }
    assert(items@.take(items@.len() as int) =~= items@);
    out
}

/// The sums over prefixes grow with the prefix.
proof fn lemma_count_sum_prefix(s: Seq<(char, char, u32)>, n: int)
    requires
        0 <= n <= s.len(),
    ensures
        count_sum(s.take(n)) <= count_sum(s),
    decreases s.len() - n,
{
    if n < s.len() {
        lemma_count_sum_prefix(s, n + 1);
        assert(s.take(n + 1).drop_last() =~= s.take(n));
    } else {
        assert(s.take(n) =~= s);
    }
}

/// A pair that no item goes between totals nothing.
proof fn lemma_absent_pair_total(s: Seq<(char, char, u32)>, a: char, b: char)
    requires
        !distinct_pairs(s).contains((a, b)),
    ensures
        pair_total(s, a, b) == 0,
    decreases s.len(),
{
    if s.len() > 0 {
        let t = s.drop_last();
        let p = distinct_pairs(t);
        if p.contains((a, b)) {
            let q = choose|q: int| 0 <= q < p.len() && p[q] == (a, b);
            if p.contains((s.last().0, s.last().1)) {
                assert(distinct_pairs(s)[q] == (a, b));
            } else {
                assert(distinct_pairs(s)[q] == (a, b));
            }
        }
        if s.last().0 == a && s.last().1 == b {
            if p.contains((a, b)) {
            } else {
                assert(distinct_pairs(s)[p.len() as int] == (a, b));
            }
        }
        lemma_absent_pair_total(t, a, b);
    }
}

/// The sum of all the counts, as the summary reports it.
pub fn transition_instances(items: &Vec<(char, char, u32)>) -> (t: u64)
    requires
        count_sum(items@) <= u64::MAX,
    ensures
        t == count_sum(items@),
{
    let mut t: u64 = 0;
    let mut i: usize = 0;
    while i < items.len()
        invariant
            i <= items@.len(),
            count_sum(items@) <= u64::MAX,
            t == count_sum(items@.take(i as int)),
        decreases items@.len() - i,
    {
        proof {
            lemma_count_sum_prefix(items@, i + 1);
            assert(items@.take(i + 1).drop_last() =~= items@.take(i as int));
        }
        t = t + items[i].2 as u64;
        i = i + 1;
    }
    assert(items@.take(items@.len() as int) =~= items@);
    t
}

/// `i` is the first position of `s` holding the highest total.
pub open spec fn is_first_max_total(s: Seq<((char, char), u64)>, i: int) -> bool {
    &&& 0 <= i < s.len()
    &&& forall|j: int| 0 <= j < s.len() ==> s[j].1 <= #[trigger] s[i].1
    &&& forall|j: int| 0 <= j < i ==> #[trigger] s[j].1 < s[i].1
}

/// The first `k` pairs of `s` sorted by total, highest first, pairs with
/// equal totals keeping their order.
pub open spec fn top_by_total(s: Seq<((char, char), u64)>, k: nat) -> Seq<((char, char), u64)>
    decreases k,
{
    if k == 0 || s.len() == 0 {
        Seq::empty()
    } else {
        let i = choose|i: int| is_first_max_total(s, i);
        seq![s[i]] + top_by_total(s.remove(i), (k - 1) as nat)
    }
}

/// Only one position is the first to hold the highest total.
proof fn lemma_first_max_total_unique(s: Seq<((char, char), u64)>, i: int, j: int)
    requires
        is_first_max_total(s, i),
        is_first_max_total(s, j),
    ensures
        i == j,
{
    if i < j {
        assert(s[i].1 < s[j].1);
        assert(s[j].1 <= s[i].1);
    } else if j < i {
        assert(s[j].1 < s[i].1);
        assert(s[i].1 <= s[j].1);
    }
}

/// The `k` pairs with the highest totals, as `top_by_total` orders them.
pub fn top_totals(totals: Vec<((char, char), u64)>, k: usize) -> (r: Vec<((char, char), u64)>)
    ensures
        r@ == top_by_total(totals@, k as nat),
{
    let ghost all = totals@;
    let mut rest = totals;
    let mut out: Vec<((char, char), u64)> = Vec::new();
    let mut left = k;
    while left > 0 && rest.len() > 0
        invariant
            out@ + top_by_total(rest@, left as nat) == top_by_total(all, k as nat),
        decreases left,
    {
        let mut b: usize = 0;
        let mut j: usize = 1;
        while j < rest.len()
            invariant
                rest@.len() > 0,
                b < j <= rest@.len(),
                forall|q: int| 0 <= q < j ==> rest@[q].1 <= #[trigger] rest@[b as int].1,
                forall|q: int| 0 <= q < b ==> #[trigger] rest@[q].1 < rest@[b as int].1,
            decreases rest@.len() - j,
        {
            if rest[j].1 > rest[b].1 {
                b = j;
            }
            j = j + 1;
        }
        let ghost before = rest@;
        proof {
            assert(is_first_max_total(before, b as int));
            let c = choose|i: int| is_first_max_total(before, i);
            lemma_first_max_total_unique(before, b as int, c);
            assert(top_by_total(before, left as nat) == seq![before[b as int]] + top_by_total(
                before.remove(b as int),
                (left - 1) as nat,
            ));
        }
        let item = rest.remove(b);
        out.push(item);
        left = left - 1;
        proof {
            assert(out@ + top_by_total(rest@, left as nat) =~= (out@.drop_last() + seq![item]) + top_by_total(
                rest@,
                left as nat,
            ));
        }
    }
    assert(top_by_total(rest@, left as nat) =~= Seq::<((char, char), u64)>::empty());
    assert(out@ + Seq::<((char, char), u64)>::empty() =~= out@);
    out
}

} // verus!
