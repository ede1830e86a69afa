//! The cost of wrapping git blob objects for compilation: what each object
//! needs (attributes, imports, types, paths into other crates), the cost
//! function over those needs, and groups of objects that could share one
//! environment.
use vstd::prelude::*;
use crate::strmap::StrMap;
use crate::text;

verus! {

/// The lines of a content, each trimmed. The pieces between newlines are
/// `str::lines` but for a final empty piece and a `\r` before each newline,
/// neither of which survives trimming or matters to any of the tests below.
pub open spec fn trimmed_lines(c: Seq<char>) -> Seq<Seq<char>> {
    text::split_on(c, '\n').map_values(|l: Seq<char>| text::trim(l))
}

/// An attribute line (`#[` or `#!`).
pub open spec fn macro_of(t: Seq<char>) -> Option<Seq<char>> {
    if text::has_prefix(t, "#["@) || text::has_prefix(t, "#!"@) {
        Some(t)
    } else {
        None
    }
}

/// A `use` line.
pub open spec fn import_of(t: Seq<char>) -> Option<Seq<char>> {
    if text::has_prefix(t, "use "@) {
        Some(t)
    } else {
        None
    }
}

/// The name a `struct`, `enum`, `trait` or `type` line defines: its second
/// word.
pub open spec fn type_of(t: Seq<char>) -> Option<Seq<char>> {
    if (text::has_prefix(t, "struct "@) || text::has_prefix(t, "enum "@) || text::has_prefix(t, "trait "@)
        || text::has_prefix(t, "type "@)) && text::words(t).len() >= 2 {
        Some(text::words(t)[1])
    } else {
        None
    }
}

/// A line that names another crate (`extern crate` or a `::` path).
pub open spec fn dep_of(t: Seq<char>) -> Option<Seq<char>> {
    if text::contains_sub(t, "extern crate"@) || text::contains_sub(t, "::"@) {
        Some(t)
    } else {
        None
    }
}

/// `v` holds each item of `s` once, and nothing else.
pub open spec fn lists_set(v: Seq<Seq<char>>, s: Seq<Seq<char>>) -> bool {
    &&& v.no_duplicates()
    &&& forall|x: Seq<char>| #[trigger] v.contains(x) == s.contains(x)
}

/// The wrapping cost `c(w(d))`: one for the object, two per attribute,
/// three per type, one per import and four per dependency.
pub open spec fn cost_formula(macros: nat, types: nat, imports: nat, deps: nat) -> nat {
    1 + 2 * macros + 3 * types + imports + 4 * deps
}

/// What one object needs, and its cost.
pub struct GitObjectWrapper {
    pub object_id: String,
    pub object_type: String,
    pub content_hash: String,
    pub required_macros: Vec<String>,
    pub required_types: Vec<String>,
    pub required_imports: Vec<String>,
    pub compilation_deps: Vec<String>,
    pub wrapping_cost: u32,
}

/// Adds `s` to a list unless it is there already.
fn insert_unique(v: &mut Vec<String>, s: String)
    requires
        text::string_views(old(v)@).no_duplicates(),
    ensures
        text::string_views(final(v)@).no_duplicates(),
        forall|x: Seq<char>| #[trigger] text::string_views(final(v)@).contains(x) == (text::string_views(old(v)@).contains(x) || x == s@),
{
    let ghost before = text::string_views(v@);
    let mut i: usize = 0;
    while i < v.len()
        invariant
            text::string_views(v@) == before,
            before.no_duplicates(),
            i <= v@.len(),
            forall|k: int| 0 <= k < i ==> before[k] != s@,
        decreases v@.len() - i,
    {
        if text::str_eq(v[i].as_str(), s.as_str()) {
            assert(before[i as int] == s@);
            assert forall|x: Seq<char>| #[trigger] text::string_views(v@).contains(x) == (before.contains(x) || x == s@) by {
                if x == s@ {
                    assert(before[i as int] == x);
                }
            }
            return;
        }
        i = i + 1;
    }
    let ghost sv = s@;
    v.push(s);
    proof {
        let after = text::string_views(v@);
        assert(after =~= before.push(sv));
        assert(!before.contains(sv));
        assert forall|x: Seq<char>| #[trigger] after.contains(x) == (before.contains(x) || x == sv) by {
            crate::markov::lemma_push_contains(before, sv, x);
        }
        assert forall|a: int, b: int| 0 <= a < after.len() && 0 <= b < after.len() && a != b implies after[a]
            != after[b] by {
            if a < before.len() && b < before.len() {
            } else if a < before.len() {
                assert(before.contains(after[a]));
            } else {
                assert(before.contains(after[b]));
            }
        }
    }
}

/// The needs found in the first `k` lines, each kind in its own list.
pub open spec fn needs_in(ls: Seq<Seq<char>>, f: spec_fn(Seq<char>) -> Option<Seq<char>>) -> Seq<Seq<char>> {
    ls.filter_map(f)
}

/// Collects the needs of a content.
fn collect_needs(content: &str) -> (r: (Vec<String>, Vec<String>, Vec<String>, Vec<String>))
    ensures
        lists_set(text::string_views(r.0@), needs_in(trimmed_lines(content@), |t: Seq<char>| macro_of(t))),
        lists_set(text::string_views(r.1@), needs_in(trimmed_lines(content@), |t: Seq<char>| type_of(t))),
        lists_set(text::string_views(r.2@), needs_in(trimmed_lines(content@), |t: Seq<char>| import_of(t))),
        lists_set(text::string_views(r.3@), needs_in(trimmed_lines(content@), |t: Seq<char>| dep_of(t))),
{
    let ghost ls = trimmed_lines(content@);
    let ghost fm = |t: Seq<char>| macro_of(t);
    let ghost ft = |t: Seq<char>| type_of(t);
    let ghost fi = |t: Seq<char>| import_of(t);
    let ghost fd = |t: Seq<char>| dep_of(t);
    let pieces = text::split_str(content, '\n');
    let mut macros: Vec<String> = Vec::new();
    let mut types: Vec<String> = Vec::new();
    let mut imports: Vec<String> = Vec::new();
    let mut deps: Vec<String> = Vec::new();
    let mut i: usize = 0;
    assert(ls.take(0) =~= Seq::<Seq<char>>::empty());
    while i < pieces.len()
        invariant
            text::string_views(pieces@) == text::split_on(content@, '\n'),
            ls == trimmed_lines(content@),
            ls.len() == pieces@.len(),
            fm == (|t: Seq<char>| macro_of(t)),
            ft == (|t: Seq<char>| type_of(t)),
            fi == (|t: Seq<char>| import_of(t)),
            fd == (|t: Seq<char>| dep_of(t)),
            i <= pieces@.len(),
            lists_set(text::string_views(macros@), ls.take(i as int).filter_map(fm)),
            lists_set(text::string_views(types@), ls.take(i as int).filter_map(ft)),
            lists_set(text::string_views(imports@), ls.take(i as int).filter_map(fi)),
            lists_set(text::string_views(deps@), ls.take(i as int).filter_map(fd)),
        decreases pieces@.len() - i,
    {
        let t = text::trim_str(pieces[i].as_str());
        let ghost tv = t@;
        proof {
            assert(ls[i as int] == tv);
            assert(ls.take(i + 1).drop_last() =~= ls.take(i as int));
            assert(ls.take(i + 1).last() == tv);
        }
        let ghost m0 = text::string_views(macros@);
        let ghost t0 = text::string_views(types@);
        let ghost i0 = text::string_views(imports@);
        let ghost d0 = text::string_views(deps@);
        if text::starts_with(t.as_str(), "#[") || text::starts_with(t.as_str(), "#!") {
            insert_unique(&mut macros, t.clone());
        }
        if text::starts_with(t.as_str(), "use ") {
            insert_unique(&mut imports, t.clone());
        }
        if text::starts_with(t.as_str(), "struct ") || text::starts_with(t.as_str(), "enum ")
            || text::starts_with(t.as_str(), "trait ") || text::starts_with(t.as_str(), "type ") {
            let w = text::split_words(t.as_str());
            if w.len() >= 2 {
                assert(w@[1]@ == text::words(tv)[1]);
                insert_unique(&mut types, w[1].clone());
            }
        }
        if text::contains_str(t.as_str(), "extern crate") || text::contains_str(t.as_str(), "::") {
            insert_unique(&mut deps, t.clone());
        }
        proof {
            let n = ls.take(i + 1);
            let p = ls.take(i as int);
            assert(n.filter_map(fm) =~= if macro_of(tv) is Some { p.filter_map(fm).push(tv) } else { p.filter_map(fm) });
            assert(n.filter_map(fi) =~= if import_of(tv) is Some { p.filter_map(fi).push(tv) } else { p.filter_map(fi) });
            assert(n.filter_map(fd) =~= if dep_of(tv) is Some { p.filter_map(fd).push(tv) } else { p.filter_map(fd) });
            assert(n.filter_map(ft) =~= if type_of(tv) is Some {
                p.filter_map(ft).push(type_of(tv)->Some_0)
            } else {
                p.filter_map(ft)
            });
            assert forall|x: Seq<char>| #[trigger] text::string_views(macros@).contains(x) == n.filter_map(fm).contains(x) by {
                crate::markov::lemma_push_contains(ls.take(i as int).filter_map(fm), tv, x);
            }
            assert forall|x: Seq<char>| #[trigger] text::string_views(imports@).contains(x) == n.filter_map(fi).contains(x) by {
                crate::markov::lemma_push_contains(ls.take(i as int).filter_map(fi), tv, x);
            }
            assert forall|x: Seq<char>| #[trigger] text::string_views(deps@).contains(x) == n.filter_map(fd).contains(x) by {
                crate::markov::lemma_push_contains(ls.take(i as int).filter_map(fd), tv, x);
            }
            assert forall|x: Seq<char>| #[trigger] text::string_views(types@).contains(x) == n.filter_map(ft).contains(x) by {
                if type_of(tv) is Some {
                    crate::markov::lemma_push_contains(ls.take(i as int).filter_map(ft), type_of(tv)->Some_0, x);
                }
            }
        }
        i = i + 1;
    }
    assert(ls.take(pieces@.len() as int) =~= ls);
    (macros, types, imports, deps)
}

/// The wrapping cost of the given needs.
pub fn calculate_wrapping_cost(macros: &Vec<String>, types: &Vec<String>, imports: &Vec<String>, deps: &Vec<String>) -> (c: u32)
    requires
        cost_formula(macros@.len(), types@.len(), imports@.len(), deps@.len()) <= u32::MAX,
    ensures
        c == cost_formula(macros@.len(), types@.len(), imports@.len(), deps@.len()),
{
    let m = macros.len() as u32;
    let t = types.len() as u32;
    let i = imports.len() as u32;
    let d = deps.len() as u32;
    1 + m * 2 + t * 3 + i * 1 + d * 4
}

/// How many different items `s` holds.
pub open spec fn distinct(s: Seq<Seq<char>>) -> nat {
    s.to_set().len()
}

/// The needs of a content, by kind: attributes, types, imports,
/// dependencies.
pub open spec fn macros_in(c: Seq<char>) -> Seq<Seq<char>> {
    needs_in(trimmed_lines(c), |t: Seq<char>| macro_of(t))
}

/// See `macros_in`.
pub open spec fn types_in(c: Seq<char>) -> Seq<Seq<char>> {
    needs_in(trimmed_lines(c), |t: Seq<char>| type_of(t))
}

/// See `macros_in`.
pub open spec fn imports_in(c: Seq<char>) -> Seq<Seq<char>> {
    needs_in(trimmed_lines(c), |t: Seq<char>| import_of(t))
}

/// See `macros_in`.
pub open spec fn deps_in(c: Seq<char>) -> Seq<Seq<char>> {
    needs_in(trimmed_lines(c), |t: Seq<char>| dep_of(t))
}

/// The wrapping cost of a content.
pub open spec fn content_cost(c: Seq<char>) -> nat {
    cost_formula(distinct(macros_in(c)), distinct(types_in(c)), distinct(imports_in(c)), distinct(deps_in(c)))
}

/// A count, 0 where there is none.
pub open spec fn freq_of(m: Map<Seq<char>, u32>, k: Seq<char>) -> u32 {
    if m.contains_key(k) {
        m[k]
    } else {
        0
    }
}

/// The counts with one more for each item of `s`.
pub open spec fn bumped(m: Map<Seq<char>, u32>, s: Seq<Seq<char>>) -> Map<Seq<char>, u32> {
    Map::new(
        |k: Seq<char>| m.contains_key(k) || s.contains(k),
        |k: Seq<char>| if s.contains(k) { (freq_of(m, k) + 1) as u32 } else { m[k] },
    )
}

/// Every item of `s` can be counted once more.
pub open spec fn can_bump(m: Map<Seq<char>, u32>, s: Seq<Seq<char>>) -> bool {
    forall|k: Seq<char>| #[trigger] s.contains(k) ==> freq_of(m, k) < u32::MAX
}

/// `DefaultHasher::new()` over a string, with `Hash` for `str` and
/// `finish`, printed in lower-case hex. The hasher starts from fixed keys,
/// so the value depends on the string alone (for the algorithm of the std
/// library linked in); the algorithm is not restated, and the result is
/// named `default_hash_hex` of the characters.
pub uninterp spec fn default_hash_hex(s: Seq<char>) -> Seq<char>;

#[verifier::external_body]
/// Hashes with std's `DefaultHasher`; see `default_hash_hex`.
fn hash_hex(s: &str) -> (r: String)
    ensures
        r@ == default_hash_hex(s@),
{
    let mut h = std::collections::hash_map::DefaultHasher::new();
    std::hash::Hash::hash(s, &mut h);
    format!("{:x}", std::hash::Hasher::finish(&h))
}

/// Counts each item of a list once more.
fn bump_all(freq: &mut StrMap<u32>, items: &Vec<String>)
    requires
        old(freq).wf(),
        text::string_views(items@).no_duplicates(),
        can_bump(old(freq)@, text::string_views(items@)),
    ensures
        final(freq).wf(),
        final(freq)@ == bumped(old(freq)@, text::string_views(items@)),
{
    let ghost m0 = freq@;
    let ghost all = text::string_views(items@);
    let mut i: usize = 0;
    assert(freq@ =~= bumped(m0, all.take(0)));
    while i < items.len()
        invariant
            freq.wf(),
            all == text::string_views(items@),
            all.no_duplicates(),
            can_bump(m0, all),
            i <= items@.len(),
            freq@ == bumped(m0, all.take(i as int)),
        decreases items@.len() - i,
    {
        let k = &items[i];
        let ghost kv = k@;
        proof {
            assert(all[i as int] == kv);
            assert(all.take(i + 1) =~= all.take(i as int).push(kv));
            assert(!all.take(i as int).contains(kv)) by {
                if all.take(i as int).contains(kv) {
                    let j = choose|j: int| 0 <= j < i && all.take(i as int)[j] == kv;
                    assert(all[j] == all[i as int]);
                }
            }
            assert(all.contains(kv));
        }
        let c: u32 = match freq.get(k.as_str()) {
            Some(c) => *c,
            None => 0,
        };
        assert(c == freq_of(m0, kv));
        freq.insert(k.clone(), c + 1);
        proof {
            assert forall|x: Seq<char>| #[trigger] all.take(i + 1).contains(x) == (all.take(i as int).contains(x) || x == kv) by {
                crate::markov::lemma_push_contains(all.take(i as int), kv, x);
            }
            assert(freq@ =~= bumped(m0, all.take(i + 1)));
        }
        i = i + 1;
    }
    assert(all.take(items@.len() as int) =~= all);
}

/// The wrapped objects, how often each attribute and type was needed, and
/// the sum of the costs.
pub struct WrappingCostAnalyzer {
    wrapped_objects: StrMap<GitObjectWrapper>,
    macro_frequency: StrMap<u32>,
    type_frequency: StrMap<u32>,
    total_wrapping_cost: u64,
}

/// The lists of a wrapper have no repeats.
pub open spec fn wrapper_wf(w: GitObjectWrapper) -> bool {
    &&& text::string_views(w.required_macros@).no_duplicates()
    &&& text::string_views(w.required_types@).no_duplicates()
}

impl WrappingCostAnalyzer {
    /// The maps are well formed and the stored wrappers' lists have no
    /// repeats.
    pub closed spec fn wf(&self) -> bool {
        &&& self.wrapped_objects.wf()
        &&& self.macro_frequency.wf()
        &&& self.type_frequency.wf()
        &&& forall|i: int| 0 <= i < self.wrapped_objects.val_seq().len() ==> wrapper_wf(
            #[trigger] self.wrapped_objects.val_seq()[i],
        )
    }

    /// The ids of the wrapped objects, in storage order.
    pub closed spec fn object_ids(&self) -> Seq<Seq<char>> {
        self.wrapped_objects.key_seq()
    }

    /// The wrapped objects, in storage order.
    pub closed spec fn objects(&self) -> Seq<GitObjectWrapper> {
        self.wrapped_objects.val_seq()
    }

    /// The wrapped objects, by id.
    pub closed spec fn object_map(&self) -> Map<Seq<char>, GitObjectWrapper> {
        self.wrapped_objects@
    }

    /// How often each attribute was needed.
    pub closed spec fn macro_freq(&self) -> Map<Seq<char>, u32> {
        self.macro_frequency@
    }

    /// How often each type was needed.
    pub closed spec fn type_freq(&self) -> Map<Seq<char>, u32> {
        self.type_frequency@
    }

    /// The sum of the costs.
    pub closed spec fn total(&self) -> u64 {
        self.total_wrapping_cost
    }

    /// Nothing wrapped.
    pub fn new() -> (a: Self)
        ensures
            a.wf(),
            a.object_ids().len() == 0,
            a.macro_freq() == Map::<Seq<char>, u32>::empty(),
            a.type_freq() == Map::<Seq<char>, u32>::empty(),
            a.total() == 0,
    {
        let a = WrappingCostAnalyzer {
            wrapped_objects: StrMap::new(),
            macro_frequency: StrMap::new(),
            type_frequency: StrMap::new(),
            total_wrapping_cost: 0,
        };
        proof {
            a.wrapped_objects.lemma_len();
        }
        a
    }

    /// The sum of the costs.
    pub fn total_wrapping_cost(&self) -> (t: u64)
        ensures
            t == self.total(),
    {
        self.total_wrapping_cost
    }

    /// Number of wrapped objects.
    pub fn object_count(&self) -> (n: usize)
        requires
            self.wf(),
        ensures
            n == self.object_ids().len(),
    {
        self.wrapped_objects.len()
    }

    /// Wraps the blob `object_hash` with the given content: finds what it
    /// needs, prices it, and counts its attributes and types.
    pub fn create_object_wrapper(&mut self, object_hash: &str, content: &str) -> (w: GitObjectWrapper)
        requires
            old(self).wf(),
            content_cost(content@) <= u32::MAX,
            old(self).total() + content_cost(content@) <= u64::MAX,
            can_bump(old(self).macro_freq(), macros_in(content@)),
            can_bump(old(self).type_freq(), types_in(content@)),
        ensures
            final(self).wf(),
            wrapper_wf(w),
            w.object_id@ == object_hash@,
            w.object_type@ == "blob"@,
            w.content_hash@ == default_hash_hex(content@),
            lists_set(text::string_views(w.required_macros@), macros_in(content@)),
            lists_set(text::string_views(w.required_types@), types_in(content@)),
            lists_set(text::string_views(w.required_imports@), imports_in(content@)),
            lists_set(text::string_views(w.compilation_deps@), deps_in(content@)),
            w.wrapping_cost == content_cost(content@),
            final(self).macro_freq() == bumped(old(self).macro_freq(), macros_in(content@)),
            final(self).type_freq() == bumped(old(self).type_freq(), types_in(content@)),
            final(self).total() == old(self).total() + content_cost(content@),
            final(self).object_ids() == old(self).object_ids(),
            final(self).objects() == old(self).objects(),
    {
        let (macros, types, imports, deps) = collect_needs(content);
        proof {
            lemma_distinct_len(text::string_views(macros@), macros_in(content@));
            lemma_distinct_len(text::string_views(types@), types_in(content@));
            lemma_distinct_len(text::string_views(imports@), imports_in(content@));
            lemma_distinct_len(text::string_views(deps@), deps_in(content@));
        }
        let cost = calculate_wrapping_cost(&macros, &types, &imports, &deps);
        proof {
            assert forall|k: Seq<char>| #[trigger] text::string_views(macros@).contains(k) implies freq_of(
                self.macro_frequency@,
                k,
            ) < u32::MAX by {
                assert(macros_in(content@).contains(k));
            }
            assert forall|k: Seq<char>| #[trigger] text::string_views(types@).contains(k) implies freq_of(
                self.type_frequency@,
                k,
            ) < u32::MAX by {
                assert(types_in(content@).contains(k));
            }
        }
        bump_all(&mut self.macro_frequency, &macros);
        bump_all(&mut self.type_frequency, &types);
        proof {
            assert(bumped(old(self).macro_freq(), text::string_views(macros@)) =~= bumped(
                old(self).macro_freq(),
                macros_in(content@),
            ));
            assert(bumped(old(self).type_freq(), text::string_views(types@)) =~= bumped(
                old(self).type_freq(),
                types_in(content@),
            ));
        }
        self.total_wrapping_cost = self.total_wrapping_cost + cost as u64;
        GitObjectWrapper {
            object_id: String::from_str(object_hash),
            object_type: String::from_str("blob"),
            content_hash: hash_hex(content),
            required_macros: macros,
            required_types: types,
            required_imports: imports,
            compilation_deps: deps,
            wrapping_cost: cost,
        }
    }

    /// Keeps a wrapper under its object id.
    pub fn add_object(&mut self, w: GitObjectWrapper)
        requires
            old(self).wf(),
            wrapper_wf(w),
        ensures
            final(self).wf(),
            final(self).object_map() == old(self).object_map().insert(w.object_id@, w),
            final(self).macro_freq() == old(self).macro_freq(),
            final(self).type_freq() == old(self).type_freq(),
            final(self).total() == old(self).total(),
    {
        let ghost old_vals = self.wrapped_objects.val_seq();
        let ghost old_keys = self.wrapped_objects.key_seq();
        let id = w.object_id.clone();
        self.wrapped_objects.insert(id, w);
        proof {
            self.wrapped_objects.lemma_len();
            old(self).wrapped_objects.lemma_len();
            assert forall|i: int| 0 <= i < self.wrapped_objects.val_seq().len() implies wrapper_wf(
                #[trigger] self.wrapped_objects.val_seq()[i],
            ) by {
                self.wrapped_objects.lemma_entry(i);
                let k = self.wrapped_objects.key_seq()[i];
                if k != w.object_id@ {
                    assert(old(self).wrapped_objects@.contains_key(k));
                    old(self).wrapped_objects.lemma_key(k);
                    let j = old_keys.index_of(k);
                    old(self).wrapped_objects.lemma_entry(j);
                }
            }
        }
    }
}

/// A list without repeats holding the items of `s` is as long as `s` has
/// different items.
proof fn lemma_distinct_len(v: Seq<Seq<char>>, s: Seq<Seq<char>>)
    requires
        lists_set(v, s),
    ensures
        v.len() == distinct(s),
{
    v.unique_seq_to_set();
    assert(v.to_set() =~= s.to_set());
}

/// The signature part of an attribute that more than two objects need.
pub open spec fn macro_part(mf: Map<Seq<char>, u32>, m: Seq<char>) -> Option<Seq<char>> {
    if freq_of(mf, m) > 2 {
        Some("M:"@ + m)
    } else {
        None
    }
}

/// The signature part of a type that more than two objects need.
pub open spec fn type_part(tf: Map<Seq<char>, u32>, t: Seq<char>) -> Option<Seq<char>> {
    if freq_of(tf, t) > 2 {
        Some("T:"@ + t)
    } else {
        None
    }
}

/// The parts of a wrapper's signature, in the order they are found.
pub open spec fn signature_parts(w: GitObjectWrapper, mf: Map<Seq<char>, u32>, tf: Map<Seq<char>, u32>) -> Seq<
    Seq<char>,
> {
    text::string_views(w.required_macros@).filter_map(|m: Seq<char>| macro_part(mf, m)) + text::string_views(
        w.required_types@,
    ).filter_map(|t: Seq<char>| type_part(tf, t))
}

/// A wrapper's signature: its parts sorted and joined by `|`.
pub open spec fn signature_of(w: GitObjectWrapper, mf: Map<Seq<char>, u32>, tf: Map<Seq<char>, u32>) -> Seq<char> {
    text::join(text::sorted_of(signature_parts(w, mf, tf)), "|"@)
}

/// The objects of each signature, in the order the objects come.
pub open spec fn grouped(ids: Seq<Seq<char>>, sigs: Seq<Seq<char>>) -> Map<Seq<char>, Seq<Seq<char>>>
    decreases ids.len(),
{
    if ids.len() == 0 || sigs.len() != ids.len() {
        Map::empty()
    } else {
        let g = grouped(ids.drop_last(), sigs.drop_last());
        let s = sigs.last();
        g.insert(
            s,
            if g.contains_key(s) {
                g[s].push(ids.last())
            } else {
                seq![ids.last()]
            },
        )
    }
}

/// The signatures of the wrappers.
pub open spec fn signatures(objs: Seq<GitObjectWrapper>, mf: Map<Seq<char>, u32>, tf: Map<Seq<char>, u32>) -> Seq<
    Seq<char>,
> {
    objs.map_values(|w: GitObjectWrapper| signature_of(w, mf, tf))
}

/// The lists of each group.
pub open spec fn groups_view(g: StrMap<Vec<String>>) -> Map<Seq<char>, Seq<Seq<char>>> {
    g@.map_values(|v: Vec<String>| text::string_views(v@))
}

/// Reads `freq_of`.
fn get_freq(m: &StrMap<u32>, k: &str) -> (c: u32)
    requires
        m.wf(),
    ensures
        c == freq_of(m@, k@),
{
    match m.get(k) {
        Some(c) => *c,
        None => 0,
    }
}

/// Computes `signature_of`.
fn signature(w: &GitObjectWrapper, mf: &StrMap<u32>, tf: &StrMap<u32>) -> (r: String)
    requires
        wrapper_wf(*w),
        mf.wf(),
        tf.wf(),
    ensures
        r@ == signature_of(*w, mf@, tf@),
{
    let ghost ms = text::string_views(w.required_macros@);
    let ghost ts = text::string_views(w.required_types@);
    let ghost fmp = |m: Seq<char>| macro_part(mf@, m);
    let ghost ftp = |t: Seq<char>| type_part(tf@, t);
    let mut parts: Vec<String> = Vec::new();
    let mut i: usize = 0;
    assert(ms.take(0) =~= Seq::<Seq<char>>::empty());
    while i < w.required_macros.len()
        invariant
            ms == text::string_views(w.required_macros@),
            fmp == (|m: Seq<char>| macro_part(mf@, m)),
            mf.wf(),
            i <= ms.len(),
            text::strictly_sorted_strs(text::string_views(parts@)),
            forall|x: Seq<char>| #[trigger] text::string_views(parts@).contains(x) == ms.take(i as int).filter_map(fmp).contains(x),
        decreases ms.len() - i,
    {
        let m = &w.required_macros[i];
        let ghost mv = m@;
        let ghost before = ms.take(i as int).filter_map(fmp);
        assert(ms.take(i + 1).drop_last() =~= ms.take(i as int));
        assert(ms.take(i + 1).last() == mv);
        if get_freq(mf, m.as_str()) > 2 {
            let mut part = String::from_str("M:");
            part.append(m.as_str());
            insert_sorted_part(&mut parts, part);
            assert(ms.take(i + 1).filter_map(fmp) =~= before.push("M:"@ + mv));
            assert forall|x: Seq<char>| #[trigger] text::string_views(parts@).contains(x) == ms.take(i + 1).filter_map(fmp).contains(x) by {
                crate::markov::lemma_push_contains(before, "M:"@ + mv, x);
            }
        } else {
            assert(ms.take(i + 1).filter_map(fmp) =~= before);
        }
        i = i + 1;
    }
    assert(ms.take(ms.len() as int) =~= ms);
    let ghost mparts = ms.filter_map(fmp);
    let mut j: usize = 0;
    assert(ts.take(0) =~= Seq::<Seq<char>>::empty());
    assert(mparts + ts.take(0).filter_map(ftp) =~= mparts);
    while j < w.required_types.len()
        invariant
            ts == text::string_views(w.required_types@),
            ftp == (|t: Seq<char>| type_part(tf@, t)),
            tf.wf(),
            j <= ts.len(),
            text::strictly_sorted_strs(text::string_views(parts@)),
            forall|x: Seq<char>| #[trigger] text::string_views(parts@).contains(x) == (mparts + ts.take(j as int).filter_map(ftp)).contains(x),
        decreases ts.len() - j,
    {
        let t = &w.required_types[j];
        let ghost tv = t@;
        let ghost before = mparts + ts.take(j as int).filter_map(ftp);
        assert(ts.take(j + 1).drop_last() =~= ts.take(j as int));
        assert(ts.take(j + 1).last() == tv);
        if get_freq(tf, t.as_str()) > 2 {
            let mut part = String::from_str("T:");
            part.append(t.as_str());
            insert_sorted_part(&mut parts, part);
            assert(mparts + ts.take(j + 1).filter_map(ftp) =~= before.push("T:"@ + tv));
            assert forall|x: Seq<char>| #[trigger] text::string_views(parts@).contains(x) == (mparts + ts.take(j + 1).filter_map(ftp)).contains(x) by {
                crate::markov::lemma_push_contains(before, "T:"@ + tv, x);
            }
        } else {
            assert(mparts + ts.take(j + 1).filter_map(ftp) =~= before);
        }
        j = j + 1;
    }
    assert(ts.take(ts.len() as int) =~= ts);
    proof {
        text::lemma_sorted_of(text::string_views(parts@), signature_parts(*w, mf@, tf@));
    }
    text::join_strings(&parts, "|")
}

/// Adds a part to the sorted parts.
fn insert_sorted_part(parts: &mut Vec<String>, part: String)
    requires
        text::strictly_sorted_strs(text::string_views(old(parts)@)),
    ensures
        text::strictly_sorted_strs(text::string_views(final(parts)@)),
        forall|x: Seq<char>| #[trigger] text::string_views(final(parts)@).contains(x) == (text::string_views(old(parts)@).contains(x) || x == part@),
{
    text::insert_sorted_str(parts, part);
}

impl WrappingCostAnalyzer {
    /// Groups the objects by signature: the sorted attributes and types
    /// they need that more than two objects need, joined by `|`.
    pub fn find_optimal_wrapping_groups(&self) -> (r: StrMap<Vec<String>>)
        requires
            self.wf(),
        ensures
            r.wf(),
            groups_view(r) == grouped(self.object_ids(), signatures(self.objects(), self.macro_freq(), self.type_freq())),
    {
        proof {
            self.wrapped_objects.lemma_len();
        }
        let ghost ids = self.object_ids();
        let ghost sigs = signatures(self.objects(), self.macro_freq(), self.type_freq());
        let n = self.wrapped_objects.len();
        let mut groups: StrMap<Vec<String>> = StrMap::new();
        let mut i: usize = 0;
        assert(groups_view(groups) =~= grouped(ids.take(0), sigs.take(0)));
        while i < n
            invariant
                self.wf(),
                n == ids.len(),
                ids == self.object_ids(),
                ids.len() == self.objects().len(),
                sigs == signatures(self.objects(), self.macro_freq(), self.type_freq()),
                i <= n,
                groups.wf(),
                groups_view(groups) == grouped(ids.take(i as int), sigs.take(i as int)),
            decreases n - i,
        {
            let id = self.wrapped_objects.key_at(i);
            let w = self.wrapped_objects.value_at(i);
            assert(wrapper_wf(self.wrapped_objects.val_seq()[i as int]));
            let sig = signature(w, &self.macro_frequency, &self.type_frequency);
            proof {
                assert(sigs[i as int] == sig@);
                assert(ids.take(i + 1).drop_last() =~= ids.take(i as int));
                assert(sigs.take(i + 1).drop_last() =~= sigs.take(i as int));
                assert(ids.take(i + 1).last() == id@);
                assert(sigs.take(i + 1).last() == sig@);
            }
            let ghost g0 = groups_view(groups);
            match groups.find(sig.as_str()) {
                Some(gi) => {
                    proof {
                        groups.lemma_entry(gi as int);
                    }
                    let ghost pre = groups;
                    let list = groups.value_mut_at(gi);
                    let ghost l0 = text::string_views(list@);
                    list.push(id.clone());
                    proof {
                        assert(text::string_views(list@) =~= l0.push(id@));
                    }
                    proof {
                        pre.lemma_update_at(&groups, gi as int, groups.val_seq()[gi as int]);
                        assert(groups_view(groups) =~= g0.insert(sig@, g0[sig@].push(id@)));
                    }
                },
                None => {
                    let mut list: Vec<String> = Vec::new();
                    list.push(id.clone());
                    let ghost lv = text::string_views(list@);
                    assert(lv =~= seq![id@]);
                    groups.insert(sig, list);
                    assert(groups_view(groups) =~= g0.insert(sig@, seq![id@]));
                },
            }
            i = i + 1;
        }
        assert(ids.take(n as int) =~= ids);
        assert(sigs.take(n as int) =~= sigs);
        groups
    }

    /// The cost of wrapping each object alone, of one shared environment
    /// (costing 10) per group, and what sharing would save.
    pub fn optimization_potential(&self, group_count: usize) -> (r: (u64, u64, u64))
        requires
            group_count * 10 <= u64::MAX,
        ensures
            r.0 == self.total(),
            r.1 == group_count * 10,
            r.2 == (if self.total() > group_count * 10 { self.total() - group_count * 10 } else { 0 }),
    {
        let single = self.total_wrapping_cost;
        let grouped = group_count as u64 * 10;
        let savings = if single > grouped { single - grouped } else { 0 };
        (single, grouped, savings)
    }
}

/// The hash of a `git cat-file --batch-check` line (`hash type size`) that
/// names a blob of 1 to 99999 bytes. (The size is read as a `u32`; sizes
/// that do not fit one are past the limit either way.)
pub open spec fn blob_hash(line: Seq<char>) -> Option<Seq<char>> {
    let p = text::words(line);
    if p.len() >= 3 && p[1] == "blob"@ {
        let size: u32 = match text::parse_u32(p[2]) {
            Ok(n) => n,
            Err(_) => 0,
        };
        if 0 < size && size < 100000 {
            Some(p[0])
        } else {
            None
        }
    } else {
        None
    }
}

/// The first 100 pieces between newlines.
pub open spec fn first_lines(out: Seq<char>) -> Seq<Seq<char>> {
    let ls = text::split_on(out, '\n');
    if ls.len() <= 100 {
        ls
    } else {
        ls.take(100)
    }
}

/// The blobs to wrap among the first 100 lines of a batch check.
pub fn select_blobs(output: &str) -> (r: Vec<String>)
    ensures
        text::string_views(r@) == first_lines(output@).filter_map(|l: Seq<char>| blob_hash(l)),
{
    let ghost fb = |l: Seq<char>| blob_hash(l);
    let pieces = text::split_str(output, '\n');
    let ghost ls = first_lines(output@);
    let n: usize = if pieces.len() <= 100 { pieces.len() } else { 100 };
    assert(ls.len() == n);
    let mut r: Vec<String> = Vec::new();
    let mut i: usize = 0;
    assert(ls.take(0) =~= Seq::<Seq<char>>::empty());
    while i < n
        invariant
            text::string_views(pieces@) == text::split_on(output@, '\n'),
            ls == first_lines(output@),
            n == ls.len(),
            n <= pieces@.len(),
            fb == (|l: Seq<char>| blob_hash(l)),
            i <= n,
            text::string_views(r@) == ls.take(i as int).filter_map(fb),
        decreases n - i,
    {
        let line = &pieces[i];
        assert(ls[i as int] == line@);
        assert(ls.take(i + 1).drop_last() =~= ls.take(i as int));
        let parts = text::split_words(line.as_str());
        let ghost before = r@;
        if parts.len() >= 3 && text::str_eq(parts[1].as_str(), "blob") {
            let size: u32 = match text::parse_u32_str(parts[2].as_str()) {
                Ok(n) => n,
                Err(_) => 0,
            };
            if 0 < size && size < 100000 {
                r.push(parts[0].clone());
                assert(text::string_views(r@) =~= text::string_views(before).push(parts@[0]@));
            }
        }
        assert(text::string_views(r@) =~= ls.take(i + 1).filter_map(fb));
        i = i + 1;
    }
    assert(ls.take(n as int) =~= ls);
    r
}


/// Decides whether each item of a list can be counted once more.
fn all_bumpable(freq: &StrMap<u32>, items: &Vec<String>, s: Ghost<Seq<Seq<char>>>) -> (r: bool)
    requires
        freq.wf(),
        lists_set(text::string_views(items@), s@),
    ensures
        r == can_bump(freq@, s@),
{
    let ghost all = text::string_views(items@);
    let mut i: usize = 0;
    while i < items.len()
        invariant
            freq.wf(),
            all == text::string_views(items@),
            lists_set(all, s@),
            i <= all.len(),
            forall|j: int| 0 <= j < i ==> freq_of(freq@, #[trigger] all[j]) < u32::MAX,
        decreases all.len() - i,
    {
        let k = items[i].as_str();
        assert(all[i as int] == k@);
        match freq.get(k) {
            Some(c) => {
                if *c == u32::MAX {
                    assert(all.contains(k@));
                    return false;
                }
            },
            None => {},
        }
        i = i + 1;
    }
    assert forall|k: Seq<char>| #[trigger] s@.contains(k) implies freq_of(freq@, k) < u32::MAX by {
        assert(all.contains(k));
        let j = choose|j: int| 0 <= j < all.len() && all[j] == k;
    }
    true
}

impl WrappingCostAnalyzer {
    /// Whether `create_object_wrapper` can wrap `content`: its cost fits in a
    /// `u32`, the total stays within a `u64`, and no attribute or type count
    /// is at its maximum.
    pub fn wrapper_fits(&self, content: &str) -> (r: bool)
        requires
            self.wf(),
        ensures
            r == (content_cost(content@) <= u32::MAX && self.total() + content_cost(content@) <= u64::MAX
                && can_bump(self.macro_freq(), macros_in(content@)) && can_bump(
                self.type_freq(),
                types_in(content@),
            )),
    {
        let (macros, types, imports, deps) = collect_needs(content);
        proof {
            lemma_distinct_len(text::string_views(macros@), macros_in(content@));
            lemma_distinct_len(text::string_views(types@), types_in(content@));
            lemma_distinct_len(text::string_views(imports@), imports_in(content@));
            lemma_distinct_len(text::string_views(deps@), deps_in(content@));
        }
        let cost: u128 = 1 + 2 * (macros.len() as u128) + 3 * (types.len() as u128) + (imports.len() as u128) + 4
            * (deps.len() as u128);
        if cost > u32::MAX as u128 {
            return false;
        }
        if self.total_wrapping_cost as u128 + cost > u64::MAX as u128 {
            return false;
        }
        all_bumpable(&self.macro_frequency, &macros, Ghost(macros_in(content@))) && all_bumpable(
            &self.type_frequency,
            &types,
            Ghost(types_in(content@)),
        )
    }
}

/// What a line yields is among what the lines yield.
proof fn lemma_filter_map_keeps(ls: Seq<Seq<char>>, f: spec_fn(Seq<char>) -> Option<Seq<char>>, i: int)
    requires
        0 <= i < ls.len(),
        f(ls[i]) is Some,
    ensures
        ls.filter_map(f).contains(f(ls[i])->Some_0),
    decreases ls.len(),
{
    let x = f(ls[i])->Some_0;
    if i == ls.len() - 1 {
        let r = ls.drop_last().filter_map(f);
        assert(ls.filter_map(f) == r + seq![x]);
        assert((r + seq![x])[r.len() as int] == x);
    } else {
        lemma_filter_map_keeps(ls.drop_last(), f, i);
        let r = ls.drop_last().filter_map(f);
        let j = choose|j: int| 0 <= j < r.len() && r[j] == x;
        match f(ls.last()) {
            Some(y) => {
                assert(ls.filter_map(f) == r + seq![y]);
                assert((r + seq![y])[j] == x);
            },
            None => {},
        }
    }
}

/// A line that declares a type (`struct`, `enum`, `trait` or `type`, then
/// at least a name) makes its name a required type of the content, and the
/// content then costs at least the object's one plus three for that type.
pub proof fn law_declared_types_required(c: Seq<char>, i: int)
    requires
        0 <= i < trimmed_lines(c).len(),
        text::has_prefix(trimmed_lines(c)[i], "struct "@) || text::has_prefix(trimmed_lines(c)[i], "enum "@)
            || text::has_prefix(trimmed_lines(c)[i], "trait "@) || text::has_prefix(trimmed_lines(c)[i], "type "@),
        text::words(trimmed_lines(c)[i]).len() >= 2,
    ensures
        types_in(c).contains(text::words(trimmed_lines(c)[i])[1]),
        content_cost(c) >= 4,
{
    let ls = trimmed_lines(c);
    let f = |t: Seq<char>| type_of(t);
    assert(f(ls[i]) == Some(text::words(ls[i])[1]));
    lemma_filter_map_keeps(ls, f, i);
    let ts = types_in(c);
    let x = text::words(ls[i])[1];
    assert(ts.to_set().contains(x));
    vstd::seq_lib::seq_to_set_is_finite(ts);
    if ts.to_set().len() == 0 {
        ts.to_set().lemma_len0_is_empty();
        assert(!Set::<Seq<char>>::empty().contains(x));
    }
}

/// A content lists each attribute line (`#[` or `#!`) among its required
/// attributes, each `use` line among its imports, and each line naming
/// another crate (`extern crate` or a `::` path) among its dependencies.
pub proof fn law_needed_lines_listed(c: Seq<char>, i: int)
    requires
        0 <= i < trimmed_lines(c).len(),
    ensures
        text::has_prefix(trimmed_lines(c)[i], "#["@) || text::has_prefix(trimmed_lines(c)[i], "#!"@)
            ==> macros_in(c).contains(trimmed_lines(c)[i]),
        text::has_prefix(trimmed_lines(c)[i], "use "@) ==> imports_in(c).contains(trimmed_lines(c)[i]),
        text::contains_sub(trimmed_lines(c)[i], "extern crate"@) || text::contains_sub(trimmed_lines(c)[i], "::"@)
            ==> deps_in(c).contains(trimmed_lines(c)[i]),
{
    let ls = trimmed_lines(c);
    let t = ls[i];
    let fm = |t: Seq<char>| macro_of(t);
    let fi = |t: Seq<char>| import_of(t);
    let fd = |t: Seq<char>| dep_of(t);
    if fm(t) is Some {
        lemma_filter_map_keeps(ls, fm, i);
    }
    if fi(t) is Some {
        lemma_filter_map_keeps(ls, fi, i);
    }
    if fd(t) is Some {
        lemma_filter_map_keeps(ls, fd, i);
    }
}

} // verus!
