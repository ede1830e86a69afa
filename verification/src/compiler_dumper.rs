//! The compiler's intermediate representations (AST, HIR, MIR, LLVM IR,
//! assembly, object code, ...): how each is dumped, how its text is cut into
//! tokens, the n-gram model of each, and how much two models share.
use vstd::prelude::*;
use crate::strmap::StrMap;
use crate::text;

verus! {

/// The kind of a representation.
#[derive(Debug, Clone, Copy, PartialEq, Eq, Structural)]
pub enum RepresentationType {
    AST,
    HIR,
    MIR,
    LLVMIR,
    Assembly,
    ObjectCode,
    ELF,
    Disassembly,
    ControlFlow,
    DataFlow,
}

/// How one representation is dumped: the compiler flags, a command that
/// post-processes the output, and the file extension.
pub struct DumpConfig {
    pub name: String,
    pub rustc_flags: Vec<String>,
    pub post_process_cmd: Option<String>,
    pub output_extension: String,
}

/// The characters of a dump configuration.
pub struct DumpConfigView {
    pub name: Seq<char>,
    pub flags: Seq<Seq<char>>,
    pub post: Option<Seq<char>>,
    pub extension: Seq<char>,
}

impl View for DumpConfig {
    type V = DumpConfigView;

    open spec fn view(&self) -> DumpConfigView {
        DumpConfigView {
            name: self.name@,
            flags: text::string_views(self.rustc_flags@),
            post: match self.post_process_cmd {
                Some(s) => Some(s@),
                None => None,
            },
            extension: self.output_extension@,
        }
    }
}

/// A dump configuration without post-processing.
pub open spec fn plain(name: Seq<char>, flags: Seq<Seq<char>>, ext: Seq<char>) -> DumpConfigView {
    DumpConfigView { name, flags, post: None, extension: ext }
}

/// The ten dumps, in order.
pub open spec fn all_dump_configs() -> Seq<DumpConfigView> {
    seq![
        plain("ast"@, seq!["-Z"@, "unpretty=ast"@], "ast"@),
        plain("hir"@, seq!["-Z"@, "unpretty=hir"@], "hir"@),
        plain("mir"@, seq!["-Z"@, "dump-mir=all"@], "mir"@),
        plain("llvm_ir"@, seq!["--emit=llvm-ir"@], "ll"@),
        plain("assembly"@, seq!["--emit=asm"@], "s"@),
        DumpConfigView {
            name: "object"@,
            flags: seq!["--emit=obj"@],
            post: Some("hexdump -C"@),
            extension: "o"@,
        },
        DumpConfigView {
            name: "binary"@,
            flags: seq!["-o"@, "temp_binary"@],
            post: Some("objdump -d"@),
            extension: "objdump"@,
        },
        plain("expanded"@, seq!["-Z"@, "unpretty=expanded"@], "expanded"@),
        plain("flowgraph"@, seq!["-Z"@, "dump-mir-graphviz"@], "dot"@),
        plain("borrowck"@, seq!["-Z"@, "dump-mir=borrowck"@], "borrowck"@),
    ]
}

/// The views of the configurations.
pub open spec fn configs_view(v: Seq<DumpConfig>) -> Seq<DumpConfigView> {
    v.map_values(|c: DumpConfig| c@)
}

/// A dump configuration.
fn config(name: &str, flags: &[&str], post: Option<&str>, ext: &str) -> (c: DumpConfig)
    ensures
        c@ == (DumpConfigView {
            name: name@,
            flags: flags@.map_values(|s: &str| s@),
            post: match post {
                Some(p) => Some(p@),
                None => None,
            },
            extension: ext@,
        }),
{
    let mut fl: Vec<String> = Vec::new();
    let mut i: usize = 0;
    while i < flags.len()
        invariant
            i <= flags@.len(),
            text::string_views(fl@) == flags@.take(i as int).map_values(|s: &str| s@),
        decreases flags@.len() - i,
    {
        let ghost before = text::string_views(fl@);
        fl.push(String::from_str(flags[i]));
        assert(text::string_views(fl@) =~= before.push(flags@[i as int]@));
        assert(flags@.take(i + 1) =~= flags@.take(i as int).push(flags@[i as int]));
        assert(text::string_views(fl@) =~= flags@.take(i + 1).map_values(|s: &str| s@));
        i = i + 1;
    }
    assert(flags@.take(flags@.len() as int) =~= flags@);
    DumpConfig {
        name: String::from_str(name),
        rustc_flags: fl,
        post_process_cmd: match post {
            Some(p) => Some(String::from_str(p)),
            None => None,
        },
        output_extension: String::from_str(ext),
    }
}

/// Every dump the analysis runs: the AST, HIR and MIR printers, LLVM IR,
/// assembly, object code through `hexdump -C`, the binary through
/// `objdump -d`, the expanded source, the MIR flow graph and the borrow
/// checker's MIR.
pub fn get_all_dump_configs() -> (v: Vec<DumpConfig>)
    ensures
        configs_view(v@) == all_dump_configs(),
{
    let mut v: Vec<DumpConfig> = Vec::new();
    v.push(config("ast", &["-Z", "unpretty=ast"], None, "ast"));
    v.push(config("hir", &["-Z", "unpretty=hir"], None, "hir"));
    v.push(config("mir", &["-Z", "dump-mir=all"], None, "mir"));
    v.push(config("llvm_ir", &["--emit=llvm-ir"], None, "ll"));
    v.push(config("assembly", &["--emit=asm"], None, "s"));
    v.push(config("object", &["--emit=obj"], Some("hexdump -C"), "o"));
    v.push(config("binary", &["-o", "temp_binary"], Some("objdump -d"), "objdump"));
    v.push(config("expanded", &["-Z", "unpretty=expanded"], None, "expanded"));
    v.push(config("flowgraph", &["-Z", "dump-mir-graphviz"], None, "dot"));
    v.push(config("borrowck", &["-Z", "dump-mir=borrowck"], None, "borrowck"));
    proof {
        let w = all_dump_configs();
        let c = configs_view(v@);
        assert forall|i: int| 0 <= i < 10 implies c[i].flags =~= w[i].flags by {}
        assert(c =~= w);
    }
    v
}

/// The kind of the representation called `name`; an unknown name is taken
/// for an AST.
pub open spec fn kind_of(name: Seq<char>) -> RepresentationType {
    if name == "ast"@ {
        RepresentationType::AST
    } else if name == "hir"@ {
        RepresentationType::HIR
    } else if name == "mir"@ {
        RepresentationType::MIR
    } else if name == "llvm_ir"@ {
        RepresentationType::LLVMIR
    } else if name == "assembly"@ {
        RepresentationType::Assembly
    } else if name == "object"@ {
        RepresentationType::ObjectCode
    } else if name == "binary"@ {
        RepresentationType::ELF
    } else if name == "flowgraph"@ {
        RepresentationType::ControlFlow
    } else if name == "borrowck"@ {
        RepresentationType::DataFlow
    } else {
        RepresentationType::AST
    }
}

/// Decides `kind_of`.
pub fn classify_representation_type(name: &str) -> (r: RepresentationType)
    ensures
        r == kind_of(name@),
{
    if text::str_eq(name, "ast") {
        RepresentationType::AST
    } else if text::str_eq(name, "hir") {
        RepresentationType::HIR
    } else if text::str_eq(name, "mir") {
        RepresentationType::MIR
    } else if text::str_eq(name, "llvm_ir") {
        RepresentationType::LLVMIR
    } else if text::str_eq(name, "assembly") {
        RepresentationType::Assembly
    } else if text::str_eq(name, "object") {
        RepresentationType::ObjectCode
    } else if text::str_eq(name, "binary") {
        RepresentationType::ELF
    } else if text::str_eq(name, "flowgraph") {
        RepresentationType::ControlFlow
    } else if text::str_eq(name, "borrowck") {
        RepresentationType::DataFlow
    } else {
        RepresentationType::AST
    }
}

/// The n of the n-grams of a representation: 3 for the tree and MIR
/// printers, 4 for instruction listings, 2 otherwise.
pub open spec fn gram_size(repr: Seq<char>) -> nat {
    if repr == "ast"@ || repr == "hir"@ || repr == "mir"@ {
        3
    } else if repr == "llvm_ir"@ || repr == "assembly"@ {
        4
    } else {
        2
    }
}

/// Decides `gram_size`.
fn n_gram_size(repr: &str) -> (n: usize)
    ensures
        n == gram_size(repr@),
{
    if text::str_eq(repr, "ast") || text::str_eq(repr, "hir") || text::str_eq(repr, "mir") {
        3
    } else if text::str_eq(repr, "llvm_ir") || text::str_eq(repr, "assembly") {
        4
    } else {
        2
    }
}

/// A short token: at most 8 bytes.
pub open spec fn short_token(w: Seq<char>) -> Option<Seq<char>> {
    if (vstd::utf8::encode_utf8(w).len() as usize) <= 8 {
        Some(w)
    } else {
        None
    }
}

/// The tokens of a representation's text: its words, and for object code
/// and binaries only the words of at most 8 bytes. (Instruction listings are
/// split line by line and then by whitespace, which gives the same words.)
pub open spec fn tokens_of(content: Seq<char>, repr: Seq<char>) -> Seq<Seq<char>> {
    if repr == "object"@ || repr == "binary"@ {
        text::words(content).filter_map(|w: Seq<char>| short_token(w))
    } else {
        text::words(content)
    }
}

/// Computes `tokens_of`.
pub fn tokenize_content(content: &str, repr: &str) -> (r: Vec<String>)
    ensures
        text::string_views(r@) == tokens_of(content@, repr@),
{
    let ws = text::split_words(content);
    assert(text::string_views(ws@) == text::words(content@));
    if text::str_eq(repr, "object") || text::str_eq(repr, "binary") {
        let ghost all = text::words(content@);
        let ghost fs = |w: Seq<char>| short_token(w);
        let mut r: Vec<String> = Vec::new();
        let mut i: usize = 0;
        assert(all.take(0) =~= Seq::<Seq<char>>::empty());
        while i < ws.len()
            invariant
                text::string_views(ws@) == all,
                fs == (|w: Seq<char>| short_token(w)),
                i <= ws@.len(),
                text::string_views(r@) == all.take(i as int).filter_map(fs),
            decreases ws@.len() - i,
        {
            assert(all.take(i + 1).drop_last() =~= all.take(i as int));
            assert(all[i as int] == ws@[i as int]@);
            let ghost before = text::string_views(r@);
            assert(all.take(i + 1).filter_map(fs) =~= if short_token(all[i as int]) is Some {
                before.push(all[i as int])
            } else {
                before
            });
            if ws[i].as_str().len() <= 8 {
                r.push(ws[i].clone());
                assert(text::string_views(r@) =~= before.push(ws@[i as int]@));
            }
            assert(text::string_views(r@) =~= all.take(i + 1).filter_map(fs));
            i = i + 1;
        }
        assert(all.take(ws@.len() as int) =~= all);
        r
    } else {
        ws
    }
}

/// Counts of one-level-nested pairs: from, then to.
pub type NestedCounts = StrMap<StrMap<u32>>;

/// The counts of a nested map.
pub open spec fn nested_view(m: NestedCounts) -> Map<Seq<char>, Map<Seq<char>, u32>> {
    m@.map_values(|inner: StrMap<u32>| inner@)
}

/// The outer and every inner map are well formed.
pub open spec fn nested_wf(m: NestedCounts) -> bool {
    &&& m.wf()
    &&& forall|k: Seq<char>| #[trigger] m@.contains_key(k) ==> m@[k].wf()
}

/// A count, 0 where there is none.
pub open spec fn pair_count(m: Map<Seq<char>, Map<Seq<char>, u32>>, f: Seq<char>, t: Seq<char>) -> u32 {
    if m.contains_key(f) && m[f].contains_key(t) {
        m[f][t]
    } else {
        0
    }
}

/// The counts with one more `f` then `t`.
pub open spec fn bump_pair(m: Map<Seq<char>, Map<Seq<char>, u32>>, f: Seq<char>, t: Seq<char>) -> Map<
    Seq<char>,
    Map<Seq<char>, u32>,
> {
    let inner = if m.contains_key(f) {
        m[f]
    } else {
        Map::empty()
    };
    m.insert(f, inner.insert(t, (pair_count(m, f, t) + 1) as u32))
}

/// The text before the last token of the `i`-th window of `n` tokens.
pub open spec fn window_from(ts: Seq<Seq<char>>, i: int, n: nat) -> Seq<char> {
    text::join(ts.subrange(i, i + n - 1), " "@)
}

/// How many windows of `n` tokens there are.
pub open spec fn window_total(len: nat, n: nat) -> nat {
    if len >= n {
        (len - n + 1) as nat
    } else {
        0
    }
}

/// The counts of the first `k` windows of `n` tokens: what precedes the
/// last token, then the last token.
pub open spec fn ngram_counts(ts: Seq<Seq<char>>, n: nat, k: nat) -> Map<Seq<char>, Map<Seq<char>, u32>>
    decreases k,
{
    if k == 0 {
        Map::empty()
    } else {
        bump_pair(ngram_counts(ts, n, (k - 1) as nat), window_from(ts, k - 1, n), ts[k - 1 + n - 1])
    }
}

/// Every count is at most `b`.
pub open spec fn counts_at_most(m: Map<Seq<char>, Map<Seq<char>, u32>>, b: int) -> bool {
    forall|f: Seq<char>, t: Seq<char>| #[trigger] pair_count(m, f, t) <= b
}

/// Counts one more `f` then `t`.
fn bump_nested(m: &mut NestedCounts, f: String, t: String)
    requires
        nested_wf(*old(m)),
        pair_count(nested_view(*old(m)), f@, t@) < u32::MAX,
    ensures
        nested_wf(*final(m)),
        nested_view(*final(m)) == bump_pair(nested_view(*old(m)), f@, t@),
{
    let ghost before = nested_view(*m);
    let ghost fv = f@;
    let ghost tv = t@;
    match m.find(f.as_str()) {
        Some(i) => {
            proof {
                m.lemma_entry(i as int);
            }
            let ghost pre = *m;
            let inner = m.value_mut_at(i);
            let c: u32 = match inner.get(t.as_str()) {
                Some(c) => *c,
                None => 0,
            };
            assert(c == pair_count(before, fv, tv));
            inner.insert(t, c + 1);
            proof {
                pre.lemma_update_at(m, i as int, m.val_seq()[i as int]);
                assert forall|k: Seq<char>| #[trigger] m@.contains_key(k) implies m@[k].wf() by {
                    if k != fv {
                        assert(pre@.contains_key(k));
                    }
                }
                assert(nested_view(*m) =~= bump_pair(before, fv, tv));
            }
        },
        None => {
            let mut inner: StrMap<u32> = StrMap::new();
            inner.insert(t, 1);
            m.insert(f, inner);
            proof {
                assert forall|k: Seq<char>| #[trigger] m@.contains_key(k) implies m@[k].wf() by {
                    if k != fv {
                        assert(old(m)@.contains_key(k));
                    }
                }
                assert(nested_view(*m) =~= bump_pair(before, fv, tv));
            }
        },
    }
}

/// The tokens `lo..hi` joined by a space.
fn join_range(ts: &Vec<String>, lo: usize, hi: usize) -> (r: String)
    requires
        lo <= hi <= ts@.len(),
    ensures
        r@ == text::join(text::string_views(ts@).subrange(lo as int, hi as int), " "@),
{
    let mut part: Vec<String> = Vec::new();
    let mut i: usize = lo;
    while i < hi
        invariant
            lo <= i <= hi <= ts@.len(),
            text::string_views(part@) == text::string_views(ts@).subrange(lo as int, i as int),
        decreases hi - i,
    {
        let ghost before = text::string_views(part@);
        part.push(ts[i].clone());
        assert(text::string_views(part@) =~= before.push(ts@[i as int]@));
        assert(text::string_views(ts@).subrange(lo as int, i + 1) =~= text::string_views(ts@).subrange(
            lo as int,
            i as int,
        ).push(ts@[i as int]@));
        i = i + 1;
    }
    text::join_strings(&part, " ")
}

/// The n-gram model of one representation.
pub struct RepresentationModel {
    pub transitions: NestedCounts,
    pub total_transitions: u64,
    pub representation_type: RepresentationType,
}

/// Builds the n-gram model of a representation's text: its tokens, the
/// n-gram size of its kind, the counts of every window, and the number of
/// windows.
pub fn build_representation_model(content: &str, repr_type: &str) -> (m: RepresentationModel)
    requires
        tokens_of(content@, repr_type@).len() <= u32::MAX,
    ensures
        nested_wf(m.transitions),
        nested_view(m.transitions) == ngram_counts(
            tokens_of(content@, repr_type@),
            gram_size(repr_type@),
            window_total(tokens_of(content@, repr_type@).len(), gram_size(repr_type@)),
        ),
        m.total_transitions == window_total(tokens_of(content@, repr_type@).len(), gram_size(repr_type@)),
        m.representation_type == kind_of(repr_type@),
{
    let n = n_gram_size(repr_type);
    let tokens = tokenize_content(content, repr_type);
    let ghost ts = text::string_views(tokens@);
    let mut transitions: NestedCounts = StrMap::new();
    let windows: usize = if tokens.len() >= n {
        tokens.len() - n + 1
    } else {
        0
    };
    let mut total: u64 = 0;
    let mut i: usize = 0;
    assert(nested_view(transitions) =~= Map::<Seq<char>, Map<Seq<char>, u32>>::empty());
    while i < windows
        invariant
            ts == text::string_views(tokens@),
            ts.len() <= u32::MAX,
            2 <= n <= 4,
            n == gram_size(repr_type@),
            windows == window_total(ts.len(), n as nat),
            i <= windows,
            total == i,
            nested_wf(transitions),
            nested_view(transitions) == ngram_counts(ts, n as nat, i as nat),
            counts_at_most(nested_view(transitions), i as int),
        decreases windows - i,
    {
        let from = join_range(&tokens, i, i + n - 1);
        let to = tokens[i + n - 1].clone();
        let ghost before = nested_view(transitions);
        assert(pair_count(before, from@, to@) <= i);
        bump_nested(&mut transitions, from, to);
        proof {
            assert(ts[i + n - 1] == to@);
            assert forall|f: Seq<char>, t: Seq<char>| #[trigger] pair_count(nested_view(transitions), f, t) <= i + 1 by {
                assert(pair_count(before, f, t) <= i);
            }
        }
        total = total + 1;
        i = i + 1;
    }
    RepresentationModel {
        transitions,
        total_transitions: total,
        representation_type: classify_representation_type(repr_type),
    }
}

/// Over the given keys of the first model that the second model has too:
/// how many of their transitions both models have, and how many
/// transitions the first has.
pub open spec fn overlap_counts(
    keys: Seq<Seq<char>>,
    m1: Map<Seq<char>, Map<Seq<char>, u32>>,
    m2: Map<Seq<char>, Map<Seq<char>, u32>>,
) -> (nat, nat)
    decreases keys.len(),
{
    if keys.len() == 0 {
        (0, 0)
    } else {
        let r = overlap_counts(keys.drop_last(), m1, m2);
        let f = keys.last();
        if m2.contains_key(f) {
            (r.0 + m1[f].dom().intersect(m2[f].dom()).len(), r.1 + m1[f].dom().len())
        } else {
            r
        }
    }
}

/// The counts over a prefix of the keys are no larger.
proof fn lemma_overlap_prefix(
    keys: Seq<Seq<char>>,
    i: int,
    m1: Map<Seq<char>, Map<Seq<char>, u32>>,
    m2: Map<Seq<char>, Map<Seq<char>, u32>>,
)
    requires
        0 <= i <= keys.len(),
    ensures
        overlap_counts(keys.take(i), m1, m2).0 <= overlap_counts(keys, m1, m2).0,
        overlap_counts(keys.take(i), m1, m2).1 <= overlap_counts(keys, m1, m2).1,
    decreases keys.len() - i,
{
    if i < keys.len() {
        lemma_overlap_prefix(keys, i + 1, m1, m2);
        assert(keys.take(i + 1).drop_last() =~= keys.take(i));
    } else {
        assert(keys.take(i) =~= keys);
    }
}

/// Counts the transitions of one first-character group of `inner1` that
/// `inner2` has, and all of them.
fn inner_overlap(inner1: &StrMap<u32>, inner2: &StrMap<u32>) -> (r: (u64, u64))
    requires
        inner1.wf(),
        inner2.wf(),
        inner1@.dom().len() <= u64::MAX,
    ensures
        r.0 == inner1@.dom().intersect(inner2@.dom()).len(),
        r.1 == inner1@.dom().len(),
{
    proof {
        inner1.lemma_len();
    }
    let ghost ks = inner1.key_seq();
    let ghost p = |t: Seq<char>| inner2@.contains_key(t);
    let n = inner1.len();
    let mut common: u64 = 0;
    let mut i: usize = 0;
    while i < n
        invariant
            inner1.wf(),
            inner2.wf(),
            ks == inner1.key_seq(),
            n == ks.len(),
            n <= u64::MAX,
            p == (|t: Seq<char>| inner2@.contains_key(t)),
            i <= n,
            common == crate::markov::count_keys(ks.take(i as int), p),
            common <= i,
        decreases n - i,
    {
        let k = inner1.key_at(i);
        assert(ks.take(i + 1).drop_last() =~= ks.take(i as int));
        if inner2.contains_key(k.as_str()) {
            common = common + 1;
        }
        i = i + 1;
    }
    proof {
        assert(ks.take(n as int) =~= ks);
        crate::markov::lemma_count_keys(ks, p);
        assert(ks.to_set().filter(p) =~= inner1@.dom().intersect(inner2@.dom()));
    }
    (common, n as u64)
}

/// How many of the first model's transitions the second has, among the
/// first characters both have, and how many transitions the first has
/// under those first characters.
pub fn model_overlap(m1: &RepresentationModel, m2: &RepresentationModel) -> (r: (u64, u64))
    requires
        nested_wf(m1.transitions),
        nested_wf(m2.transitions),
        overlap_counts(m1.transitions.key_seq(), nested_view(m1.transitions), nested_view(m2.transitions)).1 <= u64::MAX,
    ensures
        r.0 == overlap_counts(m1.transitions.key_seq(), nested_view(m1.transitions), nested_view(m2.transitions)).0,
        r.1 == overlap_counts(m1.transitions.key_seq(), nested_view(m1.transitions), nested_view(m2.transitions)).1,
{
    let ghost keys = m1.transitions.key_seq();
    let ghost v1 = nested_view(m1.transitions);
    let ghost v2 = nested_view(m2.transitions);
    proof {
        m1.transitions.lemma_len();
    }
    let n = m1.transitions.len();
    let mut common: u64 = 0;
    let mut total: u64 = 0;
    let mut i: usize = 0;
    assert(keys.take(0) =~= Seq::<Seq<char>>::empty());
    while i < n
        invariant
            nested_wf(m1.transitions),
            nested_wf(m2.transitions),
            keys == m1.transitions.key_seq(),
            v1 == nested_view(m1.transitions),
            v2 == nested_view(m2.transitions),
            n == keys.len(),
            i <= n,
            overlap_counts(keys, v1, v2).1 <= u64::MAX,
            common == overlap_counts(keys.take(i as int), v1, v2).0,
            total == overlap_counts(keys.take(i as int), v1, v2).1,
            common <= total,
        decreases n - i,
    {
        let f = m1.transitions.key_at(i);
        let inner1 = m1.transitions.value_at(i);
        proof {
            m1.transitions.lemma_entry(i as int);
            assert(keys.take(i + 1).drop_last() =~= keys.take(i as int));
            assert(keys.take(i + 1).last() == f@);
            lemma_overlap_prefix(keys, i + 1, v1, v2);
            inner1.lemma_len();
        }
        match m2.transitions.get(f.as_str()) {
            Some(inner2) => {
                proof {
                    vstd::set_lib::lemma_len_intersect(inner1@.dom(), inner2@.dom());
                }
                let (c, t) = inner_overlap(inner1, inner2);
                common = common + c;
                total = total + t;
            },
            None => {},
        }
        i = i + 1;
    }
    assert(keys.take(n as int) =~= keys);
    (common, total)
}

/// Every dump configuration and the models built so far.
pub struct UniversalCompilerDumper {
    dump_configurations: Vec<DumpConfig>,
    representation_models: StrMap<RepresentationModel>,
}

impl UniversalCompilerDumper {
    /// The model map and every model's counts are well formed.
    pub closed spec fn wf(&self) -> bool {
        &&& self.representation_models.wf()
        &&& forall|k: Seq<char>| #[trigger] self.representation_models@.contains_key(k) ==> nested_wf(
            self.representation_models@[k].transitions,
        )
    }

    /// The dump configurations.
    pub closed spec fn configs(&self) -> Seq<DumpConfigView> {
        configs_view(self.dump_configurations@)
    }

    /// The dump configurations.
    pub fn dump_configurations(&self) -> (r: &Vec<DumpConfig>)
        ensures
            configs_view(r@) == self.configs(),
    {
        &self.dump_configurations
    }

    /// The models, by representation name.
    pub closed spec fn models(&self) -> Map<Seq<char>, RepresentationModel> {
        self.representation_models@
    }

    /// All dump configurations, no models.
    pub fn new() -> (d: Self)
        ensures
            d.wf(),
            d.configs() == all_dump_configs(),
            d.models() == Map::<Seq<char>, RepresentationModel>::empty(),
    {
        UniversalCompilerDumper { dump_configurations: get_all_dump_configs(), representation_models: StrMap::new() }
    }

    /// Keeps the model of the dump `name` of the given text.
    pub fn add_representation(&mut self, name: &str, content: &str)
        requires
            old(self).wf(),
            tokens_of(content@, name@).len() <= u32::MAX,
        ensures
            final(self).wf(),
            final(self).models().dom() == old(self).models().dom().insert(name@),
            forall|k: Seq<char>| k != name@ && #[trigger] old(self).models().contains_key(k) ==> final(self).models()[k]
                == old(self).models()[k],
            nested_view(final(self).models()[name@].transitions) == ngram_counts(
                tokens_of(content@, name@),
                gram_size(name@),
                window_total(tokens_of(content@, name@).len(), gram_size(name@)),
            ),
            final(self).models()[name@].total_transitions == window_total(tokens_of(content@, name@).len(), gram_size(name@)),
            final(self).models()[name@].representation_type == kind_of(name@),
            final(self).configs() == old(self).configs(),
    {
        let model = build_representation_model(content, name);
        self.representation_models.insert(String::from_str(name), model);
        proof {
            assert forall|k: Seq<char>| #[trigger] self.representation_models@.contains_key(k) implies nested_wf(
                self.representation_models@[k].transitions,
            ) by {
                if k != name@ {
                    assert(old(self).representation_models@.contains_key(k));
                }
            }
            assert(self.models().dom() =~= old(self).models().dom().insert(name@));
        }
    }

    /// The names of the models, in storage order.
    pub fn model_names(&self) -> (r: Vec<String>)
        requires
            self.wf(),
        ensures
            text::string_views(r@).to_set() == self.models().dom(),
            r@.len() == self.models().dom().len(),
    {
        proof {
            self.representation_models.lemma_len();
        }
        let n = self.representation_models.len();
        let mut r: Vec<String> = Vec::new();
        let mut i: usize = 0;
        while i < n
            invariant
                self.wf(),
                n == self.representation_models.key_seq().len(),
                i <= n,
                text::string_views(r@) == self.representation_models.key_seq().take(i as int),
            decreases n - i,
        {
            let ghost before = text::string_views(r@);
            r.push(self.representation_models.key_at(i).clone());
            assert(text::string_views(r@) =~= before.push(self.representation_models.key_seq()[i as int]));
            assert(self.representation_models.key_seq().take(i + 1) =~= self.representation_models.key_seq().take(
                i as int,
            ).push(self.representation_models.key_seq()[i as int]));
            i = i + 1;
        }
        proof {
            assert(self.representation_models.key_seq().take(n as int) =~= self.representation_models.key_seq());
            self.representation_models.lemma_len();
        }
        r
    }

    /// The overlap of two stored models, if both are stored.
    pub fn overlap_of(&self, a: &str, b: &str) -> (r: Option<(u64, u64)>)
        requires
            self.wf(),
            self.models().contains_key(a@) && self.models().contains_key(b@) ==> overlap_counts(
                self.models()[a@].transitions.key_seq(),
                nested_view(self.models()[a@].transitions),
                nested_view(self.models()[b@].transitions),
            ).1 <= u64::MAX,
        ensures
            match r {
                Some(c) => self.models().contains_key(a@) && self.models().contains_key(b@) && c.0 == overlap_counts(
                    self.models()[a@].transitions.key_seq(),
                    nested_view(self.models()[a@].transitions),
                    nested_view(self.models()[b@].transitions),
                ).0 && c.1 == overlap_counts(
                    self.models()[a@].transitions.key_seq(),
                    nested_view(self.models()[a@].transitions),
                    nested_view(self.models()[b@].transitions),
                ).1,
                None => !(self.models().contains_key(a@) && self.models().contains_key(b@)),
            },
    {
        match (self.representation_models.get(a), self.representation_models.get(b)) {
            (Some(m1), Some(m2)) => Some(model_overlap(m1, m2)),
            _ => None,
        }
    }

    /// The model of a representation, if it was built.
    pub fn model(&self, name: &str) -> (r: Option<&RepresentationModel>)
        requires
            self.wf(),
        ensures
            match r {
                Some(m) => self.models().contains_key(name@) && *m == self.models()[name@],
                None => !self.models().contains_key(name@),
            },
    {
        self.representation_models.get(name)
    }
}

} // verus!
