//! Character-level text handling shared by the message grammars: Unicode
//! whitespace, trimming, prefixes, ASCII lowercasing, whitespace splitting,
//! decimal rendering and decimal parsing.
use vstd::prelude::*;
use vstd::string::*;

verus! {

/// Unicode `White_Space`, the property that `char::is_whitespace` reports.
pub open spec fn is_ws(c: char) -> bool {
    let v = c as u32;
    ||| 9 <= v <= 13
    ||| v == 32
    ||| v == 0x85
    ||| v == 0xa0
    ||| v == 0x1680
    ||| 0x2000 <= v <= 0x200a
    ||| v == 0x2028
    ||| v == 0x2029
    ||| v == 0x202f
    ||| v == 0x205f
    ||| v == 0x3000
}

/// Decides `is_ws`.
pub fn is_whitespace(c: char) -> (r: bool)
    ensures
        r == is_ws(c),
{
    let v = c as u32;
    (9 <= v && v <= 13) || v == 32 || v == 0x85 || v == 0xa0 || v == 0x1680 || (0x2000 <= v && v
        <= 0x200a) || v == 0x2028 || v == 0x2029 || v == 0x202f || v == 0x205f || v == 0x3000
}

/// Number of whitespace characters that open `s`.
pub open spec fn leading_ws(s: Seq<char>) -> nat
    decreases s.len(),
{
    if s.len() > 0 && is_ws(s[0]) {
        1 + leading_ws(s.drop_first())
    } else {
        0
    }
}

/// Number of whitespace characters that close `s`.
pub open spec fn trailing_ws(s: Seq<char>) -> nat
    decreases s.len(),
{
    if s.len() > 0 && is_ws(s.last()) {
        1 + trailing_ws(s.drop_last())
    } else {
        0
    }
}

/// `s` without its leading and trailing whitespace (`str::trim`).
pub open spec fn trim(s: Seq<char>) -> Seq<char> {
    let t = s.skip(leading_ws(s) as int);
    t.take(t.len() - trailing_ws(t))
}

/// The characters of each string.
pub open spec fn string_views(v: Seq<String>) -> Seq<Seq<char>> {
    v.map_values(|s: String| s@)
}

/// `s` begins with `p`.
pub open spec fn has_prefix(s: Seq<char>, p: Seq<char>) -> bool {
    p.len() <= s.len() && s.take(p.len() as int) == p
}

/// ASCII uppercase letters mapped to lowercase, every other character kept.
pub open spec fn ascii_lower_char(c: char) -> char {
    if 'A' <= c && c <= 'Z' {
        ((c as u32) + 32) as char
    } else {
        c
    }
}

/// `str::to_ascii_lowercase`.
pub open spec fn ascii_lower(s: Seq<char>) -> Seq<char> {
    s.map_values(|c: char| ascii_lower_char(c))
}

/// The words of `s[i..]`, given that `cur` is the word read so far.
pub open spec fn words_from(s: Seq<char>, i: int, cur: Seq<char>) -> Seq<Seq<char>>
    decreases s.len() - i,
{
    if i >= s.len() || i < 0 {
        if cur.len() > 0 {
            seq![cur]
        } else {
            seq![]
        }
    } else if is_ws(s[i]) {
        (if cur.len() > 0 {
            seq![cur]
        } else {
            seq![]
        }) + words_from(s, i + 1, seq![])
    } else {
        words_from(s, i + 1, cur.push(s[i]))
    }
}

/// The maximal runs of non-whitespace characters of `s` (`str::split_whitespace`).
pub open spec fn words(s: Seq<char>) -> Seq<Seq<char>> {
    words_from(s, 0, seq![])
}

/// The words joined by `sep`.
pub open spec fn join(ws: Seq<Seq<char>>, sep: Seq<char>) -> Seq<char>
    decreases ws.len(),
{
    if ws.len() == 0 {
        seq![]
    } else if ws.len() == 1 {
        ws[0]
    } else {
        join(ws.drop_last(), sep) + sep + ws.last()
    }
}

/// The pieces of `s` between occurrences of `sep` (`str::split` with a
/// character pattern); empty pieces are kept, so there is always one more
/// piece than there are separators.
pub open spec fn split_on(s: Seq<char>, sep: char) -> Seq<Seq<char>>
    decreases s.len(),
{
    if s.len() == 0 {
        seq![Seq::<char>::empty()]
    } else {
        let rest = split_on(s.drop_last(), sep);
        if s.last() == sep {
            rest.push(Seq::<char>::empty())
        } else {
            rest.update(rest.len() - 1, rest.last().push(s.last()))
        }
    }
}

/// `split_on` yields at least one piece.
pub proof fn lemma_split_on_nonempty(s: Seq<char>, sep: char)
    ensures
        split_on(s, sep).len() >= 1,
    decreases s.len(),
{
    if s.len() > 0 {
        lemma_split_on_nonempty(s.drop_last(), sep);
    }
}

/// `s` without the copies of `c` that open it (`str::trim_start_matches`
/// with a character).
pub open spec fn trim_start_char(s: Seq<char>, c: char) -> Seq<char>
    decreases s.len(),
{
    if s.len() > 0 && s[0] == c {
        trim_start_char(s.drop_first(), c)
    } else {
        s
    }
}

/// `str::split` on a character, each piece copied.
pub fn split_str(s: &str, sep: char) -> (r: Vec<String>)
    ensures
        string_views(r@) == split_on(s@, sep),
{
    let chars = chars_of(s);
    let mut parts: Vec<String> = Vec::new();
    let mut cur: Vec<char> = Vec::new();
    let mut i: usize = 0;
    assert(s@.take(0) =~= Seq::<char>::empty());
    assert(string_views(parts@).push(cur@) =~= seq![Seq::<char>::empty()]);
    while i < chars.len()
        invariant
            chars@ == s@,
            i <= chars@.len(),
            split_on(s@.take(i as int), sep) == string_views(parts@).push(cur@),
        decreases chars@.len() - i,
    {
        let ghost before = s@.take(i as int);
        let ghost after = s@.take(i + 1);
        assert(after.drop_last() =~= before);
        let c = chars[i];
        assert(after.last() == c);
        if c == sep {
            let piece = string_of(cur.as_slice());
            let ghost old_parts = parts@;
            parts.push(piece);
            assert(string_views(parts@) =~= string_views(old_parts).push(piece@));
            cur = Vec::new();
            assert(split_on(after, sep) =~= string_views(parts@).push(cur@));
        } else {
            cur.push(c);
            assert(split_on(after, sep) =~= string_views(parts@).push(cur@));
        }
        i = i + 1;
    }
    assert(s@.take(chars@.len() as int) =~= s@);
    let piece = string_of(cur.as_slice());
    let ghost old_parts = parts@;
    parts.push(piece);
    assert(string_views(parts@) =~= string_views(old_parts).push(piece@));
    parts
}

/// `str::trim_start_matches` on a character.
pub fn trim_start_char_str(s: &str, c: char) -> (r: String)
    ensures
        r@ == trim_start_char(s@, c),
{
    let chars = chars_of(s);
    let mut i: usize = 0;
    assert(s@.skip(0) =~= s@);
    while i < chars.len() && chars[i] == c
        invariant
            chars@ == s@,
            i <= chars@.len(),
            trim_start_char(s@.skip(i as int), c) == trim_start_char(s@, c),
        decreases chars@.len() - i,
    {
        assert(s@.skip(i + 1) =~= s@.skip(i as int).drop_first());
        i = i + 1;
    }
    let rest = vstd::slice::slice_subrange(chars.as_slice(), i, chars.len());
    assert(rest@ =~= s@.skip(i as int));
    string_of(rest)
}

/// `p` occurs in `s` (`str::contains` with a string pattern).
pub open spec fn contains_sub(s: Seq<char>, p: Seq<char>) -> bool {
    exists|i: int| 0 <= i && i + p.len() <= s.len() && #[trigger] s.subrange(i, i + p.len()) == p
}

/// Decides whether `p` occurs in `s` at position `at`.
fn occurs_at(s: &Vec<char>, p: &Vec<char>, at: usize) -> (r: bool)
    requires
        at + p@.len() <= s@.len(),
    ensures
        r == (s@.subrange(at as int, at + p@.len()) == p@),
{
    let n = s.len();
    let mut j: usize = 0;
    while j < p.len()
        invariant
            n == s@.len(),
            at + p@.len() <= s@.len(),
            j <= p@.len(),
            forall|k: int| 0 <= k < j ==> s@[at + k] == p@[k],
        decreases p@.len() - j,
    {
        if s[at + j] != p[j] {
            assert(s@.subrange(at as int, at + p@.len())[j as int] != p@[j as int]);
            return false;
        }
        j = j + 1;
    }
    assert(s@.subrange(at as int, at + p@.len()) =~= p@);
    true
}

/// `str::contains` with a string pattern.
pub fn contains_str(s: &str, p: &str) -> (r: bool)
    ensures
        r == contains_sub(s@, p@),
{
    let sc = chars_of(s);
    let pc = chars_of(p);
    if pc.len() > sc.len() {
        return false;
    }
    let last = sc.len() - pc.len();
    let mut i: usize = 0;
    while i < last
        invariant
            sc@ == s@,
            pc@ == p@,
            last == sc@.len() - pc@.len(),
            i <= last,
            forall|k: int| 0 <= k < i ==> #[trigger] s@.subrange(k, k + p@.len()) != p@,
        decreases last - i,
    {
        if occurs_at(&sc, &pc, i) {
            return true;
        }
        i = i + 1;
    }
    if occurs_at(&sc, &pc, last) {
        return true;
    }
    assert forall|k: int| 0 <= k && k + p@.len() <= s@.len() implies #[trigger] s@.subrange(
        k,
        k + p@.len(),
    ) != p@ by {
        assert(k <= last);
    }
    false
}

/// `s` ends with `p`.
pub open spec fn has_suffix(s: Seq<char>, p: Seq<char>) -> bool {
    p.len() <= s.len() && s.skip(s.len() - p.len()) == p
}

/// `str::ends_with` with a string pattern.
pub fn ends_with(s: &str, p: &str) -> (r: bool)
    ensures
        r == has_suffix(s@, p@),
{
    let sc = chars_of(s);
    let pc = chars_of(p);
    if pc.len() > sc.len() {
        return false;
    }
    let n = sc.len();
    let start = n - pc.len();
    let mut j: usize = 0;
    while j < pc.len()
        invariant
            n == sc@.len(),
            sc@ == s@,
            pc@ == p@,
            start + pc@.len() == sc@.len(),
            j <= pc@.len(),
            forall|k: int| 0 <= k < j ==> sc@[start + k] == pc@[k],
        decreases pc@.len() - j,
    {
        if sc[start + j] != pc[j] {
            assert(s@.skip(start as int)[j as int] != p@[j as int]);
            return false;
        }
        j = j + 1;
    }
    assert(s@.skip(start as int) =~= p@);
    true
}

/// The strings joined by `sep` (`[String]::join`).
pub fn join_strings(ws: &Vec<String>, sep: &str) -> (r: String)
    ensures
        r@ == join(string_views(ws@), sep@),
{
    let ghost all = string_views(ws@);
    let mut r = String::new();
    let mut i: usize = 0;
    assert(all.take(0) =~= Seq::<Seq<char>>::empty());
    while i < ws.len()
        invariant
            i <= ws@.len(),
            all == string_views(ws@),
            r@ == join(all.take(i as int), sep@),
        decreases ws@.len() - i,
    {
        if i > 0 {
            r.append(sep);
        }
        r.append(ws[i].as_str());
        proof {
            let t = all.take(i + 1);
            assert(t.drop_last() =~= all.take(i as int));
            assert(t.last() == ws@[i as int]@);
            if i == 0 {
                assert(r@ =~= t[0]);
            }
        }
        i = i + 1;
    }
    assert(all.take(ws@.len() as int) =~= all);
    r
}

/// The number of bytes in the UTF-8 encoding of `c`.
pub open spec fn utf8_width(c: char) -> nat {
    vstd::utf8::encode_scalar(c as u32).len()
}

/// The characters that the first `n` bytes of `s`'s UTF-8 encoding spell:
/// what `&s[..n]` gives, or `None` where that slice panics (`n` past the end
/// or inside a character).
pub open spec fn byte_prefix(s: Seq<char>, n: nat) -> Option<Seq<char>>
    decreases s.len(),
{
    if n == 0 {
        Some(Seq::<char>::empty())
    } else if s.len() == 0 || utf8_width(s[0]) > n {
        None
    } else {
        match byte_prefix(s.drop_first(), (n - utf8_width(s[0])) as nat) {
            Some(p) => Some(seq![s[0]] + p),
            None => None,
        }
    }
}

/// `p` followed by what `o` holds.
pub open spec fn prepend_opt(p: Seq<char>, o: Option<Seq<char>>) -> Option<Seq<char>> {
    match o {
        Some(q) => Some(p + q),
        None => None,
    }
}

/// `char::len_utf8`.
pub fn char_width(c: char) -> (w: usize)
    ensures
        w == utf8_width(c),
        1 <= w <= 4,
{
    let v = c as u32;
    if v < 0x80 {
        1
    } else if v < 0x800 {
        2
    } else if v < 0x10000 {
        3
    } else {
        4
    }
}

/// `&s[..n]`, or `None` where that slice would panic.
pub fn str_byte_prefix(s: &str, n: usize) -> (r: Option<String>)
    ensures
        match r {
            Some(p) => byte_prefix(s@, n as nat) == Some(p@),
            None => byte_prefix(s@, n as nat) is None,
        },
{
    let chars = chars_of(s);
    let mut i: usize = 0;
    let mut used: usize = 0;
    assert(s@.take(0) + s@.skip(0) =~= s@);
    assert(s@.skip(0) =~= s@);
    assert(s@.take(0) =~= Seq::<char>::empty());
    loop
        invariant
            chars@ == s@,
            i <= chars@.len(),
            used <= n,
            byte_prefix(s@, n as nat) == prepend_opt(
                s@.take(i as int),
                byte_prefix(s@.skip(i as int), (n - used) as nat),
            ),
        decreases chars@.len() - i,
    {
        if used == n {
            assert(s@.take(i as int) + Seq::<char>::empty() =~= s@.take(i as int));
            return Some(string_of(vstd::slice::slice_subrange(chars.as_slice(), 0, i)));
        }
        if i == chars.len() {
            return None;
        }
        let w = char_width(chars[i]);
        let ghost rest = s@.skip(i as int);
        assert(rest[0] == chars@[i as int]);
        if w > n - used {
            return None;
        }
        assert(rest.drop_first() =~= s@.skip(i + 1));
        assert(s@.take(i as int) + seq![chars@[i as int]] =~= s@.take(i + 1));
        proof {
            let o = byte_prefix(s@.skip(i + 1), (n - used - w) as nat);
            match o {
                Some(q) => {
                    assert(s@.take(i as int) + (seq![chars@[i as int]] + q) =~= s@.take(i + 1) + q);
                },
                None => {},
            }
        }
        used = used + w;
        i = i + 1;
    }
}

/// `s` with every occurrence of `p` taken out, scanning left to right
/// without overlaps (`str::replace(p, "")`).
pub open spec fn remove_all(s: Seq<char>, p: Seq<char>) -> Seq<char>
    decreases s.len(),
{
    if s.len() == 0 {
        s
    } else if p.len() > 0 && has_prefix(s, p) {
        remove_all(s.skip(p.len() as int), p)
    } else {
        seq![s[0]] + remove_all(s.drop_first(), p)
    }
}

/// `str::replace(p, "")` for a non-empty pattern.
pub fn remove_all_str(s: &str, p: &str) -> (r: String)
    requires
        p@.len() > 0,
    ensures
        r@ == remove_all(s@, p@),
{
    let sc = chars_of(s);
    let pc = chars_of(p);
    let n = sc.len();
    let m = pc.len();
    let mut out: Vec<char> = Vec::new();
    let mut i: usize = 0;
    assert(s@.skip(0) =~= s@);
    while i < n
        invariant
            sc@ == s@,
            pc@ == p@,
            n == s@.len(),
            m == p@.len(),
            m > 0,
            i <= n,
            remove_all(s@, p@) == out@ + remove_all(s@.skip(i as int), p@),
        decreases n - i,
    {
        let ghost rest = s@.skip(i as int);
        if m <= n - i && occurs_at(&sc, &pc, i) {
            assert(rest.take(m as int) =~= s@.subrange(i as int, i + m));
            assert(rest.skip(m as int) =~= s@.skip(i + m));
            i = i + m;
        } else {
            assert(!has_prefix(rest, p@)) by {
                if has_prefix(rest, p@) {
                    assert(rest.take(m as int) =~= s@.subrange(i as int, i + m));
                }
            }
            assert(rest.drop_first() =~= s@.skip(i + 1));
            let c = sc[i];
            let ghost before = out@;
            out.push(c);
            assert(before + (seq![c] + remove_all(rest.drop_first(), p@)) =~= out@ + remove_all(
                rest.drop_first(),
                p@,
            ));
            i = i + 1;
        }
    }
    assert(s@.skip(n as int) =~= Seq::<char>::empty());
    assert(out@ + Seq::<char>::empty() =~= out@);
    string_of(out.as_slice())
}

/// `s` with every occurrence of `p` replaced by `q`, scanning left to right
/// without overlaps (`str::replace`).
pub open spec fn replace_all(s: Seq<char>, p: Seq<char>, q: Seq<char>) -> Seq<char>
    decreases s.len(),
{
    if s.len() == 0 {
        s
    } else if p.len() > 0 && has_prefix(s, p) {
        q + replace_all(s.skip(p.len() as int), p, q)
    } else {
        seq![s[0]] + replace_all(s.drop_first(), p, q)
    }
}

/// `str::replace` for a non-empty pattern.
pub fn replace_str(s: &str, p: &str, q: &str) -> (r: String)
    requires
        p@.len() > 0,
    ensures
        r@ == replace_all(s@, p@, q@),
{
    let sc = chars_of(s);
    let pc = chars_of(p);
    let qc = chars_of(q);
    let n = sc.len();
    let m = pc.len();
    let mut out: Vec<char> = Vec::new();
    let mut i: usize = 0;
    assert(s@.skip(0) =~= s@);
    while i < n
        invariant
            sc@ == s@,
            pc@ == p@,
            qc@ == q@,
            n == s@.len(),
            m == p@.len(),
            m > 0,
            i <= n,
            replace_all(s@, p@, q@) == out@ + replace_all(s@.skip(i as int), p@, q@),
        decreases n - i,
    {
        let ghost rest = s@.skip(i as int);
        if m <= n - i && occurs_at(&sc, &pc, i) {
            assert(rest.take(m as int) =~= s@.subrange(i as int, i + m));
            assert(rest.skip(m as int) =~= s@.skip(i + m));
            let ghost before = out@;
            let mut k: usize = 0;
            while k < qc.len()
                invariant
                    k <= qc@.len(),
                    out@ == before + qc@.take(k as int),
                decreases qc@.len() - k,
            {
                out.push(qc[k]);
                assert(qc@.take(k + 1) =~= qc@.take(k as int).push(qc@[k as int]));
                k = k + 1;
            }
            assert(qc@.take(qc@.len() as int) =~= qc@);
            assert(before + (q@ + replace_all(s@.skip(i + m), p@, q@)) =~= out@ + replace_all(
                s@.skip(i + m),
                p@,
                q@,
            ));
            i = i + m;
        } else {
            assert(!has_prefix(rest, p@)) by {
                if has_prefix(rest, p@) {
                    assert(rest.take(m as int) =~= s@.subrange(i as int, i + m));
                }
            }
            assert(rest.drop_first() =~= s@.skip(i + 1));
            let c = sc[i];
            let ghost before = out@;
            out.push(c);
            assert(before + (seq![c] + replace_all(rest.drop_first(), p@, q@)) =~= out@ + replace_all(
                rest.drop_first(),
                p@,
                q@,
            ));
            i = i + 1;
        }
    }
    assert(s@.skip(n as int) =~= Seq::<char>::empty());
    assert(out@ + Seq::<char>::empty() =~= out@);
    string_of(out.as_slice())
}

/// The value of a run of decimal digits.
pub open spec fn digits_value(b: Seq<char>) -> nat
    decreases b.len(),
{
    if b.len() == 0 {
        0
    } else {
        digits_value(b.drop_last()) * 10 + ((b.last() as u32) - 48) as nat
    }
}

/// A run of digits is worth at least any of its prefixes.
pub proof fn lemma_digits_value_grows(b: Seq<char>, k: int)
    requires
        0 <= k <= b.len(),
        forall|j: int| 0 <= j < b.len() ==> is_digit(#[trigger] b[j]),
    ensures
        digits_value(b.take(k)) <= digits_value(b),
    decreases b.len(),
{
    if k < b.len() {
        assert(b.drop_last().take(k) =~= b.take(k));
        lemma_digits_value_grows(b.drop_last(), k);
    } else {
        assert(b.take(k) =~= b);
    }
}

/// The digits of a signed decimal: `s` without a leading sign.
pub open spec fn i64_body(s: Seq<char>) -> Seq<char> {
    if s.len() > 0 && (s[0] == '+' || s[0] == '-') {
        s.drop_first()
    } else {
        s
    }
}

/// Every character is a decimal digit.
pub open spec fn all_digits(b: Seq<char>) -> bool {
    forall|j: int| 0 <= j < b.len() ==> is_digit(#[trigger] b[j])
}

/// `i64::from_str` accepts `s`: an optional sign, at least one digit and
/// nothing else, within `i64`'s range.
pub open spec fn parses_as_i64(s: Seq<char>) -> bool {
    &&& i64_body(s).len() > 0
    &&& all_digits(i64_body(s))
    &&& digits_value(i64_body(s)) <= if s.len() > 0 && s[0] == '-' {
        0x8000_0000_0000_0000nat
    } else {
        0x7fff_ffff_ffff_ffffnat
    }
}

/// Decides `parses_as_i64`.
pub fn parses_as_i64_str(s: &str) -> (r: bool)
    ensures
        r == parses_as_i64(s@),
{
    let chars = chars_of(s);
    let n = chars.len();
    let signed = n > 0 && (chars[0] == '+' || chars[0] == '-');
    let negative = n > 0 && chars[0] == '-';
    let start: usize = if signed {
        1
    } else {
        0
    };
    let ghost body = i64_body(s@);
    assert(body =~= s@.skip(start as int));
    if start >= n {
        return false;
    }
    let limit: u128 = if negative {
        0x8000_0000_0000_0000
    } else {
        0x7fff_ffff_ffff_ffff
    };
    let mut acc: u128 = 0;
    let mut i: usize = start;
    assert(body.take(0) =~= Seq::<char>::empty());
    while i < n
        invariant
            chars@ == s@,
            n == s@.len(),
            start <= i <= n,
            body == s@.skip(start as int),
            body == i64_body(s@),
            body.len() == n - start,
            negative == (s@.len() > 0 && s@[0] == '-'),
            limit == if negative {
                0x8000_0000_0000_0000u128
            } else {
                0x7fff_ffff_ffff_ffffu128
            },
            acc <= limit,
            acc == digits_value(body.take(i - start)),
            forall|j: int| 0 <= j < i - start ==> is_digit(#[trigger] body[j]),
        decreases n - i,
    {
        let c = chars[i];
        assert(body[i - start] == c);
        if !('0' <= c && c <= '9') {
            assert(!is_digit(body[i - start]));
            return false;
        }
        let ghost k = (i - start) as int;
        assert(body.take(k + 1).drop_last() =~= body.take(k));
        assert(body.take(k + 1).last() == c);
        let d = (c as u32 - 48) as u128;
        acc = acc * 10 + d;
        assert(digits_value(body.take(k + 1)) == acc);
        i = i + 1;
        if acc > limit {
            proof {
                if all_digits(body) {
                    lemma_digits_value_grows(body, k + 1);
                }
            }
            return false;
        }
    }
    assert(body.take(n - start) =~= body);
    true
}

/// The words found from position `i` on, with a word under way, are not
/// none.
proof fn lemma_words_from_nonempty(s: Seq<char>, i: int, cur: Seq<char>)
    requires
        0 <= i,
        cur.len() > 0,
    ensures
        words_from(s, i, cur).len() > 0,
    decreases s.len() - i,
{
    if i < s.len() && !is_ws(s[i]) {
        lemma_words_from_nonempty(s, i + 1, cur.push(s[i]));
    } else if i < s.len() {
        let rest = words_from(s, i + 1, seq![]);
        assert((seq![cur] + rest).len() > 0);
    }
}

/// A text that opens with a character other than whitespace has a word.
pub proof fn lemma_words_nonempty_public(s: Seq<char>)
    requires
        s.len() > 0,
        !is_ws(s[0]),
    ensures
        words(s).len() > 0,
{
    lemma_words_from_nonempty(s, 1, seq![s[0]]);
}

/// The character of a decimal digit.
pub open spec fn digit_char(d: nat) -> char {
    ((d + 48) as u32) as char
}

/// Decimal rendering of `n`, no sign, no leading zeros.
pub open spec fn decimal(n: nat) -> Seq<char>
    decreases n,
{
    if n < 10 {
        seq![digit_char(n)]
    } else {
        decimal(n / 10).push(digit_char(n % 10))
    }
}

/// Decimal rendering of a signed integer, `-` before negative ones.
pub open spec fn signed_decimal(i: int) -> Seq<char> {
    if i < 0 {
        seq!['-'] + decimal((-i) as nat)
    } else {
        decimal(i as nat)
    }
}

/// `c` is one of `0`..`9`.
pub open spec fn is_digit(c: char) -> bool {
    '0' <= c && c <= '9'
}

/// Why a decimal integer could not be read (`core::num::IntErrorKind`).
#[derive(Debug, Clone, Copy, PartialEq, Eq, Structural)]
pub enum IntErrorKind {
    Empty,
    InvalidDigit,
    PosOverflow,
}

/// `s` without one leading `+`.
pub open spec fn unsigned_body(s: Seq<char>) -> Seq<char> {
    if s.len() > 0 && s[0] == '+' {
        s.drop_first()
    } else {
        s
    }
}

/// Reads the digits of `body` from position `i` on, `acc` being the value read so far:
/// the first non-digit is an invalid digit, a value above `u32::MAX` an overflow.
pub open spec fn scan_u32(body: Seq<char>, i: int, acc: nat) -> Result<u32, IntErrorKind>
    decreases body.len() - i,
{
    if i >= body.len() || i < 0 {
        Ok(acc as u32)
    } else if !is_digit(body[i]) {
        Err(IntErrorKind::InvalidDigit)
    } else if acc * 10 + ((body[i] as u32) - 48) > u32::MAX {
        Err(IntErrorKind::PosOverflow)
    } else {
        scan_u32(body, i + 1, (acc * 10 + ((body[i] as u32) - 48)) as nat)
    }
}

/// What `u32::from_str` gives: an optional `+`, then one or more digits whose value fits.
pub open spec fn parse_u32(s: Seq<char>) -> Result<u32, IntErrorKind> {
    if s.len() == 0 {
        Err(IntErrorKind::Empty)
    } else if s.len() == 1 && s[0] == '+' {
        Err(IntErrorKind::InvalidDigit)
    } else {
        scan_u32(unsigned_body(s), 0, 0)
    }
}

/// The message of a `ParseIntError` of this kind.
pub open spec fn int_error_message(k: IntErrorKind) -> Seq<char> {
    match k {
        IntErrorKind::Empty => "cannot parse integer from empty string"@,
        IntErrorKind::InvalidDigit => "invalid digit found in string"@,
        IntErrorKind::PosOverflow => "number too large to fit in target type"@,
    }
}

proof fn lemma_leading_ws(s: Seq<char>, k: int)
    requires
        0 <= k <= s.len(),
        forall|j: int| 0 <= j < k ==> is_ws(#[trigger] s[j]),
        k == s.len() || !is_ws(s[k]),
    ensures
        leading_ws(s) == k,
    decreases k,
{
    if k > 0 {
        let t = s.drop_first();
        assert forall|j: int| 0 <= j < k - 1 implies is_ws(#[trigger] t[j]) by {
            assert(t[j] == s[j + 1]);
        }
        if k < s.len() {
            assert(t[k - 1] == s[k]);
        }
        lemma_leading_ws(t, k - 1);
    }
}

proof fn lemma_trailing_ws(s: Seq<char>, k: int)
    requires
        0 <= k <= s.len(),
        forall|j: int| s.len() - k <= j < s.len() ==> is_ws(#[trigger] s[j]),
        k == s.len() || !is_ws(s[s.len() - 1 - k]),
    ensures
        trailing_ws(s) == k,
    decreases k,
{
    if k > 0 {
        let t = s.drop_last();
        assert forall|j: int| t.len() - (k - 1) <= j < t.len() implies is_ws(#[trigger] t[j]) by {
            assert(t[j] == s[j]);
        }
        if k < s.len() {
            assert(t[t.len() - 1 - (k - 1)] == s[s.len() - 1 - k]);
        }
        assert(is_ws(s[s.len() - 1]));
        lemma_trailing_ws(t, k - 1);
    }
}

/// A string that neither opens nor closes with whitespace is its own trim.
pub proof fn lemma_trim_fixed(s: Seq<char>)
    requires
        s.len() > 0 ==> !is_ws(s[0]) && !is_ws(s[s.len() - 1]),
    ensures
        trim(s) == s,
{
    if s.len() == 0 {
        lemma_leading_ws(s, 0);
        lemma_trailing_ws(s, 0);
        assert(s.skip(0) =~= s);
        assert(s.take(0) =~= s);
    } else {
        lemma_leading_ws(s, 0);
        assert(s.skip(0) =~= s);
        lemma_trailing_ws(s, 0);
        assert(s.take(s.len() as int) =~= s);
    }
}

/// A trimmed string neither opens nor closes with whitespace, and is a piece of the original.
pub proof fn lemma_trim_ends(s: Seq<char>)
    ensures
        trim(s).len() > 0 ==> !is_ws(trim(s)[0]) && !is_ws(trim(s)[trim(s).len() - 1]),
        trim(s).len() <= s.len(),
{
    let a = leading_ws(s) as int;
    lemma_leading_ws_bounds(s);
    let t = s.skip(a);
    lemma_trailing_ws_bounds(t);
    let u = t.take(t.len() - trailing_ws(t));
    if u.len() > 0 {
        lemma_leading_ws_first(s);
        assert(u[0] == s[a]);
        lemma_trailing_ws_last(t);
        assert(u[u.len() - 1] == t[t.len() - trailing_ws(t) - 1]);
    }
}

/// Trimming twice is trimming once.
pub proof fn lemma_trim_idempotent(s: Seq<char>)
    ensures
        trim(trim(s)) == trim(s),
{
    lemma_trim_ends(s);
    lemma_trim_fixed(trim(s));
}

/// Equality of two strings.
pub fn str_eq(a: &str, b: &str) -> (r: bool)
    ensures
        r == (a@ == b@),
{
    let n = a.unicode_len();
    let m = b.unicode_len();
    if n != m {
        return false;
    }
    let mut i: usize = 0;
    while i < n
        invariant
            n == a@.len(),
            m == b@.len(),
            n == m,
            i <= n,
            forall|k: int| 0 <= k < i ==> a@[k] == b@[k],
        decreases n - i,
    {
        if a.get_char(i) != b.get_char(i) {
            return false;
        }
        i = i + 1;
    }
    assert(a@ =~= b@);
    true
}

proof fn lemma_leading_ws_bounds(s: Seq<char>)
    ensures
        leading_ws(s) <= s.len(),
        forall|j: int| 0 <= j < leading_ws(s) ==> is_ws(#[trigger] s[j]),
    decreases s.len(),
{
    if s.len() > 0 && is_ws(s[0]) {
        let t = s.drop_first();
        lemma_leading_ws_bounds(t);
        assert forall|j: int| 0 <= j < leading_ws(s) implies is_ws(#[trigger] s[j]) by {
            if j > 0 {
                assert(s[j] == t[j - 1]);
            }
        }
    }
}

proof fn lemma_leading_ws_first(s: Seq<char>)
    ensures
        leading_ws(s) < s.len() ==> !is_ws(s[leading_ws(s) as int]),
    decreases s.len(),
{
    if s.len() > 0 && is_ws(s[0]) {
        let t = s.drop_first();
        lemma_leading_ws_first(t);
        if leading_ws(s) < s.len() {
            assert(s[leading_ws(s) as int] == t[leading_ws(t) as int]);
        }
    }
}

proof fn lemma_trailing_ws_bounds(s: Seq<char>)
    ensures
        trailing_ws(s) <= s.len(),
        forall|j: int| s.len() - trailing_ws(s) <= j < s.len() ==> is_ws(#[trigger] s[j]),
    decreases s.len(),
{
    if s.len() > 0 && is_ws(s.last()) {
        let t = s.drop_last();
        lemma_trailing_ws_bounds(t);
        assert forall|j: int| s.len() - trailing_ws(s) <= j < s.len() implies is_ws(
            #[trigger] s[j],
        ) by {
            if j < s.len() - 1 {
                assert(s[j] == t[j]);
            }
        }
    }
}

proof fn lemma_trailing_ws_last(s: Seq<char>)
    ensures
        trailing_ws(s) < s.len() ==> !is_ws(s[s.len() - 1 - trailing_ws(s)]),
    decreases s.len(),
{
    if s.len() > 0 && is_ws(s.last()) {
        let t = s.drop_last();
        lemma_trailing_ws_last(t);
        if trailing_ws(s) < s.len() {
            assert(s[s.len() - 1 - trailing_ws(s)] == t[t.len() - 1 - trailing_ws(t)]);
        }
    }
}

/// The characters of `s`.
pub fn chars_of(s: &str) -> (v: Vec<char>)
    ensures
        v@ == s@,
{
    let n = s.unicode_len();
    let mut v: Vec<char> = Vec::new();
    let mut i: usize = 0;
    while i < n
        invariant
            n == s@.len(),
            i <= n,
            v@ == s@.take(i as int),
        decreases n - i,
    {
        v.push(s.get_char(i));
        i = i + 1;
        assert(v@ =~= s@.take(i as int));
    }
    assert(s@.take(n as int) =~= s@);
    v
}

#[verifier::external_body]
/// `String::push`: appends one character.
pub(crate) fn push_char(s: &mut String, c: char)
    ensures
        final(s)@ == old(s)@.push(c),
{
    s.push(c)
}

/// A string made of the given characters.
pub fn string_of(v: &[char]) -> (r: String)
    ensures
        r@ == v@,
{
    let mut r = String::new();
    let mut i: usize = 0;
    while i < v.len()
        invariant
            i <= v.len(),
            r@ == v@.take(i as int),
        decreases v.len() - i,
    {
        push_char(&mut r, v[i]);
        i = i + 1;
        assert(r@ =~= v@.take(i as int));
    }
    assert(v@.take(v@.len() as int) =~= v@);
    r
}

/// `str::trim`.
pub fn trim_str(s: &str) -> (r: String)
    ensures
        r@ == trim(s@),
{
    let n = s.unicode_len();
    let mut i: usize = 0;
    while i < n && is_whitespace(s.get_char(i))
        invariant
            n == s@.len(),
            i <= n,
            forall|j: int| 0 <= j < i ==> is_ws(#[trigger] s@[j]),
        decreases n - i,
    {
        i = i + 1;
    }
    proof {
        lemma_leading_ws(s@, i as int);
    }
    let mut j: usize = n;
    while j > i && is_whitespace(s.get_char(j - 1))
        invariant
            n == s@.len(),
            i <= j <= n,
            forall|k: int| j <= k < n ==> is_ws(#[trigger] s@[k]),
        decreases j,
    {
        j = j - 1;
    }
    let ghost t = s@.skip(i as int);
    proof {
        assert forall|k: int| t.len() - (n - j) <= k < t.len() implies is_ws(#[trigger] t[k]) by {
            assert(t[k] == s@[k + i]);
        }
        if j > i {
            assert(t[t.len() - 1 - (n - j)] == s@[j - 1]);
        }
        lemma_trailing_ws(t, (n - j) as int);
    }
    let r = String::from_str(s.substring_char(i, j));
    assert(r@ =~= t.take(t.len() - (n - j)));
    r
}

/// `str::starts_with` for a string prefix.
pub fn starts_with(s: &str, p: &str) -> (r: bool)
    ensures
        r == has_prefix(s@, p@),
{
    let n = s.unicode_len();
    let m = p.unicode_len();
    if m > n {
        return false;
    }
    let mut i: usize = 0;
    while i < m
        invariant
            n == s@.len(),
            m == p@.len(),
            m <= n,
            i <= m,
            forall|k: int| 0 <= k < i ==> s@[k] == p@[k],
        decreases m - i,
    {
        if s.get_char(i) != p.get_char(i) {
            assert(s@.take(m as int)[i as int] != p@[i as int]);
            return false;
        }
        i = i + 1;
    }
    assert(s@.take(m as int) =~= p@);
    true
}

/// `str::to_ascii_lowercase`.
pub fn to_ascii_lowercase(s: &str) -> (r: String)
    ensures
        r@ == ascii_lower(s@),
{
    let n = s.unicode_len();
    let mut r = String::new();
    let mut i: usize = 0;
    while i < n
        invariant
            n == s@.len(),
            i <= n,
            r@ == ascii_lower(s@.take(i as int)),
        decreases n - i,
    {
        let c = s.get_char(i);
        let l = if 'A' <= c && c <= 'Z' {
            ((c as u32) + 32) as u8 as char
        } else {
            c
        };
        assert(l == ascii_lower_char(c)) by {
            if 'A' <= c && c <= 'Z' {
                assert(((c as u32) + 32) as u8 as char == ((c as u32) + 32) as char);
            }
        }
        push_char(&mut r, l);
        i = i + 1;
        assert(ascii_lower(s@.take(i as int)) =~= ascii_lower(s@.take(i - 1 as int)).push(l));
    }
    assert(s@.take(n as int) =~= s@);
    r
}

/// `str::split_whitespace`, collected.
pub fn split_words(s: &str) -> (r: Vec<String>)
    ensures
        r@.map_values(|w: String| w@) == words(s@),
{
    let n = s.unicode_len();
    let mut r: Vec<String> = Vec::new();
    let mut cur: Vec<char> = Vec::new();
    let mut i: usize = 0;
    while i < n
        invariant
            n == s@.len(),
            i <= n,
            r@.map_values(|w: String| w@) + words_from(s@, i as int, cur@) == words(s@),
        decreases n - i,
    {
        let c = s.get_char(i);
        if is_whitespace(c) {
            if cur.len() > 0 {
                let w = string_of(cur.as_slice());
                let ghost old_r = r@;
                r.push(w);
                assert(r@.map_values(|w: String| w@) =~= old_r.map_values(|w: String| w@).push(
                    cur@,
                ));
                cur = Vec::new();
            }
            proof {
                assert(cur@ =~= seq![]);
            }
        } else {
            cur.push(c);
        }
        i = i + 1;
    }
    if cur.len() > 0 {
        let w = string_of(cur.as_slice());
        let ghost old_r = r@;
        r.push(w);
        assert(r@.map_values(|w: String| w@) =~= old_r.map_values(|w: String| w@).push(cur@));
    }
    r
}

/// The character of digit `d`.
pub fn digit_to_char(d: u64) -> (c: char)
    requires
        d < 10,
    ensures
        c == digit_char(d as nat),
{
    match d {
        0 => '0',
        1 => '1',
        2 => '2',
        3 => '3',
        4 => '4',
        5 => '5',
        6 => '6',
        7 => '7',
        8 => '8',
        _ => '9',
    }
}

/// Decimal rendering of `n` (`u64::to_string`).
pub fn decimal_string(n: u64) -> (r: String)
    ensures
        r@ == decimal(n as nat),
    decreases n,
{
    if n < 10 {
        let mut r = String::new();
        push_char(&mut r, digit_to_char(n));
        assert(r@ =~= seq![digit_char(n as nat)]);
        r
    } else {
        let mut r = decimal_string(n / 10);
        push_char(&mut r, digit_to_char(n % 10));
        r
    }
}

/// `u32::from_str`.
pub fn parse_u32_str(s: &str) -> (r: Result<u32, IntErrorKind>)
    ensures
        r == parse_u32(s@),
{
    let chars = chars_of(s);
    let n = chars.len();
    if n == 0 {
        return Err(IntErrorKind::Empty);
    }
    if n == 1 && chars[0] == '+' {
        return Err(IntErrorKind::InvalidDigit);
    }
    let start: usize = if chars[0] == '+' {
        1
    } else {
        0
    };
    let ghost body = unsigned_body(s@);
    assert(body =~= chars@.skip(start as int));
    let mut acc: u64 = 0;
    let mut i: usize = start;
    while i < n
        invariant
            chars@ == s@,
            n == chars@.len(),
            start <= i <= n,
            body == chars@.skip(start as int),
            acc <= u32::MAX,
            body == unsigned_body(s@),
            s@.len() > 0,
            !(s@.len() == 1 && s@[0] == '+'),
            scan_u32(body, 0, 0) == scan_u32(body, i - start, acc as nat),
        decreases n - i,
    {
        let c = chars[i];
        assert(body[i - start] == c);
        let ghost k = (i - start) as int;
        if !('0' <= c && c <= '9') {
            assert(scan_u32(body, k, acc as nat) == Err::<u32, IntErrorKind>(IntErrorKind::InvalidDigit));
            return Err(IntErrorKind::InvalidDigit);
        }
        let d = (c as u32 - 48) as u64;
        assert(d == (body[k] as u32) - 48);
        let next = acc * 10 + d;
        if next > 0xffff_ffff {
            assert(scan_u32(body, k, acc as nat) == Err::<u32, IntErrorKind>(IntErrorKind::PosOverflow));
            return Err(IntErrorKind::PosOverflow);
        }
        assert(scan_u32(body, k, acc as nat) == scan_u32(body, k + 1, next as nat));
        acc = next;
        i = i + 1;
    }
    Ok(acc as u32)
}

/// The text of a `ParseIntError`.
pub fn int_error_text(k: IntErrorKind) -> (r: String)
    ensures
        r@ == int_error_message(k),
{
    match k {
        IntErrorKind::Empty => String::from_str("cannot parse integer from empty string"),
        IntErrorKind::InvalidDigit => String::from_str("invalid digit found in string"),
        IntErrorKind::PosOverflow => String::from_str("number too large to fit in target type"),
    }
}

/// Decimal rendering of `n` (`i64::to_string`).
pub fn signed_decimal_string(n: i64) -> (r: String)
    ensures
        r@ == signed_decimal(n as int),
{
    if n < 0 {
        let magnitude: u64 = ((-(n + 1)) as u64) + 1;
        let mut r = String::from_str("-");
        r.append(decimal_string(magnitude).as_str());
        proof {
            reveal_strlit("-");
        }
        r
    } else {
        decimal_string(n as u64)
    }
}

/// Lexicographic order of character sequences by code point; for strings
/// this is the order of `str`'s `Ord`, which compares the UTF-8 bytes.
pub open spec fn seq_lt(a: Seq<char>, b: Seq<char>) -> bool
    decreases a.len(),
{
    if a.len() == 0 {
        b.len() > 0
    } else if b.len() == 0 {
        false
    } else if a[0] != b[0] {
        (a[0] as u32) < (b[0] as u32)
    } else {
        seq_lt(a.drop_first(), b.drop_first())
    }
}

/// Characters with the same code point are the same.
pub proof fn lemma_char_code(a: char, b: char)
    ensures
        (a as u32) == (b as u32) ==> a == b,
{
}

/// No sequence comes before itself.
pub proof fn lemma_seq_lt_irreflexive(a: Seq<char>)
    ensures
        !seq_lt(a, a),
    decreases a.len(),
{
    if a.len() > 0 {
        lemma_seq_lt_irreflexive(a.drop_first());
    }
}

/// The order is transitive.
pub proof fn lemma_seq_lt_transitive(a: Seq<char>, b: Seq<char>, c: Seq<char>)
    requires
        seq_lt(a, b),
        seq_lt(b, c),
    ensures
        seq_lt(a, c),
    decreases a.len(),
{
    if a.len() > 0 && b.len() > 0 && c.len() > 0 {
        if a[0] == b[0] && b[0] == c[0] {
            lemma_seq_lt_transitive(a.drop_first(), b.drop_first(), c.drop_first());
        }
    }
}

/// Two different sequences are ordered one way or the other.
pub proof fn lemma_seq_lt_total(a: Seq<char>, b: Seq<char>)
    requires
        a != b,
    ensures
        seq_lt(a, b) || seq_lt(b, a),
    decreases a.len(),
{
    if a.len() > 0 && b.len() > 0 {
        if a[0] == b[0] {
            if a.drop_first() == b.drop_first() {
                assert(a =~= seq![a[0]] + a.drop_first());
                assert(b =~= seq![b[0]] + b.drop_first());
            }
            lemma_seq_lt_total(a.drop_first(), b.drop_first());
        } else {
            lemma_char_code(a[0], b[0]);
        }
    } else if a.len() == 0 && b.len() == 0 {
        assert(a =~= b);
    }
}

/// Decides `seq_lt`.
pub fn str_lt(a: &str, b: &str) -> (r: bool)
    ensures
        r == seq_lt(a@, b@),
{
    let ac = chars_of(a);
    let bc = chars_of(b);
    let mut i: usize = 0;
    assert(a@.skip(0) =~= a@);
    assert(b@.skip(0) =~= b@);
    while i < ac.len() && i < bc.len()
        invariant
            ac@ == a@,
            bc@ == b@,
            i <= ac@.len(),
            i <= bc@.len(),
            seq_lt(a@, b@) == seq_lt(a@.skip(i as int), b@.skip(i as int)),
        decreases ac@.len() - i,
    {
        let x = ac[i];
        let y = bc[i];
        assert(a@.skip(i as int)[0] == x && b@.skip(i as int)[0] == y);
        if x != y {
            return (x as u32) < (y as u32);
        }
        assert(a@.skip(i as int).drop_first() =~= a@.skip(i + 1));
        assert(b@.skip(i as int).drop_first() =~= b@.skip(i + 1));
        i = i + 1;
    }
    if i < bc.len() {
        assert(a@.skip(i as int).len() == 0);
        true
    } else {
        false
    }
}

/// Each string comes before every later one.
pub open spec fn strictly_sorted_strs(v: Seq<Seq<char>>) -> bool {
    forall|i: int, j: int| 0 <= i < j < v.len() ==> seq_lt(#[trigger] v[i], #[trigger] v[j])
}

/// Adds `s` to a sorted list of strings unless it is there already.
pub fn insert_sorted_str(v: &mut Vec<String>, s: String)
    requires
        strictly_sorted_strs(string_views(old(v)@)),
    ensures
        strictly_sorted_strs(string_views(final(v)@)),
        forall|x: Seq<char>| #[trigger] string_views(final(v)@).contains(x) == (string_views(old(v)@).contains(x) || x == s@),
{
    let ghost before = string_views(v@);
    let ghost sv = s@;
    let mut i: usize = 0;
    while i < v.len()
        invariant
            string_views(v@) == before,
            i <= v@.len(),
            forall|k: int| 0 <= k < i ==> seq_lt(#[trigger] before[k], sv),
            sv == s@,
        ensures
            string_views(v@) == before,
            i <= v@.len(),
            forall|k: int| 0 <= k < i ==> seq_lt(#[trigger] before[k], sv),
            i < v@.len() ==> !seq_lt(before[i as int], sv),
        decreases v@.len() - i,
    {
        assert(before[i as int] == v@[i as int]@);
        if !str_lt(v[i].as_str(), s.as_str()) {
            break;
        }
        i = i + 1;
    }
    if i < v.len() && str_eq(v[i].as_str(), s.as_str()) {
        assert(before[i as int] == sv);
        assert forall|x: Seq<char>| #[trigger] string_views(v@).contains(x) == (before.contains(x) || x == sv) by {
            if x == sv {
                assert(before[i as int] == x);
            }
        }
        return;
    }
    proof {
        if i < v@.len() {
            assert(before[i as int] == v@[i as int]@);
            lemma_seq_lt_total(before[i as int], sv);
        }
    }
    v.insert(i, s);
    proof {
        let after = string_views(v@);
        assert(after =~= before.insert(i as int, sv));
        assert forall|a: int, b: int| 0 <= a < b < after.len() implies seq_lt(#[trigger] after[a], #[trigger] after[b]) by {
            if b < i {
            } else if b == i {
            } else if a < i {
                assert(after[b] == before[b - 1]);
                if b - 1 > i {
                    lemma_seq_lt_transitive(sv, before[i as int], before[b - 1]);
                }
                lemma_seq_lt_transitive(before[a], sv, before[b - 1]);
            } else if a == i {
                assert(after[b] == before[b - 1]);
                if b - 1 > i {
                    lemma_seq_lt_transitive(sv, before[i as int], before[b - 1]);
                }
            } else {
                assert(after[a] == before[a - 1] && after[b] == before[b - 1]);
            }
        }
        assert forall|x: Seq<char>| #[trigger] after.contains(x) == (before.contains(x) || x == sv) by {
            if after.contains(x) {
                let k = choose|k: int| 0 <= k < after.len() && after[k] == x;
                if k < i {
                    assert(before[k] == x);
                } else if k > i {
                    assert(before[k - 1] == x);
                }
            }
            if before.contains(x) {
                let k = choose|k: int| 0 <= k < before.len() && before[k] == x;
                if k < i {
                    assert(after[k] == x);
                } else {
                    assert(after[k + 1] == x);
                }
            }
            if x == sv {
                assert(after[i as int] == x);
            }
        }
    }
}

/// Two strictly sorted sequences with the same items are equal.
pub proof fn lemma_sorted_unique(a: Seq<Seq<char>>, b: Seq<Seq<char>>)
    requires
        strictly_sorted_strs(a),
        strictly_sorted_strs(b),
        forall|x: Seq<char>| #[trigger] a.contains(x) == b.contains(x),
    ensures
        a == b,
    decreases a.len(),
{
    if a.len() == 0 {
        if b.len() > 0 {
            assert(b.contains(b[0]));
            assert(!a.contains(b[0]));
        }
        assert(a =~= b);
    } else {
        assert(a.contains(a[0]));
        assert(b.contains(a[0]));
        assert(b.len() > 0);
        assert(b.contains(b[0]));
        assert(a.contains(b[0]));
        let j = choose|j: int| 0 <= j < b.len() && b[j] == a[0];
        let i = choose|i: int| 0 <= i < a.len() && a[i] == b[0];
        if j > 0 {
            assert(seq_lt(b[0], b[j]));
            if i > 0 {
                assert(seq_lt(a[0], a[i]));
                lemma_seq_lt_transitive(b[0], a[0], b[0]);
            }
            lemma_seq_lt_irreflexive(b[0]);
        }
        assert(a[0] == b[0]);
        let ta = a.drop_first();
        let tb = b.drop_first();
        assert forall|x: Seq<char>| #[trigger] ta.contains(x) == tb.contains(x) by {
            if ta.contains(x) {
                let k = choose|k: int| 0 <= k < ta.len() && ta[k] == x;
                assert(a[k + 1] == x);
                assert(seq_lt(a[0], a[k + 1]));
                assert(a.contains(x));
                assert(b.contains(x));
                let l = choose|l: int| 0 <= l < b.len() && b[l] == x;
                if l == 0 {
                    lemma_seq_lt_irreflexive(x);
                }
                assert(tb[l - 1] == x);
            }
            if tb.contains(x) {
                let k = choose|k: int| 0 <= k < tb.len() && tb[k] == x;
                assert(b[k + 1] == x);
                assert(seq_lt(b[0], b[k + 1]));
                assert(b.contains(x));
                assert(a.contains(x));
                let l = choose|l: int| 0 <= l < a.len() && a[l] == x;
                if l == 0 {
                    lemma_seq_lt_irreflexive(x);
                }
                assert(ta[l - 1] == x);
            }
        }
        lemma_sorted_unique(ta, tb);
        assert(a =~= seq![a[0]] + ta);
        assert(b =~= seq![b[0]] + tb);
    }
}

/// The strictly sorted sequence holding the items of `s` (what sorting a
/// list without repeats gives).
pub open spec fn sorted_of(s: Seq<Seq<char>>) -> Seq<Seq<char>> {
    choose|v: Seq<Seq<char>>| strictly_sorted_strs(v) && forall|x: Seq<char>| #[trigger] v.contains(x) == s.contains(x)
}

/// A strictly sorted sequence with the items of `s` is `sorted_of(s)`.
pub proof fn lemma_sorted_of(v: Seq<Seq<char>>, s: Seq<Seq<char>>)
    requires
        strictly_sorted_strs(v),
        forall|x: Seq<char>| #[trigger] v.contains(x) == s.contains(x),
    ensures
        sorted_of(s) == v,
{
    let w = sorted_of(s);
    assert(strictly_sorted_strs(w) && forall|x: Seq<char>| #[trigger] w.contains(x) == s.contains(x));
    lemma_sorted_unique(v, w);
}

/// Reads the digits of `body` from position `i` on, `acc` being the value
/// read so far: the first non-digit is an invalid digit, a value above `max`
/// an overflow.
pub open spec fn scan_bounded(body: Seq<char>, i: int, acc: nat, max: nat) -> Result<nat, IntErrorKind>
    decreases body.len() - i,
{
    if i >= body.len() || i < 0 {
        Ok(acc)
    } else if !is_digit(body[i]) {
        Err(IntErrorKind::InvalidDigit)
    } else if acc * 10 + ((body[i] as u32) - 48) > max {
        Err(IntErrorKind::PosOverflow)
    } else {
        scan_bounded(body, i + 1, (acc * 10 + ((body[i] as u32) - 48)) as nat, max)
    }
}

/// What `usize::from_str` gives: an optional `+`, then one or more digits
/// whose value fits.
pub open spec fn parse_usize(s: Seq<char>) -> Result<nat, IntErrorKind> {
    if s.len() == 0 {
        Err(IntErrorKind::Empty)
    } else if s.len() == 1 && s[0] == '+' {
        Err(IntErrorKind::InvalidDigit)
    } else {
        scan_bounded(unsigned_body(s), 0, 0, usize::MAX as nat)
    }
}

/// `usize::from_str`.
pub fn parse_usize_str(s: &str) -> (r: Result<usize, IntErrorKind>)
    ensures
        match parse_usize(s@) {
            Ok(n) => r == Ok::<usize, IntErrorKind>(n as usize) && n <= usize::MAX,
            Err(e) => r == Err::<usize, IntErrorKind>(e),
        },
{
    let chars = chars_of(s);
    let n = chars.len();
    if n == 0 {
        return Err(IntErrorKind::Empty);
    }
    if n == 1 && chars[0] == '+' {
        return Err(IntErrorKind::InvalidDigit);
    }
    let start: usize = if chars[0] == '+' {
        1
    } else {
        0
    };
    let ghost body = unsigned_body(s@);
    assert(body =~= chars@.skip(start as int));
    let mut acc: usize = 0;
    let mut i: usize = start;
    while i < n
        invariant
            chars@ == s@,
            n == chars@.len(),
            start <= i <= n,
            body == chars@.skip(start as int),
            body == unsigned_body(s@),
            s@.len() > 0,
            !(s@.len() == 1 && s@[0] == '+'),
            scan_bounded(body, 0, 0, usize::MAX as nat) == scan_bounded(body, i - start, acc as nat, usize::MAX as nat),
        decreases n - i,
    {
        let c = chars[i];
        assert(body[i - start] == c);
        let ghost k = (i - start) as int;
        if !('0' <= c && c <= '9') {
            return Err(IntErrorKind::InvalidDigit);
        }
        let d = (c as u32 - 48) as usize;
        assert(d == (body[k] as u32) - 48);
        if acc > (usize::MAX - d) / 10 {
            assert(acc * 10 + d > usize::MAX) by (nonlinear_arith)
                requires
                    acc > (usize::MAX - d) / 10,
                    d <= 9,
            ;
            return Err(IntErrorKind::PosOverflow);
        }
        assert(acc * 10 + d <= usize::MAX) by (nonlinear_arith)
            requires
                acc <= (usize::MAX - d) / 10,
                d <= 9,
        ;
        let next = acc * 10 + d;
        assert(scan_bounded(body, k, acc as nat, usize::MAX as nat) == scan_bounded(body, k + 1, next as nat, usize::MAX as nat));
        acc = next;
        i = i + 1;
    }
    Ok(acc)
}

/// A line without the `\r` that ended it before its newline.
pub open spec fn strip_cr(l: Seq<char>) -> Seq<char> {
    if l.len() > 0 && l.last() == '\r' {
        l.drop_last()
    } else {
        l
    }
}

/// The lines of `s` (`str::lines`): the pieces between newlines, each
/// without a `\r` before its newline; a final empty piece is no line.
pub open spec fn lines(s: Seq<char>) -> Seq<Seq<char>> {
    let p = split_on(s, '\n');
    let init = p.drop_last().map_values(|l: Seq<char>| strip_cr(l));
    if p.last().len() == 0 {
        init
    } else {
        init.push(p.last())
    }
}

/// Splits `s` into `lines`.
pub fn lines_of(s: &str) -> (r: Vec<String>)
    ensures
        string_views(r@) == lines(s@),
{
    let pieces = split_str(s, '\n');
    proof {
        lemma_split_on_nonempty(s@, '\n');
    }
    let ghost p = split_on(s@, '\n');
    let n = pieces.len();
    let mut r: Vec<String> = Vec::new();
    let mut i: usize = 0;
    while i + 1 < n
        invariant
            string_views(pieces@) == p,
            p == split_on(s@, '\n'),
            n == p.len(),
            n >= 1,
            i + 1 <= n,
            string_views(r@) == p.drop_last().take(i as int).map_values(|l: Seq<char>| strip_cr(l)),
        decreases n - i,
    {
        let piece = pieces[i].as_str();
        let cs = chars_of(piece);
        let m = cs.len();
        let line = if m > 0 && cs[m - 1] == '\r' {
            string_of(vstd::slice::slice_subrange(cs.as_slice(), 0, m - 1))
        } else {
            string_of(cs.as_slice())
        };
        assert(line@ =~= strip_cr(p[i as int]));
        let ghost before = string_views(r@);
        r.push(line);
        assert(string_views(r@) =~= before.push(strip_cr(p[i as int])));
        assert(p.drop_last().take(i + 1) =~= p.drop_last().take(i as int).push(p[i as int]));
        i = i + 1;
    }
    assert(p.drop_last().take(i as int) =~= p.drop_last());
    let last = &pieces[n - 1];
    if last.unicode_len() > 0 {
        let ghost before = string_views(r@);
        r.push(last.clone());
        assert(string_views(r@) =~= before.push(p.last()));
    }
    r
}

/// The strings concatenated.
pub open spec fn concat(ss: Seq<Seq<char>>) -> Seq<char>
    decreases ss.len(),
{
    if ss.len() == 0 {
        Seq::empty()
    } else {
        concat(ss.drop_last()) + ss.last()
    }
}

} // verus!
