//! The output of a spectral compilation: the file that collects the items
//! of one class, and its name.
use vstd::prelude::*;
use crate::text;

verus! {

/// `s` with every trailing repetition of `p` removed
/// (`str::trim_end_matches` with a string pattern).
pub open spec fn trim_end_all(s: Seq<char>, p: Seq<char>) -> Seq<char>
    decreases s.len(),
{
    if p.len() > 0 && text::has_suffix(s, p) {
        trim_end_all(s.take(s.len() - p.len()), p)
    } else {
        s
    }
}

/// Removes every trailing repetition of `p` from `s`.
pub fn trim_end_matches_str(s: &str, p: &str) -> (r: String)
    ensures
        r@ == trim_end_all(s@, p@),
{
    let m = p.unicode_len();
    let mut end = s.unicode_len();
    let mut cur = String::from_str(s);
    if m == 0 {
        return cur;
    }
    while text::ends_with(cur.as_str(), p)
        invariant
            m == p@.len(),
            m > 0,
            end == cur@.len(),
            trim_end_all(cur@, p@) == trim_end_all(s@, p@),
        decreases end,
    {
        let next = String::from_str(cur.as_str().substring_char(0, end - m));
        assert(next@ =~= cur@.take(cur@.len() - m));
        end = end - m;
        cur = next;
    }
    cur
}

/// The name of the file that collects the items of class `class` from
/// `input`: the input without its `.rs` endings, then `.<class>.rs`.
pub open spec fn output_file_name(input: Seq<char>, class: Seq<char>) -> Seq<char> {
    trim_end_all(input, ".rs"@) + "."@ + class + ".rs"@
}

/// Builds `output_file_name`.
pub fn spectral_output_name(input_file: &str, target_class: &str) -> (r: String)
    ensures
        r@ == output_file_name(input_file@, target_class@),
{
    let mut r = trim_end_matches_str(input_file, ".rs");
    r.append(".");
    r.append(target_class);
    r.append(".rs");
    r
}

/// The items, each under a numbered heading and followed by a blank line.
pub open spec fn items_text(items: Seq<Seq<char>>) -> Seq<char>
    decreases items.len(),
{
    if items.len() == 0 {
        Seq::empty()
    } else {
        items_text(items.drop_last()) + "// === Item "@ + text::decimal(items.len()) + " ===\n"@ + items.last()
            + "\n\n"@
    }
}

/// The collected file: a header naming the class and the number of items,
/// then the items.
pub open spec fn filtered_file_text(items: Seq<Seq<char>>, class: Seq<char>) -> Seq<char> {
    "// Spectral compilation output\n"@ + "// Filter class: "@ + class + "\n"@ + "// Generated items: "@
        + text::decimal(items.len()) + "\n\n"@ + items_text(items)
}

/// Builds `filtered_file_text`.
pub fn filtered_file_content(items: &Vec<String>, target_class: &str) -> (r: String)
    ensures
        r@ == filtered_file_text(text::string_views(items@), target_class@),
{
    let ghost all = text::string_views(items@);
    let mut r = String::from_str("// Spectral compilation output\n// Filter class: ");
    r.append(target_class);
    r.append("\n// Generated items: ");
    r.append(text::decimal_string(items.len() as u64).as_str());
    r.append("\n\n");
    let ghost head = r@;
    proof {
        reveal_strlit("// Spectral compilation output\n// Filter class: ");
        reveal_strlit("// Spectral compilation output\n");
        reveal_strlit("// Filter class: ");
        reveal_strlit("\n// Generated items: ");
        reveal_strlit("\n");
        reveal_strlit("// Generated items: ");
        assert(head =~= "// Spectral compilation output\n"@ + "// Filter class: "@ + target_class@ + "\n"@
            + "// Generated items: "@ + text::decimal(all.len()) + "\n\n"@);
    }
    let mut i: usize = 0;
    assert(r@ =~= head + items_text(all.take(0)));
    while i < items.len()
        invariant
            all == text::string_views(items@),
            i <= all.len(),
            r@ == head + items_text(all.take(i as int)),
        decreases all.len() - i,
    {
        r.append("// === Item ");
        r.append(text::decimal_string((i + 1) as u64).as_str());
        r.append(" ===\n");
        r.append(items[i].as_str());
        r.append("\n\n");
        assert(all.take(i + 1).drop_last() =~= all.take(i as int));
        assert(all.take(i + 1).last() == items@[i as int]@);
        assert(r@ =~= head + items_text(all.take(i + 1)));
        i = i + 1;
    }
    assert(all.take(all.len() as int) =~= all);
    r
}

} // verus!
