//! Character-level text utilities.
//!
//! Every function here works on the `Seq<char>` view of `&str` / `String`,
//! so that the textual rules of the transpiler and bundler can be stated and
//! proved exactly.

use vstd::prelude::*;

verus! {

/// Whether `pre` is a prefix of `s`.
pub open spec fn spec_starts_with(s: Seq<char>, pre: Seq<char>) -> bool {
    pre.is_prefix_of(s)
}

/// Whether `needle` occurs in `s` at position `i`.
pub open spec fn occurs_at(s: Seq<char>, needle: Seq<char>, i: int) -> bool {
    0 <= i && i + needle.len() <= s.len() && s.subrange(i, i + needle.len()) == needle
}

/// The first position at or after `from` where `needle` occurs in `s`.
pub open spec fn spec_find_from(s: Seq<char>, needle: Seq<char>, from: int) -> Option<int>
    decreases s.len() - from,
{
    if from < 0 || from + needle.len() > s.len() {
        None
    } else if needle.len() == 0 {
        Some(from)
    } else if occurs_at(s, needle, from) {
        Some(from)
    } else {
        spec_find_from(s, needle, from + 1)
    }
}

/// Whether `needle` occurs anywhere in `s`.
pub open spec fn spec_contains(s: Seq<char>, needle: Seq<char>) -> bool {
    spec_find_from(s, needle, 0) is Some
}

/// Equality of two strings, decided character by character.
pub fn str_eq(a: &str, b: &str) -> (r: bool)
    ensures
        r <==> a@ == b@,
{
    let alen = a.unicode_len();
    let blen = b.unicode_len();
    if alen != blen {
        assert(a@.len() != b@.len());
        return false;
    }
    let mut i: usize = 0;
    while i < alen
        invariant
            0 <= i <= alen,
            alen == a@.len(),
            alen == b@.len(),
            forall|j: int| 0 <= j < i ==> a@[j] == b@[j],
        decreases alen - i,
    {
        if a.get_char(i) != b.get_char(i) {
            return false;
        }
        i += 1;
    }
    proof {
        assert(a@ =~= b@);
    }
    true
}

/// Whether `s` starts with `pre`, at character granularity.
pub fn starts_with(s: &str, pre: &str) -> (r: bool)
    ensures
        r <==> spec_starts_with(s@, pre@),
{
    let slen = s.unicode_len();
    let plen = pre.unicode_len();
    if plen > slen {
        return false;
    }
    let mut i: usize = 0;
    while i < plen
        invariant
            0 <= i <= plen,
            plen == pre@.len(),
            slen == s@.len(),
            plen <= slen,
            forall|j: int| 0 <= j < i ==> s@[j] == pre@[j],
        decreases plen - i,
    {
        if s.get_char(i) != pre.get_char(i) {
            return false;
        }
        i += 1;
    }
    proof {
        assert(pre@ =~= s@.subrange(0, pre@.len() as int));
    }
    true
}

/// Whether `needle` occurs at position `at` of `s`.
fn occurs_at_exec(s: &str, needle: &str, at: usize) -> (r: bool)
    requires
        at + needle@.len() <= s@.len(),
    ensures
        r <==> occurs_at(s@, needle@, at as int),
{
    let slen = s.unicode_len();
    let nlen = needle.unicode_len();
    let mut i: usize = 0;
    while i < nlen
        invariant
            0 <= i <= nlen,
            nlen == needle@.len(),
            slen == s@.len(),
            at + nlen <= slen,
            forall|j: int| 0 <= j < i ==> s@[at + j] == needle@[j],
        decreases nlen - i,
    {
        if s.get_char(at + i) != needle.get_char(i) {
            assert(!occurs_at(s@, needle@, at as int)) by {
                assert(s@.subrange(at as int, at + needle@.len())[i as int] == s@[at + i]);
            }
            return false;
        }
        i += 1;
    }
    proof {
        assert(s@.subrange(at as int, at + needle@.len()) =~= needle@);
    }
    true
}

/// The first occurrence of `needle` in `s` at or after `from`.
pub fn find_from(s: &str, needle: &str, from: usize) -> (r: Option<usize>)
    ensures
        match r {
            Some(i) => spec_find_from(s@, needle@, from as int) == Some(i as int) && from <= i && i
                + needle@.len() <= s@.len(),
            None => spec_find_from(s@, needle@, from as int) is None,
        },
{
    let slen = s.unicode_len();
    let nlen = needle.unicode_len();
    if from > slen || nlen > slen - from {
        return None;
    }
    if nlen == 0 {
        return Some(from);
    }
    let mut i: usize = from;
    while i <= slen - nlen
        invariant
            from <= i <= slen - nlen + 1,
            0 < nlen <= slen,
            slen == s@.len(),
            nlen == needle@.len(),
            spec_find_from(s@, needle@, from as int) == spec_find_from(s@, needle@, i as int),
        decreases slen - i,
    {
        if occurs_at_exec(s, needle, i) {
            return Some(i);
        }
        i += 1;
    }
    None
}

/// Whether `needle` occurs anywhere in `s`.
pub fn contains_str(s: &str, needle: &str) -> (r: bool)
    ensures
        r <==> spec_contains(s@, needle@),
{
    find_from(s, needle, 0).is_some()
}

/// Whether `suf` is a suffix of `s`.
pub open spec fn spec_ends_with(s: Seq<char>, suf: Seq<char>) -> bool {
    suf.is_suffix_of(s)
}

/// Whether `s` ends with `suf`, at character granularity.
pub fn ends_with(s: &str, suf: &str) -> (r: bool)
    ensures
        r <==> spec_ends_with(s@, suf@),
{
    let slen = s.unicode_len();
    let flen = suf.unicode_len();
    if flen > slen {
        return false;
    }
    let mut i: usize = 0;
    while i < flen
        invariant
            0 <= i <= flen,
            flen == suf@.len(),
            slen == s@.len(),
            flen <= slen,
            forall|j: int| 0 <= j < i ==> s@[slen - flen + j] == suf@[j],
        decreases flen - i,
    {
        if s.get_char(slen - flen + i) != suf.get_char(i) {
            proof {
                assert(s@.subrange(s@.len() - suf@.len(), s@.len() as int)[i as int] == s@[slen
                    - flen + i]);
            }
            return false;
        }
        i += 1;
    }
    proof {
        assert(suf@ =~= s@.subrange(s@.len() - suf@.len(), s@.len() as int));
    }
    true
}

/// The whitespace characters that line trimming removes.
pub open spec fn is_ws_char(c: char) -> bool {
    c == ' ' || c == '\t' || c == '\r' || c == '\n' || c == '\u{b}' || c == '\u{c}'
}

/// `s` without leading whitespace.
pub open spec fn spec_trim_start(s: Seq<char>) -> Seq<char>
    decreases s.len(),
{
    if s.len() == 0 {
        s
    } else if is_ws_char(s[0]) {
        spec_trim_start(s.subrange(1, s.len() as int))
    } else {
        s
    }
}

/// `s` without trailing whitespace.
pub open spec fn spec_trim_end(s: Seq<char>) -> Seq<char>
    decreases s.len(),
{
    if s.len() == 0 {
        s
    } else if is_ws_char(s[s.len() - 1]) {
        spec_trim_end(s.subrange(0, s.len() - 1))
    } else {
        s
    }
}

/// `s` without leading or trailing whitespace.
pub open spec fn spec_trim(s: Seq<char>) -> Seq<char> {
    spec_trim_end(spec_trim_start(s))
}

/// Exec trimming of leading whitespace.
fn trim_start_str(s: &str) -> (r: String)
    ensures
        r@ == spec_trim_start(s@),
    decreases s@.len(),
{
    let slen = s.unicode_len();
    if slen == 0 {
        return s.to_owned();
    }
    let c = s.get_char(0);
    if c == ' ' || c == '\t' || c == '\r' || c == '\n' || c == '\u{b}' || c == '\u{c}' {
        let tail = s.substring_char(1, slen);
        trim_start_str(tail)
    } else {
        s.to_owned()
    }
}

/// Exec trimming of trailing whitespace.
fn trim_end_str(s: &str) -> (r: String)
    ensures
        r@ == spec_trim_end(s@),
    decreases s@.len(),
{
    let slen = s.unicode_len();
    if slen == 0 {
        return s.to_owned();
    }
    let c = s.get_char(slen - 1);
    if c == ' ' || c == '\t' || c == '\r' || c == '\n' || c == '\u{b}' || c == '\u{c}' {
        let head = s.substring_char(0, slen - 1);
        trim_end_str(head)
    } else {
        s.to_owned()
    }
}

/// `s` without leading or trailing whitespace, as the original text has it.
pub fn trim_str(s: &str) -> (r: String)
    ensures
        r@ == spec_trim(s@),
{
    let t = trim_start_str(s);
    trim_end_str(t.as_str())
}

/// A line segment with one trailing carriage return removed.
pub open spec fn strip_cr(line: Seq<char>) -> Seq<char> {
    if line.len() > 0 && line[line.len() - 1] == '\r' {
        line.subrange(0, line.len() - 1)
    } else {
        line
    }
}

/// The lines of `s`: split at `'\n'`, with a carriage return before each
/// newline removed and no empty line after a final newline.
pub open spec fn spec_lines(s: Seq<char>) -> Seq<Seq<char>>
    decreases s.len(),
    via spec_lines_dec
{
    if s.len() == 0 {
        Seq::empty()
    } else {
        match spec_find_from(s, seq!['\n'], 0) {
            None => seq![s],
            Some(i) => {
                let head = strip_cr(s.subrange(0, i));
                if i + 1 == s.len() {
                    seq![head]
                } else {
                    seq![head] + spec_lines(s.subrange(i + 1, s.len() as int))
                }
            },
        }
    }
}

#[via_fn]
proof fn spec_lines_dec(s: Seq<char>) {
    lemma_find_is_occurrence(s, seq!['\n'], 0);
}

/// Splits `s` into its lines.
pub fn split_lines(s: &str) -> (r: Vec<String>)
    ensures
        r@.len() == spec_lines(s@).len(),
        forall|i: int| 0 <= i < r@.len() ==> r@[i]@ == spec_lines(s@)[i],
    decreases s@.len(),
{
    let slen = s.unicode_len();
    let mut result: Vec<String> = Vec::new();
    proof {
        reveal_strlit("\n");
        assert("\n"@ =~= seq!['\n']);
    }
    if slen == 0 {
        return result;
    }
    match find_from(s, "\n", 0) {
        None => {
            result.push(s.to_owned());
            result
        },
        Some(i) => {
            let ghost whole = spec_lines(s@);
            let head = if i > 0 && s.get_char(i - 1) == '\r' {
                s.substring_char(0, i - 1)
            } else {
                s.substring_char(0, i)
            };
            proof {
                if i > 0 && s@[i as int - 1] == '\r' {
                    assert(s@.subrange(0, i as int).subrange(0, i as int - 1) =~= s@.subrange(
                        0,
                        i as int - 1,
                    ));
                }
                assert(head@ == strip_cr(s@.subrange(0, i as int)));
            }
            result.push(head.to_owned());
            if i + 1 < slen {
                let tail = s.substring_char(i + 1, slen);
                let mut rest = split_lines(tail);
                let ghost rest0 = rest@;
                proof {
                    assert(whole == seq![strip_cr(s@.subrange(0, i as int))] + spec_lines(tail@));
                }
                result.append(&mut rest);
                proof {
                    assert forall|j: int| 0 <= j < result@.len() implies result@[j]@ == whole[j] by {
                        if j > 0 {
                            assert(result@[j] == rest0[j - 1]);
                            assert(whole[j] == spec_lines(tail@)[j - 1]);
                        }
                    }
                }
            } else {
                proof {
                    assert(whole == seq![strip_cr(s@.subrange(0, i as int))]);
                }
            }
            result
        },
    }
}

/// The elements of `parts` joined by `sep`.
pub open spec fn spec_join(parts: Seq<Seq<char>>, sep: Seq<char>) -> Seq<char>
    decreases parts.len(),
{
    if parts.len() == 0 {
        Seq::empty()
    } else if parts.len() == 1 {
        parts[0]
    } else {
        parts[0] + sep + spec_join(parts.subrange(1, parts.len() as int), sep)
    }
}

/// Joins `parts` with the separator `sep`.
pub fn join_strs(parts: &Vec<String>, sep: &str) -> (r: String)
    ensures
        r@ == spec_join(parts@.map_values(|p: String| p@), sep@),
    decreases parts@.len(),
{
    let mut out = String::new();
    let n = parts.len();
    let mut i: usize = 0;
    let ghost views = parts@.map_values(|p: String| p@);
    while i < n
        invariant
            0 <= i <= n,
            n == parts@.len(),
            views == parts@.map_values(|p: String| p@),
            out@ == spec_join_prefix(views, sep@, i as int),
        decreases n - i,
    {
        if i > 0 {
            out.append(sep);
        }
        out.append(parts[i].as_str());
        proof {
            assert(views[i as int] == parts@[i as int]@);
        }
        i += 1;
    }
    proof {
        lemma_join_prefix_full(views, sep@);
    }
    out
}

/// The join of the first `k` elements of `parts`.
pub open spec fn spec_join_prefix(parts: Seq<Seq<char>>, sep: Seq<char>, k: int) -> Seq<char>
    decreases k,
{
    if k <= 0 {
        Seq::empty()
    } else if k == 1 {
        parts[0]
    } else {
        spec_join_prefix(parts, sep, k - 1) + sep + parts[k - 1]
    }
}

proof fn lemma_join_prefix_unfolds(parts: Seq<Seq<char>>, sep: Seq<char>, k: int)
    requires
        1 <= k <= parts.len(),
    ensures
        spec_join_prefix(parts, sep, k) == spec_join(parts.subrange(0, k), sep),
    decreases k,
{
    if k == 1 {
        assert(parts.subrange(0, 1) =~= seq![parts[0]]);
        assert(spec_join(seq![parts[0]], sep) == parts[0]);
    } else {
        lemma_join_prefix_unfolds(parts, sep, k - 1);
        lemma_join_append(parts.subrange(0, k - 1), parts[k - 1], sep);
        assert(parts.subrange(0, k - 1).push(parts[k - 1]) =~= parts.subrange(0, k));
    }
}

/// Appending one part to a non-empty join adds one separator and the part.
proof fn lemma_join_append(parts: Seq<Seq<char>>, last: Seq<char>, sep: Seq<char>)
    requires
        parts.len() >= 1,
    ensures
        spec_join(parts.push(last), sep) == spec_join(parts, sep) + sep + last,
    decreases parts.len(),
{
    if parts.len() == 1 {
        assert(parts.push(last)[0] == parts[0]);
        assert(parts.push(last).subrange(1, 2) =~= seq![last]);
        assert(spec_join(seq![last], sep) == last);
    } else {
        lemma_join_append(parts.subrange(1, parts.len() as int), last, sep);
        assert(parts.push(last).subrange(1, parts.len() as int + 1) =~= parts.subrange(
            1,
            parts.len() as int,
        ).push(last));
        assert(parts.push(last)[0] == parts[0]);
        assert(spec_join(parts.push(last), sep) == parts[0] + sep + spec_join(
            parts.subrange(1, parts.len() as int).push(last),
            sep,
        ));
        assert(parts[0] + sep + (spec_join(parts.subrange(1, parts.len() as int), sep) + sep
            + last) =~= (parts[0] + sep + spec_join(parts.subrange(1, parts.len() as int), sep))
            + sep + last);
    }
}

proof fn lemma_join_prefix_full(parts: Seq<Seq<char>>, sep: Seq<char>)
    ensures
        spec_join_prefix(parts, sep, parts.len() as int) == spec_join(parts, sep),
{
    if parts.len() == 0 {
    } else {
        lemma_join_prefix_unfolds(parts, sep, parts.len() as int);
        assert(parts.subrange(0, parts.len() as int) =~= parts);
    }
}

/// `s` with every occurrence of `from` replaced by `to`, scanning left to
/// right without rescanning replaced text.
pub open spec fn spec_replace(s: Seq<char>, from: Seq<char>, to: Seq<char>) -> Seq<char>
    recommends
        from.len() > 0,
    decreases s.len(),
    via spec_replace_dec
{
    match spec_find_from(s, from, 0) {
        None => s,
        Some(i) => {
            if from.len() > 0 {
                s.subrange(0, i) + to + spec_replace(
                    s.subrange(i + from.len(), s.len() as int),
                    from,
                    to,
                )
            } else {
                s
            }
        },
    }
}

#[via_fn]
proof fn spec_replace_dec(s: Seq<char>, from: Seq<char>, to: Seq<char>) {
    lemma_find_is_occurrence(s, from, 0);
}

/// Replaces every occurrence of `from` in `s` by `to`.
pub fn replace_all(s: &str, from: &str, to: &str) -> (r: String)
    requires
        from@.len() > 0,
    ensures
        r@ == spec_replace(s@, from@, to@),
    decreases s@.len(),
{
    let slen = s.unicode_len();
    let flen = from.unicode_len();
    match find_from(s, from, 0) {
        None => s.to_owned(),
        Some(i) => {
            let mut out = s.substring_char(0, i).to_owned();
            out.append(to);
            let tail = s.substring_char(i + flen, slen);
            let rest = replace_all(tail, from, to);
            out.append(rest.as_str());
            out
        },
    }
}

/// Every position of a found needle is an occurrence, so a find bounds it
/// inside the string.
pub proof fn lemma_find_is_occurrence(s: Seq<char>, needle: Seq<char>, from: int)
    ensures
        match spec_find_from(s, needle, from) {
            Some(i) => from <= i && i + needle.len() <= s.len(),
            None => true,
        },
    decreases s.len() - from,
{
    if from < 0 || from + needle.len() > s.len() {
    } else if needle.len() == 0 {
    } else if occurs_at(s, needle, from) {
    } else {
        lemma_find_is_occurrence(s, needle, from + 1);
    }
}

} // verus!
