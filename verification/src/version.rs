use vstd::prelude::*;
use vstd::string::StrSliceExecFns;

use crate::text::str_eq;

verus! {

/// The blanks this parser strips: the ASCII ones that appear in manifests.
pub open spec fn is_blank(c: char) -> bool {
    c == ' ' || c == '\t' || c == '\r' || c == '\n'
}

/// A character stripped around a version value: a blank or a quote.
pub open spec fn is_blank_or_quote(c: char) -> bool {
    is_blank(c) || c == '"'
}

/// The sequence with leading blanks removed.
pub open spec fn trim_front(s: Seq<char>) -> Seq<char>
    decreases s.len(),
{
    if s.len() > 0 && is_blank(s[0]) {
        trim_front(s.drop_first())
    } else {
        s
    }
}

/// The sequence with trailing blanks removed.
pub open spec fn trim_back(s: Seq<char>) -> Seq<char>
    decreases s.len(),
{
    if s.len() > 0 && is_blank(s[s.len() - 1]) {
        trim_back(s.drop_last())
    } else {
        s
    }
}

/// The sequence with blanks removed at both ends.
pub open spec fn spec_trim(s: Seq<char>) -> Seq<char> {
    trim_back(trim_front(s))
}

/// The sequence with blanks and quotes removed at the front.
pub open spec fn trim_front_quotes(s: Seq<char>) -> Seq<char>
    decreases s.len(),
{
    if s.len() > 0 && is_blank_or_quote(s[0]) {
        trim_front_quotes(s.drop_first())
    } else {
        s
    }
}

/// The sequence with blanks and quotes removed at the back.
pub open spec fn trim_back_quotes(s: Seq<char>) -> Seq<char>
    decreases s.len(),
{
    if s.len() > 0 && is_blank_or_quote(s[s.len() - 1]) {
        trim_back_quotes(s.drop_last())
    } else {
        s
    }
}

/// The sequence with blanks and quotes removed at both ends.
pub open spec fn spec_trim_quotes(s: Seq<char>) -> Seq<char> {
    trim_back_quotes(trim_front_quotes(s))
}

/// The index of the first occurrence of `c`, or the length when absent.
pub open spec fn first_at(s: Seq<char>, c: char) -> int
    decreases s.len(),
{
    if s.len() == 0 {
        0
    } else if s[0] == c {
        0
    } else {
        1 + first_at(s.drop_first(), c)
    }
}

/// `p` opens `s`.
pub open spec fn begins_with(s: Seq<char>, p: Seq<char>) -> bool {
    s.len() >= p.len() && s.take(p.len() as int) == p
}

/// One line with a single trailing carriage return removed, the way line
/// splitting treats it.
pub open spec fn strip_cr(l: Seq<char>) -> Seq<char> {
    if l.len() > 0 && l[l.len() - 1] == '\r' {
        l.drop_last()
    } else {
        l
    }
}

/// The lines of `s`: split at every line feed, each with a trailing
/// carriage return removed, without a final empty piece after a trailing
/// line feed.
pub open spec fn spec_lines(s: Seq<char>) -> Seq<Seq<char>>
    decreases s.len(),
{
    if s.len() == 0 {
        Seq::empty()
    } else {
        let b = first_at(s, '\n');
        if 0 <= b < s.len() {
            seq![strip_cr(s.take(b))] + spec_lines(s.skip(b + 1))
        } else {
            seq![strip_cr(s)]
        }
    }
}

/// What one manifest line names as the version: the line trimmed, opening
/// with `version`, with the key before the first `=` reading exactly
/// `version`, and a non-empty value once quotes and blanks are stripped.
pub open spec fn spec_version_of_line(line: Seq<char>) -> Option<Seq<char>> {
    let t = spec_trim(line);
    if !begins_with(t, "version"@) {
        None
    } else {
        let k = first_at(t, '=');
        if k == t.len() {
            None
        } else {
            let key = spec_trim(t.take(k));
            let value = spec_trim_quotes(t.skip(k + 1));
            if key == "version"@ && value.len() > 0 {
                Some(value)
            } else {
                None
            }
        }
    }
}

/// The first version named by any line, in order.
pub open spec fn first_version(ls: Seq<Seq<char>>) -> Option<Seq<char>>
    decreases ls.len(),
{
    if ls.len() == 0 {
        None
    } else {
        match spec_version_of_line(ls[0]) {
            Some(v) => Some(v),
            None => first_version(ls.drop_first()),
        }
    }
}

/// The version a manifest body names: the first line that carries one.
pub open spec fn spec_latest_version(body: Seq<char>) -> Option<Seq<char>> {
    first_version(spec_lines(body))
}

/// Stripping from a known boundary: with only stripped characters before
/// `a` and none at `a`, the front trim is the suffix from `a`.
proof fn lemma_trim_front_at(s: Seq<char>, a: int)
    requires
        0 <= a <= s.len(),
        forall|j: int| 0 <= j < a ==> is_blank(s[j]),
        a == s.len() || !is_blank(s[a]),
    ensures
        trim_front(s) == s.skip(a),
    decreases a,
{
    if a > 0 {
        lemma_trim_front_at(s.drop_first(), a - 1);
        assert(s.drop_first().skip(a - 1) =~= s.skip(a));
    } else {
        assert(s.skip(0) =~= s);
    }
}

/// The back-trim twin of [`lemma_trim_front_at`].
proof fn lemma_trim_back_at(s: Seq<char>, z: int)
    requires
        0 <= z <= s.len(),
        forall|j: int| z <= j < s.len() ==> is_blank(s[j]),
        z == 0 || !is_blank(s[z - 1]),
    ensures
        trim_back(s) == s.take(z),
    decreases s.len() - z,
{
    if z < s.len() {
        lemma_trim_back_at(s.drop_last(), z);
        assert(s.drop_last().take(z) =~= s.take(z));
    } else {
        assert(s.take(s.len() as int) =~= s);
    }
}

/// Quote-stripping from a known boundary, front.
proof fn lemma_trim_front_quotes_at(s: Seq<char>, a: int)
    requires
        0 <= a <= s.len(),
        forall|j: int| 0 <= j < a ==> is_blank_or_quote(s[j]),
        a == s.len() || !is_blank_or_quote(s[a]),
    ensures
        trim_front_quotes(s) == s.skip(a),
    decreases a,
{
    if a > 0 {
        lemma_trim_front_quotes_at(s.drop_first(), a - 1);
        assert(s.drop_first().skip(a - 1) =~= s.skip(a));
    } else {
        assert(s.skip(0) =~= s);
    }
}

/// Quote-stripping from a known boundary, back.
proof fn lemma_trim_back_quotes_at(s: Seq<char>, z: int)
    requires
        0 <= z <= s.len(),
        forall|j: int| z <= j < s.len() ==> is_blank_or_quote(s[j]),
        z == 0 || !is_blank_or_quote(s[z - 1]),
    ensures
        trim_back_quotes(s) == s.take(z),
    decreases s.len() - z,
{
    if z < s.len() {
        lemma_trim_back_quotes_at(s.drop_last(), z);
        assert(s.drop_last().take(z) =~= s.take(z));
    } else {
        assert(s.take(s.len() as int) =~= s);
    }
}

/// A first occurrence found by scanning is the first occurrence.
proof fn lemma_first_at(s: Seq<char>, c: char, k: int)
    requires
        0 <= k <= s.len(),
        forall|j: int| 0 <= j < k ==> s[j] != c,
        k == s.len() || s[k] == c,
    ensures
        first_at(s, c) == k,
    decreases k,
{
    if k > 0 {
        lemma_first_at(s.drop_first(), c, k - 1);
    }
}

/// Trims ASCII blanks from both ends of a line.
fn trim_blanks<'a>(s: &'a str) -> (r: &'a str)
    ensures
        r@ == spec_trim(s@),
{
    let len = s.unicode_len();
    let mut a: usize = 0;
    while a < len && is_blank_char(s.get_char(a))
        invariant
            a <= len,
            len == s@.len(),
            forall|j: int| 0 <= j < a ==> is_blank(s@[j]),
        decreases len - a,
    {
        a += 1;
    }
    let mut z: usize = len;
    while z > a && is_blank_char(s.get_char(z - 1))
        invariant
            a <= z <= len,
            len == s@.len(),
            forall|j: int| z <= j < len ==> is_blank(s@[j]),
        decreases z,
    {
        z -= 1;
    }
    proof {
        lemma_trim_front_at(s@, a as int);
        let tail = s@.skip(a as int);
        assert forall|j: int| (z - a) <= j < tail.len() implies is_blank(tail[j]) by {
            assert(tail[j] == s@[a + j]);
        }
        if z > a {
            assert(tail[z - a - 1] == s@[z - 1]);
        }
        lemma_trim_back_at(tail, z - a);
        assert(tail.take(z - a) =~= s@.subrange(a as int, z as int));
    }
    s.substring_char(a, z)
}

/// Trims ASCII blanks and quotes from both ends of a value.
fn trim_blanks_and_quotes<'a>(s: &'a str) -> (r: &'a str)
    ensures
        r@ == spec_trim_quotes(s@),
{
    let len = s.unicode_len();
    let mut a: usize = 0;
    while a < len && is_blank_or_quote_char(s.get_char(a))
        invariant
            a <= len,
            len == s@.len(),
            forall|j: int| 0 <= j < a ==> is_blank_or_quote(s@[j]),
        decreases len - a,
    {
        a += 1;
    }
    let mut z: usize = len;
    while z > a && is_blank_or_quote_char(s.get_char(z - 1))
        invariant
            a <= z <= len,
            len == s@.len(),
            forall|j: int| z <= j < len ==> is_blank_or_quote(s@[j]),
        decreases z,
    {
        z -= 1;
    }
    proof {
        lemma_trim_front_quotes_at(s@, a as int);
        let tail = s@.skip(a as int);
        assert forall|j: int| (z - a) <= j < tail.len() implies is_blank_or_quote(tail[j]) by {
            assert(tail[j] == s@[a + j]);
        }
        if z > a {
            assert(tail[z - a - 1] == s@[z - 1]);
        }
        lemma_trim_back_quotes_at(tail, z - a);
        assert(tail.take(z - a) =~= s@.subrange(a as int, z as int));
    }
    s.substring_char(a, z)
}

/// Executable form of [`is_blank`].
fn is_blank_char(c: char) -> (r: bool)
    ensures
        r == is_blank(c),
{
    c == ' ' || c == '\t' || c == '\r' || c == '\n'
}

/// Executable form of [`is_blank_or_quote`].
fn is_blank_or_quote_char(c: char) -> (r: bool)
    ensures
        r == is_blank_or_quote(c),
{
    is_blank_char(c) || c == '"'
}

/// Whether `prefix` opens `s`.
fn str_begins(s: &str, prefix: &str) -> (r: bool)
    ensures
        r == begins_with(s@, prefix@),
{
    let plen = prefix.unicode_len();
    let slen = s.unicode_len();
    if slen < plen {
        return false;
    }
    let mut i: usize = 0;
    while i < plen
        invariant
            i <= plen,
            plen == prefix@.len(),
            slen == s@.len(),
            plen <= slen,
            forall|j: int| 0 <= j < i ==> s@[j] == prefix@[j],
        decreases plen - i,
    {
        if s.get_char(i) != prefix.get_char(i) {
            assert(s@.take(plen as int)[i as int] != prefix@[i as int]);
            return false;
        }
        i += 1;
    }
    proof {
        assert(s@.take(plen as int) =~= prefix@);
    }
    true
}

/// The index of the first occurrence of `c` in `s`, or the length.
fn find_char(s: &str, c: char) -> (k: usize)
    ensures
        k == first_at(s@, c),
        k <= s@.len(),
{
    let len = s.unicode_len();
    let mut k: usize = 0;
    while k < len && s.get_char(k) != c
        invariant
            k <= len,
            len == s@.len(),
            forall|j: int| 0 <= j < k ==> s@[j] != c,
        decreases len - k,
    {
        k += 1;
    }
    proof {
        lemma_first_at(s@, c, k as int);
    }
    k
}

/// Decides [`spec_version_of_line`] for one line.
fn version_of_line(line: &str) -> (r: Option<String>)
    ensures
        match spec_version_of_line(line@) {
            Some(v) => r matches Some(s) && s@ == v,
            None => r is None,
        },
{
    let t = trim_blanks(line);
    if !str_begins(t, "version") {
        return None;
    }
    let k = find_char(t, '=');
    let tlen = t.unicode_len();
    if k == tlen {
        return None;
    }
    let key_part = t.substring_char(0, k);
    let key = trim_blanks(key_part);
    proof {
        assert(key_part@ =~= t@.take(k as int));
    }
    let value_part = t.substring_char(k + 1, tlen);
    let value = trim_blanks_and_quotes(value_part);
    proof {
        assert(value_part@ =~= t@.skip(k + 1));
    }
    if str_eq(key, "version") && value.unicode_len() > 0 {
        Some(value.to_owned())
    } else {
        None
    }
}

/// Finds the version a manifest body names: scans its lines in order and
/// returns the first value of a `version = "..."` entry, or nothing when no
/// line carries one.
pub fn latest_version_in_manifest(body: &str) -> (r: Option<String>)
    ensures
        match spec_latest_version(body@) {
            Some(v) => r matches Some(s) && s@ == v,
            None => r is None,
        },
{
    let total = body.unicode_len();
    let mut pos: usize = 0;
    proof {
        assert(body@.skip(0) =~= body@);
    }
    while pos < total
        invariant
            pos <= total,
            total == body@.len(),
            spec_latest_version(body@) == first_version(spec_lines(body@.skip(pos as int))),
        decreases total - pos,
    {
        let mut j: usize = pos;
        while j < total && body.get_char(j) != '\n'
            invariant
                pos <= j <= total,
                total == body@.len(),
                forall|i: int| pos <= i < j ==> body@[i] != '\n',
            decreases total - j,
        {
            j += 1;
        }
        let ghost rest = body@.skip(pos as int);
        proof {
            assert forall|i: int| 0 <= i < j - pos implies rest[i] != '\n' by {
                assert(rest[i] == body@[pos + i]);
            }
            if j < total {
                assert(rest[j - pos] == body@[j as int]);
            }
            lemma_first_at(rest, '\n', j - pos);
        }
        let end = if j > pos && body.get_char(j - 1) == '\r' {
            j - 1
        } else {
            j
        };
        let line = body.substring_char(pos, end);
        proof {
            let raw = rest.take(j - pos);
            assert(raw =~= body@.subrange(pos as int, j as int));
            if j > pos && body@[j - 1] == '\r' {
                assert(raw.drop_last() =~= body@.subrange(pos as int, j - 1));
            }
            assert(line@ == strip_cr(raw));
            if j == total {
                assert(raw =~= rest);
                assert(spec_lines(rest) == seq![strip_cr(rest)]);
            } else {
                assert(spec_lines(rest) == seq![strip_cr(raw)] + spec_lines(
                    rest.skip(j - pos + 1),
                ));
            }
            assert(spec_lines(rest)[0] == line@);
        }
        match version_of_line(line) {
            Some(found) => {
                return Some(found);
            },
            None => {},
        }
        proof {
            assert(first_version(spec_lines(rest)) == first_version(
                spec_lines(rest).drop_first(),
            ));
        }
        if j == total {
            proof {
                assert(spec_lines(rest).drop_first() =~= Seq::<Seq<char>>::empty());
            }
            return None;
        }
        proof {
            assert(spec_lines(rest).drop_first() =~= spec_lines(rest.skip(j - pos + 1)));
            assert(rest.skip(j - pos + 1) =~= body@.skip(j + 1));
        }
        pos = j + 1;
    }
    proof {
        assert(body@.skip(total as int) =~= Seq::<char>::empty());
    }
    None
}

} // verus!
