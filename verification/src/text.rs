use vstd::prelude::*;
use vstd::string::{StrSliceExecFns, StringSliceAdditionalSpecFns};

verus! {

/// What `str::to_lowercase` returns for a given character sequence. The
/// result depends on the characters alone, so it carries a name here rather
/// than a restatement of the Unicode case-folding tables.
pub uninterp spec fn lower_of(s: Seq<char>) -> Seq<char>;

/// Relies on `str::to_lowercase`: Unicode lower-casing, a function of the
/// input characters alone.
#[verifier::external_body]
pub(crate) fn lowercase(s: &str) -> (r: String)
    ensures
        r@ == lower_of(s@),
{
    s.to_lowercase()
}

/// Character-for-character equality of two string slices.
pub fn str_eq(a: &str, b: &str) -> (r: bool)
    ensures
        r == (a@ == b@),
{
    let x: String = a.to_owned();
    let y: String = b.to_owned();
    x == y
}

/// An ASCII upper-case letter, by code point.
pub open spec fn is_ascii_upper(c: int) -> bool {
    65 <= c <= 90
}

/// Two characters that agree up to ASCII case: equal outright, or the same
/// letter with one side in ASCII upper case.
pub open spec fn chars_eq_nocase(x: char, y: char) -> bool {
    ||| x == y
    ||| (is_ascii_upper(x as int) && y as int == x as int + 32)
    ||| (is_ascii_upper(y as int) && x as int == y as int + 32)
}

/// Equality of two character sequences up to ASCII case, matching what
/// comparing their `to_ascii_lowercase` forms would say.
pub open spec fn seq_eq_nocase(a: Seq<char>, b: Seq<char>) -> bool {
    a.len() == b.len() && forall|i: int| 0 <= i < a.len() ==> chars_eq_nocase(a[i], b[i])
}

/// Compares two string slices ignoring ASCII case.
pub fn str_eq_nocase(a: &str, b: &str) -> (r: bool)
    ensures
        r == seq_eq_nocase(a@, b@),
{
    let alen = a.unicode_len();
    let blen = b.unicode_len();
    if alen != blen {
        return false;
    }
    let mut i: usize = 0;
    while i < alen
        invariant
            alen == a@.len(),
            blen == b@.len(),
            alen == blen,
            i <= alen,
            forall|j: int| 0 <= j < i ==> chars_eq_nocase(a@[j], b@[j]),
        decreases alen - i,
    {
        let x = a.get_char(i) as u32;
        let y = b.get_char(i) as u32;
        let same = if x == y {
            true
        } else if 65 <= x && x <= 90 && y == x + 32 {
            true
        } else {
            65 <= y && y <= 90 && x == y + 32
        };
        if !same {
            return false;
        }
        i += 1;
    }
    true
}

/// Byte-lexicographic "less than or equal", the order `str` comparison
/// gives (for UTF-8 this agrees with code-point order).
pub open spec fn bytes_le(a: Seq<u8>, b: Seq<u8>) -> bool
    decreases a.len(),
{
    if a.len() == 0 {
        true
    } else if b.len() == 0 {
        false
    } else if a[0] < b[0] {
        true
    } else if a[0] > b[0] {
        false
    } else {
        bytes_le(a.drop_first(), b.drop_first())
    }
}

/// The byte order relates every two sequences, one way or the other.
pub proof fn lemma_bytes_le_total(a: Seq<u8>, b: Seq<u8>)
    ensures
        bytes_le(a, b) || bytes_le(b, a),
    decreases a.len(),
{
    if a.len() > 0 && b.len() > 0 && a[0] == b[0] {
        lemma_bytes_le_total(a.drop_first(), b.drop_first());
    }
}

/// The byte order chains.
pub proof fn lemma_bytes_le_trans(a: Seq<u8>, b: Seq<u8>, c: Seq<u8>)
    requires
        bytes_le(a, b),
        bytes_le(b, c),
    ensures
        bytes_le(a, c),
    decreases a.len(),
{
    if a.len() > 0 {
        assert(b.len() > 0);
        assert(c.len() > 0);
        if a[0] == b[0] && b[0] == c[0] {
            lemma_bytes_le_trans(a.drop_first(), b.drop_first(), c.drop_first());
        }
    }
}

/// Comparing from a common prefix on says the same as comparing whole.
proof fn lemma_bytes_le_skip(a: Seq<u8>, b: Seq<u8>, i: int)
    requires
        0 <= i <= a.len(),
        i <= b.len(),
        forall|j: int| 0 <= j < i ==> a[j] == b[j],
    ensures
        bytes_le(a, b) == bytes_le(a.skip(i), b.skip(i)),
    decreases i,
{
    if i > 0 {
        assert(a[0] == b[0]);
        lemma_bytes_le_skip(a.drop_first(), b.drop_first(), i - 1);
        assert(a.drop_first().skip(i - 1) =~= a.skip(i));
        assert(b.drop_first().skip(i - 1) =~= b.skip(i));
    } else {
        assert(a.skip(0) =~= a);
        assert(b.skip(0) =~= b);
    }
}

/// Whether `a` comes no later than `b` in byte-lexicographic order.
pub fn str_le(a: &str, b: &str) -> (r: bool)
    ensures
        r == bytes_le(a.spec_bytes(), b.spec_bytes()),
{
    let av = a.as_bytes_vec();
    let bv = b.as_bytes_vec();
    let mut i: usize = 0;
    loop
        invariant
            i <= av@.len(),
            i <= bv@.len(),
            av@ == a.spec_bytes(),
            bv@ == b.spec_bytes(),
            forall|j: int| 0 <= j < i ==> av@[j] == bv@[j],
        decreases av@.len() - i,
    {
        proof {
            lemma_bytes_le_skip(av@, bv@, i as int);
        }
        if i >= av.len() {
            return true;
        }
        if i >= bv.len() {
            return false;
        }
        let x = av[i];
        let y = bv[i];
        if x < y {
            proof {
                assert(av@.skip(i as int)[0] == x);
                assert(bv@.skip(i as int)[0] == y);
            }
            return true;
        }
        if x > y {
            proof {
                assert(av@.skip(i as int)[0] == x);
                assert(bv@.skip(i as int)[0] == y);
            }
            return false;
        }
        i += 1;
    }
}

} // verus!
