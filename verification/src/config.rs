use vstd::prelude::*;
use vstd::utf8::encode_utf8;

use crate::text::{
    bytes_le, lemma_bytes_le_total, lemma_bytes_le_trans, lower_of, lowercase, str_eq, str_le,
};

verus! {

/// The language used when a requested one is not supported.
pub const FALLBACK_LANGUAGE: &'static str = "en";

/// Interval between polling ticks used when a stored value is unusable.
pub const DEFAULT_DETECT_INTERVAL_MS: u64 = 500;

/// Cursor-movement threshold (pixels) used when a stored value is unusable.
pub const DEFAULT_MOUSE_SENSITIVITY: u32 = 100;

/// The languages the interface can display.
pub open spec fn spec_supported_language(s: Seq<char>) -> bool {
    s == "en"@ || s == "ko"@ || s == "ja"@ || s == "zh"@
}

/// What language a requested value settles to: itself when supported,
/// otherwise the fallback.
pub open spec fn spec_settled_language(s: Seq<char>) -> Seq<char> {
    if spec_supported_language(s) {
        s
    } else {
        "en"@
    }
}

/// Whether a (already lower-cased) language tag is one the interface offers.
pub fn is_supported_language(s: &str) -> (r: bool)
    ensures
        r == spec_supported_language(s@),
{
    if str_eq(s, "en") {
        true
    } else if str_eq(s, "ko") {
        true
    } else if str_eq(s, "ja") {
        true
    } else {
        str_eq(s, "zh")
    }
}

/// Lower-cases a requested language tag and falls back to
/// [`FALLBACK_LANGUAGE`] when the result is not a supported one.
pub fn sanitize_language(value: &str) -> (r: String)
    ensures
        r@ == spec_settled_language(lower_of(value@)),
{
    let lower = lowercase(value);
    if is_supported_language(lower.as_str()) {
        lower
    } else {
        FALLBACK_LANGUAGE.to_owned()
    }
}

/// Whether some entry of `s` reads as `name`.
pub open spec fn seq_contains_name(s: Seq<String>, name: Seq<char>) -> bool {
    exists|i: int| 0 <= i < s.len() && s[i]@ == name
}

/// No two entries of `s` read the same.
pub open spec fn names_unique(s: Seq<String>) -> bool {
    forall|i: int, j: int| 0 <= i < j < s.len() ==> s[i]@ != s[j]@
}

/// Whether some entry of the list reads as `name`.
pub fn vec_contains_name(v: &Vec<String>, name: &str) -> (r: bool)
    ensures
        r == seq_contains_name(v@, name@),
{
    let mut i: usize = 0;
    while i < v.len()
        invariant
            i <= v@.len(),
            forall|j: int| 0 <= j < i ==> v@[j]@ != name@,
        decreases v@.len() - i,
    {
        if str_eq(v[i].as_str(), name) {
            assert(v@[i as int]@ == name@);
            return true;
        }
        i += 1;
    }
    false
}

/// Drops every entry that repeats an earlier one, keeping first occurrences
/// in their order.
pub fn dedup_names(v: &Vec<String>) -> (r: Vec<String>)
    ensures
        names_unique(r@),
        forall|n: Seq<char>| seq_contains_name(r@, n) <==> seq_contains_name(v@, n),
        r@.len() <= v@.len(),
{
    let mut out: Vec<String> = Vec::new();
    let mut i: usize = 0;
    while i < v.len()
        invariant
            i <= v@.len(),
            names_unique(out@),
            out@.len() <= i,
            forall|n: Seq<char>|
                seq_contains_name(out@, n) <==> seq_contains_name(v@.take(i as int), n),
        decreases v@.len() - i,
    {
        let ghost prev = out@;
        if !vec_contains_name(&out, v[i].as_str()) {
            out.push(v[i].clone());
        }
        proof {
            assert(v@.take(i + 1) =~= v@.take(i as int).push(v@[i as int]));
            assert forall|n: Seq<char>|
                seq_contains_name(out@, n) <==> seq_contains_name(v@.take(i + 1), n) by {
                if seq_contains_name(out@, n) {
                    let k = choose|k: int| 0 <= k < out@.len() && out@[k]@ == n;
                    if k < prev.len() {
                        assert(seq_contains_name(prev, n));
                    } else {
                        assert(out@[k]@ == v@[i as int]@);
                        assert(v@.take(i + 1)[i as int]@ == n);
                    }
                }
                if seq_contains_name(v@.take(i + 1), n) {
                    let ext = v@.take(i + 1);
                    let k = choose|k: int| 0 <= k < ext.len() && #[trigger] ext[k]@ == n;
                    if k < i {
                        assert(seq_contains_name(v@.take(i as int), n));
                        assert(seq_contains_name(prev, n));
                        let m = choose|m: int| 0 <= m < prev.len() && prev[m]@ == n;
                        assert(out@[m]@ == n);
                    } else {
                        assert(v@[i as int]@ == n);
                        if seq_contains_name(prev, n) {
                            let m = choose|m: int| 0 <= m < prev.len() && prev[m]@ == n;
                            assert(out@[m]@ == n);
                        } else {
                            assert(out@[out@.len() - 1]@ == n);
                        }
                    }
                }
            }
        }
        i += 1;
    }
    proof {
        assert(v@.take(v@.len() as int) =~= v@);
    }
    out
}

/// The names stand in byte-lexicographic order.
pub open spec fn names_sorted(s: Seq<String>) -> bool {
    forall|i: int, j: int|
        0 <= i < j < s.len() ==> bytes_le(encode_utf8(s[i]@), encode_utf8(s[j]@))
}

/// Orders a duplicate-free list of names byte-lexicographically.
pub fn sort_names(v: &Vec<String>) -> (r: Vec<String>)
    requires
        names_unique(v@),
    ensures
        names_sorted(r@),
        names_unique(r@),
        forall|n: Seq<char>| seq_contains_name(r@, n) <==> seq_contains_name(v@, n),
        r@.len() == v@.len(),
{
    let mut out: Vec<String> = Vec::new();
    let mut i: usize = 0;
    while i < v.len()
        invariant
            i <= v@.len(),
            names_unique(v@),
            names_sorted(out@),
            names_unique(out@),
            out@.len() == i,
            forall|n: Seq<char>|
                seq_contains_name(out@, n) <==> seq_contains_name(v@.take(i as int), n),
        decreases v@.len() - i,
    {
        let name = v[i].clone();
        let mut p: usize = 0;
        while p < out.len() && str_le(out[p].as_str(), name.as_str())
            invariant
                p <= out@.len(),
                forall|j: int|
                    0 <= j < p ==> bytes_le(encode_utf8((#[trigger] out@[j])@), encode_utf8(
                        name@,
                    )),
            decreases out@.len() - p,
        {
            p += 1;
        }
        proof {
            if p < out@.len() {
                lemma_bytes_le_total(encode_utf8(out@[p as int]@), encode_utf8(name@));
            }
            assert(!seq_contains_name(out@, name@)) by {
                if seq_contains_name(out@, name@) {
                    assert(seq_contains_name(v@.take(i as int), name@));
                    let m = choose|m: int|
                        0 <= m < v@.take(i as int).len() && v@.take(i as int)[m]@ == name@;
                    assert(v@[m]@ == v@[i as int]@);
                }
            }
        }
        let ghost before = out@;
        out.insert(p, name);
        proof {
            assert forall|x: int, y: int| 0 <= x < y < out@.len() implies bytes_le(
                encode_utf8((#[trigger] out@[x])@),
                encode_utf8((#[trigger] out@[y])@),
            ) by {
                if y < p {
                    assert(out@[x] == before[x] && out@[y] == before[y]);
                } else if x == p {
                    assert(out@[y] == before[y - 1]);
                    if y - 1 > p {
                        lemma_bytes_le_trans(
                            encode_utf8(out@[p as int]@),
                            encode_utf8(before[p as int]@),
                            encode_utf8(before[y - 1]@),
                        );
                    }
                } else if x < p && y == p {
                    assert(out@[x] == before[x]);
                } else if x < p {
                    assert(out@[x] == before[x] && out@[y] == before[y - 1]);
                } else {
                    assert(out@[x] == before[x - 1] && out@[y] == before[y - 1]);
                }
            }
            assert forall|x: int, y: int| 0 <= x < y < out@.len() implies out@[x]@ != out@[
                y]@ by {
                if x == p {
                    assert(out@[y] == before[y - 1]);
                    assert(!seq_contains_name(before, out@[x]@));
                } else if y == p {
                    assert(out@[x] == before[x]);
                    assert(!seq_contains_name(before, out@[y]@));
                } else {
                    let bx: int = if x < p {
                        x
                    } else {
                        x - 1
                    };
                    let by: int = if y < p {
                        y
                    } else {
                        y - 1
                    };
                    assert(out@[x] == before[bx] && out@[y] == before[by]);
                    assert(before[bx]@ != before[by]@);
                }
            }
            assert(v@.take(i + 1) =~= v@.take(i as int).push(v@[i as int]));
            assert forall|n: Seq<char>|
                seq_contains_name(out@, n) <==> seq_contains_name(v@.take(i + 1), n) by {
                if seq_contains_name(out@, n) {
                    let k = choose|k: int| 0 <= k < out@.len() && out@[k]@ == n;
                    if k == p {
                        assert(v@.take(i + 1)[i as int]@ == n);
                    } else {
                        let bk: int = if k < p {
                            k
                        } else {
                            k - 1
                        };
                        assert(out@[k] == before[bk]);
                        assert(seq_contains_name(before, n));
                        let m = choose|m: int|
                            0 <= m < v@.take(i as int).len() && v@.take(i as int)[m]@ == n;
                        assert(v@.take(i + 1)[m]@ == n);
                    }
                }
                if seq_contains_name(v@.take(i + 1), n) {
                    let ext = v@.take(i + 1);
                    let k = choose|k: int| 0 <= k < ext.len() && #[trigger] ext[k]@ == n;
                    if k < i {
                        assert(seq_contains_name(v@.take(i as int), n));
                        assert(seq_contains_name(before, n));
                        let m = choose|m: int| 0 <= m < before.len() && before[m]@ == n;
                        let om: int = if m < p {
                            m
                        } else {
                            m + 1
                        };
                        assert(out@[om] == before[m]);
                        assert(out@[om]@ == n);
                    } else {
                        assert(out@[p as int]@ == n);
                    }
                }
            }
        }
        i += 1;
    }
    proof {
        assert(v@.take(v@.len() as int) =~= v@);
    }
    out
}

/// Copies a list of names, element for element.
pub fn duplicate_names(v: &Vec<String>) -> (r: Vec<String>)
    ensures
        r@ == v@,
{
    let mut out: Vec<String> = Vec::new();
    let mut i: usize = 0;
    while i < v.len()
        invariant
            i <= v@.len(),
            out@ =~= v@.take(i as int),
        decreases v@.len() - i,
    {
        out.push(v[i].clone());
        proof {
            assert(v@.take(i + 1) =~= v@.take(i as int).push(v@[i as int]));
        }
        i += 1;
    }
    proof {
        assert(v@.take(v@.len() as int) =~= v@);
    }
    out
}

/// The persisted settings, as the engine reads them. Times are milliseconds
/// and the cursor threshold is in whole pixels, so every rule over them is
/// exact integer arithmetic.
#[derive(Debug, Clone)]
pub struct AppConfig {
    /// Process names opted into automatic input-method management.
    pub selected_processes: Vec<String>,
    /// Master switch for the automatic restore of the target mode.
    pub use_auto_to_en: bool,
    /// Whether cursor movement may override a manual choice.
    pub use_mouse_move_event: bool,
    /// Milliseconds between polling ticks.
    pub detect_interval_ms: u64,
    /// Cursor-movement threshold in pixels (inclusive).
    pub mouse_sensitivity: u32,
    /// Last observed "currently in target mode" marker, kept for the UI.
    pub in_english: bool,
    /// Whether the application registers itself to start with the session.
    pub start_with_windows: bool,
    /// Interface language tag.
    pub language: String,
}

impl AppConfig {
    /// A configuration the engine can act on without further checks.
    pub open spec fn wf(self) -> bool {
        &&& self.detect_interval_ms > 0
        &&& self.mouse_sensitivity > 0
        &&& spec_supported_language(self.language@)
        &&& names_unique(self.selected_processes@)
    }

    /// The fields of `other` read the same as those of `self`.
    pub open spec fn spec_same(self, other: AppConfig) -> bool {
        &&& self.selected_processes@ == other.selected_processes@
        &&& self.use_auto_to_en == other.use_auto_to_en
        &&& self.use_mouse_move_event == other.use_mouse_move_event
        &&& self.detect_interval_ms == other.detect_interval_ms
        &&& self.mouse_sensitivity == other.mouse_sensitivity
        &&& self.in_english == other.in_english
        &&& self.start_with_windows == other.start_with_windows
        &&& self.language@ == other.language@
    }

    /// The process names opted in, as a set.
    pub open spec fn spec_selected_set(self) -> Set<Seq<char>> {
        Set::new(|n: Seq<char>| seq_contains_name(self.selected_processes@, n))
    }

    /// A copy whose fields are known to match.
    pub fn duplicate(&self) -> (r: AppConfig)
        ensures
            r.spec_same(*self),
    {
        AppConfig {
            selected_processes: duplicate_names(&self.selected_processes),
            use_auto_to_en: self.use_auto_to_en,
            use_mouse_move_event: self.use_mouse_move_event,
            detect_interval_ms: self.detect_interval_ms,
            mouse_sensitivity: self.mouse_sensitivity,
            in_english: self.in_english,
            start_with_windows: self.start_with_windows,
            language: self.language.clone(),
        }
    }

    /// Replaces unusable stored values with their defaults, settles the
    /// language, and removes repeated selected-process entries.
    pub fn normalize(&mut self)
        ensures
            normalizes_to(*old(self), *final(self)),
    {
        if self.detect_interval_ms == 0 {
            self.detect_interval_ms = DEFAULT_DETECT_INTERVAL_MS;
        }
        if self.mouse_sensitivity == 0 {
            self.mouse_sensitivity = DEFAULT_MOUSE_SENSITIVITY;
        }
        self.language = sanitize_language(self.language.as_str());
        let unique = dedup_names(&self.selected_processes);
        self.selected_processes = sort_names(&unique);
    }
}

/// What normalizing `c` leaves behind: defaults in place of unusable values,
/// a settled language, a duplicate-free selection with the same members, and
/// every other field untouched.
pub open spec fn normalizes_to(c: AppConfig, r: AppConfig) -> bool {
    &&& r.wf()
    &&& r.detect_interval_ms == if c.detect_interval_ms == 0 {
        DEFAULT_DETECT_INTERVAL_MS
    } else {
        c.detect_interval_ms
    }
    &&& r.mouse_sensitivity == if c.mouse_sensitivity == 0 {
        DEFAULT_MOUSE_SENSITIVITY
    } else {
        c.mouse_sensitivity
    }
    &&& r.language@ == spec_settled_language(lower_of(c.language@))
    &&& names_sorted(r.selected_processes@)
    &&& forall|n: Seq<char>|
        seq_contains_name(r.selected_processes@, n) <==> seq_contains_name(
            c.selected_processes@,
            n,
        )
    &&& r.use_auto_to_en == c.use_auto_to_en
    &&& r.use_mouse_move_event == c.use_mouse_move_event
    &&& r.in_english == c.in_english
    &&& r.start_with_windows == c.start_with_windows
}

impl Default for AppConfig {
    /// The settings used when nothing is stored yet.
    fn default() -> (r: AppConfig)
        ensures
            r.wf(),
            r.selected_processes@.len() == 0,
            r.use_auto_to_en,
            r.use_mouse_move_event,
            r.detect_interval_ms == DEFAULT_DETECT_INTERVAL_MS,
            r.mouse_sensitivity == DEFAULT_MOUSE_SENSITIVITY,
            !r.in_english,
            !r.start_with_windows,
            r.language@ == "en"@,
    {
        AppConfig {
            selected_processes: Vec::new(),
            use_auto_to_en: true,
            use_mouse_move_event: true,
            detect_interval_ms: DEFAULT_DETECT_INTERVAL_MS,
            mouse_sensitivity: DEFAULT_MOUSE_SENSITIVITY,
            in_english: false,
            start_with_windows: false,
            language: FALLBACK_LANGUAGE.to_owned(),
        }
    }
}

/// Remembered placement of the main window.
#[derive(Debug, Clone, Copy, PartialEq, Eq, Structural)]
pub struct WindowState {
    pub x: i32,
    pub y: i32,
    pub width: u32,
    pub height: u32,
}

} // verus!
