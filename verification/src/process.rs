use vstd::prelude::*;
use vstd::string::StringSliceAdditionalSpecFns;
use vstd::utf8::encode_utf8;

use crate::text::{
    bytes_le, lemma_bytes_le_total, lemma_bytes_le_trans, lower_of, lowercase, seq_eq_nocase,
    str_eq, str_eq_nocase, str_le,
};
use crate::config::names_unique;

verus! {

/// The entries stand in byte-lexicographic order of their process names.
pub open spec fn sorted_by_name(s: Seq<ProcessInfo>) -> bool {
    forall|i: int, j: int|
        0 <= i < j < s.len() ==> bytes_le(
            encode_utf8((#[trigger] s[i]).name@),
            encode_utf8((#[trigger] s[j]).name@),
        )
}

/// Identity of one observed process/window pairing.
#[derive(Debug, Clone)]
pub struct ProcessInfo {
    pub pid: u32,
    pub name: String,
    pub title: String,
}

impl ProcessInfo {
    /// A copy whose fields are known to match.
    pub fn duplicate(&self) -> (r: ProcessInfo)
        ensures
            r == *self,
    {
        ProcessInfo { pid: self.pid, name: self.name.clone(), title: self.title.clone() }
    }
}

/// Shell and overlay process names never offered for selection, matched
/// ignoring ASCII case.
pub open spec fn spec_banned(name: Seq<char>) -> bool {
    ||| seq_eq_nocase(name, "flet.exe"@)
    ||| seq_eq_nocase(name, "explorer.exe"@)
    ||| seq_eq_nocase(name, "textinputhost.exe"@)
    ||| seq_eq_nocase(name, "nvidia overlay.exe"@)
    ||| seq_eq_nocase(name, "systemsettings.exe"@)
    ||| seq_eq_nocase(name, "applicationframehost.exe"@)
}

/// Whether a process name is on the banned list.
pub fn is_banned(name: &str) -> (r: bool)
    ensures
        r == spec_banned(name@),
{
    if str_eq_nocase(name, "flet.exe") {
        true
    } else if str_eq_nocase(name, "explorer.exe") {
        true
    } else if str_eq_nocase(name, "textinputhost.exe") {
        true
    } else if str_eq_nocase(name, "nvidia overlay.exe") {
        true
    } else if str_eq_nocase(name, "systemsettings.exe") {
        true
    } else {
        str_eq_nocase(name, "applicationframehost.exe")
    }
}

/// Gathers window-owning processes, keeping one entry per case-folded
/// process name, first sighting wins.
pub struct ProcessCollector {
    entries: Vec<ProcessInfo>,
    seen_names: Vec<String>,
}

impl ProcessCollector {
    /// Each remembered key is the case-folded name of the entry at the same
    /// position, and no key repeats.
    pub closed spec fn wf(self) -> bool {
        &&& self.seen_names@.len() == self.entries@.len()
        &&& names_unique(self.seen_names@)
        &&& forall|i: int|
            0 <= i < self.entries@.len() ==> self.seen_names@[i]@ == lower_of(
                self.entries@[i].name@,
            )
    }

    /// The entries gathered so far.
    pub closed spec fn spec_entries(self) -> Seq<ProcessInfo> {
        self.entries@
    }

    /// Whether an entry with this case-folded name was already gathered.
    pub open spec fn spec_seen(self, folded: Seq<char>) -> bool {
        exists|i: int|
            0 <= i < self.spec_entries().len() && lower_of(self.spec_entries()[i].name@)
                == folded
    }

    /// An empty collector.
    pub fn new() -> (r: ProcessCollector)
        ensures
            r.wf(),
            r.spec_entries().len() == 0,
    {
        ProcessCollector { entries: Vec::new(), seen_names: Vec::new() }
    }

    /// Records an entry unless one with the same case-folded name is already
    /// present; the first sighting wins.
    pub fn push(&mut self, info: ProcessInfo)
        requires
            old(self).wf(),
        ensures
            final(self).wf(),
            final(self).spec_entries() == if old(self).spec_seen(lower_of(info.name@)) {
                old(self).spec_entries()
            } else {
                old(self).spec_entries().push(info)
            },
    {
        let key = lowercase(info.name.as_str());
        let mut i: usize = 0;
        let mut found = false;
        while i < self.seen_names.len()
            invariant
                self.wf(),
                i <= self.seen_names@.len(),
                found == exists|j: int|
                    0 <= j < i && #[trigger] self.seen_names@[j]@ == key@,
            decreases self.seen_names@.len() - i,
        {
            if str_eq(self.seen_names[i].as_str(), key.as_str()) {
                found = true;
                assert(self.seen_names@[i as int]@ == key@);
            }
            i += 1;
        }
        proof {
            assert(found == self.spec_seen(key@)) by {
                if found {
                    let j = choose|j: int|
                        0 <= j < self.seen_names@.len() && #[trigger] self.seen_names@[j]@
                            == key@;
                    assert(lower_of(self.spec_entries()[j].name@) == key@);
                }
                if self.spec_seen(key@) {
                    let j = choose|j: int|
                        0 <= j < self.spec_entries().len() && lower_of(
                            self.spec_entries()[j].name@,
                        ) == key@;
                    assert(self.seen_names@[j]@ == key@);
                }
            }
        }
        if !found {
            self.seen_names.push(key);
            self.entries.push(info);
        }
    }

    /// Hands the gathered entries out, sorted by process name.
    pub fn finish(self) -> (r: Vec<ProcessInfo>)
        requires
            self.wf(),
        ensures
            sorted_by_name(r@),
            r@.to_multiset() == self.spec_entries().to_multiset(),
    {
        broadcast use vstd::seq_lib::group_to_multiset_ensures;

        let entries = self.entries;
        let mut out: Vec<ProcessInfo> = Vec::new();
        let mut i: usize = 0;
        while i < entries.len()
            invariant
                i <= entries@.len(),
                sorted_by_name(out@),
                out@.to_multiset() == entries@.take(i as int).to_multiset(),
            decreases entries@.len() - i,
        {
            broadcast use vstd::seq_lib::group_to_multiset_ensures;

            let e = entries[i].duplicate();
            let mut p: usize = 0;
            while p < out.len() && str_le(out[p].name.as_str(), e.name.as_str())
                invariant
                    p <= out@.len(),
                    forall|j: int|
                        0 <= j < p ==> bytes_le(
                            encode_utf8((#[trigger] out@[j]).name@),
                            encode_utf8(e.name@),
                        ),
                decreases out@.len() - p,
            {
                p += 1;
            }
            proof {
                if p < out@.len() {
                    lemma_bytes_le_total(encode_utf8(out@[p as int].name@), encode_utf8(e.name@));
                }
            }
            let ghost before = out@;
            out.insert(p, e);
            proof {
                assert forall|x: int, y: int| 0 <= x < y < out@.len() implies bytes_le(
                    encode_utf8((#[trigger] out@[x]).name@),
                    encode_utf8((#[trigger] out@[y]).name@),
                ) by {
                    if y < p {
                        assert(out@[x] == before[x] && out@[y] == before[y]);
                    } else if x == p {
                        assert(out@[y] == before[y - 1]);
                        if y - 1 > p {
                            lemma_bytes_le_trans(
                                encode_utf8(e.name@),
                                encode_utf8(before[p as int].name@),
                                encode_utf8(before[y - 1].name@),
                            );
                        }
                    } else if x < p && y == p {
                        assert(out@[x] == before[x]);
                    } else if x < p {
                        assert(out@[x] == before[x] && out@[y] == before[y - 1]);
                    } else {
                        assert(out@[x] == before[x - 1] && out@[y] == before[y - 1]);
                    }
                }
                assert(entries@.take(i + 1) =~= entries@.take(i as int).push(
                    entries@[i as int],
                ));
            }
            i += 1;
        }
        proof {
            assert(entries@.take(entries@.len() as int) =~= entries@);
        }
        out
    }
}

} // verus!
