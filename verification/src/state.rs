use vstd::prelude::*;

use crate::clock::{clock_text, now_millis};
use crate::config::{
    names_sorted, names_unique, normalizes_to, sanitize_language, seq_contains_name, sort_names,
    spec_settled_language, vec_contains_name, AppConfig,
};
use crate::ime::ImeStatus;
use crate::process::ProcessInfo;
use crate::text::{lower_of, str_eq};

verus! {

/// No two parameter pairs carry the same name.
pub open spec fn keys_unique(s: Seq<(String, String)>) -> bool {
    forall|i: int, j: int| 0 <= i < j < s.len() ==> (#[trigger] s[i]).0@ != (#[trigger] s[j]).0@
}

/// The parameter pairs read as a mapping from name to value.
pub open spec fn params_map(s: Seq<(String, String)>) -> Map<Seq<char>, Seq<char>> {
    Map::new(
        |k: Seq<char>| exists|i: int| 0 <= i < s.len() && (#[trigger] s[i]).0@ == k,
        |k: Seq<char>|
            {
                let i = choose|i: int| 0 <= i < s.len() && (#[trigger] s[i]).0@ == k;
                s[i].1@
            },
    )
}

/// A pair with this name and value appears somewhere in `b`.
pub open spec fn pair_in(p: (String, String), b: Seq<(String, String)>) -> bool {
    exists|j: int| 0 <= j < b.len() && (#[trigger] b[j]).0@ == p.0@ && b[j].1@ == p.1@
}

/// Every pair of `a` appears, name and value, somewhere in `b`.
pub open spec fn pairs_covered(a: Seq<(String, String)>, b: Seq<(String, String)>) -> bool {
    forall|i: int| 0 <= i < a.len() ==> pair_in(#[trigger] a[i], b)
}

/// With unique names on both sides, mutual coverage of the pair lists is the
/// same thing as equality of the mappings they describe.
pub proof fn lemma_params_map_eq(a: Seq<(String, String)>, b: Seq<(String, String)>)
    requires
        keys_unique(a),
        keys_unique(b),
    ensures
        (params_map(a) == params_map(b)) <==> (pairs_covered(a, b) && pairs_covered(b, a)),
{
    if pairs_covered(a, b) && pairs_covered(b, a) {
        assert forall|k: Seq<char>| params_map(a).dom().contains(k) implies params_map(
            b,
        ).dom().contains(k) && params_map(a)[k] == params_map(b)[k] by {
            let i = choose|i: int| 0 <= i < a.len() && (#[trigger] a[i]).0@ == k;
            assert(pair_in(a[i], b));
            let j = choose|j: int|
                0 <= j < b.len() && (#[trigger] b[j]).0@ == a[i].0@ && b[j].1@ == a[i].1@;
            assert(b[j].0@ == k);
            let jc = choose|jc: int| 0 <= jc < b.len() && (#[trigger] b[jc]).0@ == k;
            if jc < j {
                assert(b[jc].0@ != b[j].0@);
            } else if j < jc {
                assert(b[j].0@ != b[jc].0@);
            }
            assert(jc == j);
            assert(params_map(a)[k] == a[i].1@);
            assert(params_map(b)[k] == b[jc].1@);
        }
        assert forall|k: Seq<char>| params_map(b).dom().contains(k) implies params_map(
            a,
        ).dom().contains(k) by {
            let j = choose|j: int| 0 <= j < b.len() && (#[trigger] b[j]).0@ == k;
            assert(pair_in(b[j], a));
            let i = choose|i: int|
                0 <= i < a.len() && (#[trigger] a[i]).0@ == b[j].0@ && a[i].1@ == b[j].1@;
            assert(a[i].0@ == k);
        }
        assert(params_map(a) =~= params_map(b));
    }
    if params_map(a) == params_map(b) {
        assert forall|i: int| 0 <= i < a.len() implies pair_in(#[trigger] a[i], b) by {
            let k = a[i].0@;
            assert(params_map(a).dom().contains(k));
            assert(params_map(b).dom().contains(k));
            let j = choose|j: int| 0 <= j < b.len() && (#[trigger] b[j]).0@ == k;
            let ic = choose|ic: int| 0 <= ic < a.len() && (#[trigger] a[ic]).0@ == k;
            if ic < i {
                assert(a[ic].0@ != a[i].0@);
            } else if i < ic {
                assert(a[i].0@ != a[ic].0@);
            }
            assert(ic == i);
            assert(params_map(a)[k] == a[i].1@);
            assert(params_map(b)[k] == b[j].1@);
            assert(b[j].0@ == a[i].0@ && b[j].1@ == a[i].1@);
        }
        assert forall|j: int| 0 <= j < b.len() implies pair_in(#[trigger] b[j], a) by {
            let k = b[j].0@;
            assert(params_map(b).dom().contains(k));
            assert(params_map(a).dom().contains(k));
            let i = choose|i: int| 0 <= i < a.len() && (#[trigger] a[i]).0@ == k;
            let jc = choose|jc: int| 0 <= jc < b.len() && (#[trigger] b[jc]).0@ == k;
            if jc < j {
                assert(b[jc].0@ != b[j].0@);
            } else if j < jc {
                assert(b[j].0@ != b[jc].0@);
            }
            assert(jc == j);
            assert(params_map(b)[k] == b[j].1@);
            assert(params_map(a)[k] == a[i].1@);
            assert(a[i].0@ == b[j].0@ && a[i].1@ == b[j].1@);
        }
    }
}

/// The mapping described by a single parameter pair is the singleton map.
pub proof fn lemma_singleton_params(values: Seq<(String, String)>)
    requires
        values.len() == 1,
    ensures
        params_map(values) == Map::<Seq<char>, Seq<char>>::empty().insert(
            values[0].0@,
            values[0].1@,
        ),
{
    let target = Map::<Seq<char>, Seq<char>>::empty().insert(values[0].0@, values[0].1@);
    assert forall|k: Seq<char>|
        params_map(values).dom().contains(k) == target.dom().contains(k) by {
        if exists|i: int| 0 <= i < values.len() && (#[trigger] values[i]).0@ == k {
            let i = choose|i: int| 0 <= i < values.len() && (#[trigger] values[i]).0@ == k;
            assert(i == 0);
        }
        if k == values[0].0@ {
            assert((values[0]).0@ == k);
        }
    }
    assert forall|k: Seq<char>| params_map(values).dom().contains(k) implies params_map(
        values,
    )[k] == target[k] by {
        let i = choose|i: int| 0 <= i < values.len() && (#[trigger] values[i]).0@ == k;
        assert(i == 0);
        assert(params_map(values)[k] == values[0].1@);
    }
    assert(params_map(values) =~= target);
}

/// A user-facing notification: a message key plus named parameters whose
/// order carries no meaning.
#[derive(Debug, Clone)]
pub struct StatusMessage {
    pub key: String,
    pub values: Vec<(String, String)>,
}

impl StatusMessage {
    /// Parameter names never repeat.
    pub open spec fn wf(self) -> bool {
        keys_unique(self.values@)
    }

    /// The parameters read as a mapping.
    pub open spec fn params(self) -> Map<Seq<char>, Seq<char>> {
        params_map(self.values@)
    }

    /// Structural sameness: equal key, equal parameter mapping.
    pub open spec fn spec_same(self, other: StatusMessage) -> bool {
        self.key@ == other.key@ && self.params() == other.params()
    }

    /// Builds a message from a key and parameter pairs with distinct names.
    pub fn with_values(key: String, values: Vec<(String, String)>) -> (r: StatusMessage)
        requires
            keys_unique(values@),
        ensures
            r.wf(),
            r.key@ == key@,
            r.values@ == values@,
    {
        StatusMessage { key, values }
    }

    /// A copy whose key and parameter pairs are known to match.
    pub fn duplicate(&self) -> (r: StatusMessage)
        ensures
            r.key@ == self.key@,
            r.values@ == self.values@,
    {
        let mut values: Vec<(String, String)> = Vec::new();
        let mut i: usize = 0;
        while i < self.values.len()
            invariant
                i <= self.values@.len(),
                values@ =~= self.values@.take(i as int),
            decreases self.values@.len() - i,
        {
            let p0 = self.values[i].0.clone();
            let p1 = self.values[i].1.clone();
            values.push((p0, p1));
            proof {
                assert(self.values@.take(i + 1) =~= self.values@.take(i as int).push(
                    self.values@[i as int],
                ));
            }
            i += 1;
        }
        proof {
            assert(self.values@.take(self.values@.len() as int) =~= self.values@);
        }
        StatusMessage { key: self.key.clone(), values }
    }

    /// Whether every pair of `a` appears, name and value, in `b`.
    fn covered_by(a: &Vec<(String, String)>, b: &Vec<(String, String)>) -> (r: bool)
        ensures
            r == pairs_covered(a@, b@),
    {
        let mut i: usize = 0;
        while i < a.len()
            invariant
                i <= a@.len(),
                forall|ii: int| 0 <= ii < i ==> pair_in(#[trigger] a@[ii], b@),
            decreases a@.len() - i,
        {
            let mut j: usize = 0;
            let mut found = false;
            while j < b.len()
                invariant
                    j <= b@.len(),
                    found == exists|jj: int|
                        0 <= jj < j && (#[trigger] b@[jj]).0@ == a@[i as int].0@ && b@[jj].1@
                            == a@[i as int].1@,
                    i < a@.len(),
                decreases b@.len() - j,
            {
                if str_eq(b[j].0.as_str(), a[i].0.as_str()) && str_eq(
                    b[j].1.as_str(),
                    a[i].1.as_str(),
                ) {
                    found = true;
                    assert(b@[j as int].0@ == a@[i as int].0@ && b@[j as int].1@ == a@[
                        i as int].1@);
                }
                j += 1;
            }
            if !found {
                proof {
                    assert(!pair_in(a@[i as int], b@));
                    assert(!pairs_covered(a@, b@)) by {
                        if pairs_covered(a@, b@) {
                            assert(pair_in(a@[i as int], b@));
                        }
                    }
                }
                return false;
            }
            proof {
                let jj = choose|jj: int|
                    0 <= jj < b@.len() && (#[trigger] b@[jj]).0@ == a@[i as int].0@
                        && b@[jj].1@ == a@[i as int].1@;
                assert(pair_in(a@[i as int], b@));
            }
            i += 1;
        }
        true
    }

    /// Decides structural sameness of two messages.
    pub fn same_as(&self, other: &StatusMessage) -> (r: bool)
        requires
            self.wf(),
            other.wf(),
        ensures
            r == self.spec_same(*other),
    {
        if !str_eq(self.key.as_str(), other.key.as_str()) {
            return false;
        }
        let ab = Self::covered_by(&self.values, &other.values);
        let ba = Self::covered_by(&other.values, &self.values);
        proof {
            lemma_params_map_eq(self.values@, other.values@);
        }
        ab && ba
    }
}

/// The engine's own record of the focused window, replaced wholesale each
/// tick.
#[derive(Debug, Clone)]
pub struct FocusSnapshotInternal {
    pub process: Option<ProcessInfo>,
    pub ime_status: ImeStatus,
    pub manual_override: bool,
    /// Milliseconds since the Unix epoch.
    pub updated_at_ms: i64,
}

/// The focus payload handed to event consumers, with the instant already
/// rendered as local wall-clock text.
#[derive(Debug, Clone)]
pub struct FocusSnapshot {
    pub process: Option<ProcessInfo>,
    pub ime_status: ImeStatus,
    pub manual_override: bool,
    pub updated_at: Option<String>,
}

/// A copy of an optional process identity whose fields are known to match.
pub fn duplicate_process(p: &Option<ProcessInfo>) -> (r: Option<ProcessInfo>)
    ensures
        r == *p,
{
    match p {
        Some(info) => Some(info.duplicate()),
        None => None,
    }
}

impl FocusSnapshotInternal {
    /// A copy whose fields are known to match.
    pub fn duplicate(&self) -> (r: FocusSnapshotInternal)
        ensures
            r == *self,
    {
        FocusSnapshotInternal {
            process: duplicate_process(&self.process),
            ime_status: self.ime_status,
            manual_override: self.manual_override,
            updated_at_ms: self.updated_at_ms,
        }
    }

    /// The payload for event consumers; only the rendering of the instant is
    /// left unspecified, since it depends on the local time zone.
    pub fn to_snapshot(&self) -> (r: FocusSnapshot)
        ensures
            r.process == self.process,
            r.ime_status == self.ime_status,
            r.manual_override == self.manual_override,
            r.updated_at is Some,
    {
        FocusSnapshot {
            process: duplicate_process(&self.process),
            ime_status: self.ime_status,
            manual_override: self.manual_override,
            updated_at: Some(clock_text(self.updated_at_ms)),
        }
    }
}

/// Copies a list of process identities, element for element.
pub fn duplicate_processes(v: &Vec<ProcessInfo>) -> (r: Vec<ProcessInfo>)
    ensures
        r@ == v@,
{
    let mut out: Vec<ProcessInfo> = Vec::new();
    let mut i: usize = 0;
    while i < v.len()
        invariant
            i <= v@.len(),
            out@ =~= v@.take(i as int),
        decreases v@.len() - i,
    {
        out.push(v[i].duplicate());
        proof {
            assert(v@.take(i + 1) =~= v@.take(i as int).push(v@[i as int]));
        }
        i += 1;
    }
    proof {
        assert(v@.take(v@.len() as int) =~= v@);
    }
    out
}

/// Adds a name to a duplicate-free list unless it is already there.
fn insert_name(v: &mut Vec<String>, name: &str) -> (added: bool)
    requires
        names_unique(old(v)@),
    ensures
        names_unique(final(v)@),
        added == !seq_contains_name(old(v)@, name@),
        forall|n: Seq<char>|
            seq_contains_name(final(v)@, n) <==> (seq_contains_name(old(v)@, n) || n
                == name@),
{
    if vec_contains_name(v, name) {
        false
    } else {
        v.push(name.to_owned());
        proof {
            assert forall|n: Seq<char>|
                seq_contains_name(v@, n) <==> (seq_contains_name(old(v)@, n) || n
                    == name@) by {
                if seq_contains_name(v@, n) {
                    let i = choose|i: int| 0 <= i < v@.len() && v@[i]@ == n;
                    if i < old(v)@.len() {
                        assert(old(v)@[i]@ == n);
                    }
                }
                if seq_contains_name(old(v)@, n) {
                    let i = choose|i: int| 0 <= i < old(v)@.len() && old(v)@[i]@ == n;
                    assert(v@[i]@ == n);
                }
                if n == name@ {
                    assert(v@[v@.len() - 1]@ == n);
                }
            }
            assert forall|i: int, j: int| 0 <= i < j < v@.len() implies v@[i]@ != v@[j]@ by {
                if j < v@.len() - 1 {
                    assert(old(v)@[i]@ != old(v)@[j]@);
                } else {
                    assert(old(v)@[i]@ == v@[i]@);
                    assert(!seq_contains_name(old(v)@, name@));
                    assert(old(v)@[i]@ != name@);
                }
            }
        }
        true
    }
}

/// Removes the entry reading `name` from a duplicate-free list, if present.
fn remove_name(v: &mut Vec<String>, name: &str) -> (removed: bool)
    requires
        names_unique(old(v)@),
    ensures
        names_unique(final(v)@),
        removed == seq_contains_name(old(v)@, name@),
        forall|n: Seq<char>|
            seq_contains_name(final(v)@, n) <==> (seq_contains_name(old(v)@, n) && n
                != name@),
{
    let mut i: usize = 0;
    while i < v.len()
        invariant
            i <= v@.len(),
            v@ == old(v)@,
            names_unique(v@),
            forall|j: int| 0 <= j < i ==> v@[j]@ != name@,
        decreases v@.len() - i,
    {
        if str_eq(v[i].as_str(), name) {
            let ghost pre = v@;
            assert(pre[i as int]@ == name@);
            v.remove(i);
            proof {
                assert forall|n: Seq<char>|
                    seq_contains_name(v@, n) <==> (seq_contains_name(pre, n) && n
                        != name@) by {
                    if seq_contains_name(v@, n) {
                        let k = choose|k: int| 0 <= k < v@.len() && v@[k]@ == n;
                        if k < i {
                            assert(pre[k]@ == n);
                            assert(n != name@);
                        } else {
                            assert(v@[k] == pre[k + 1]);
                            assert(pre[k + 1]@ == n);
                            assert(n != name@);
                        }
                    }
                    if seq_contains_name(pre, n) && n != name@ {
                        let k = choose|k: int| 0 <= k < pre.len() && pre[k]@ == n;
                        if k < i {
                            assert(v@[k]@ == n);
                        } else {
                            assert(k != i);
                            assert(v@[k - 1] == pre[k]);
                            assert(v@[k - 1]@ == n);
                        }
                    }
                }
                assert forall|a: int, b: int| 0 <= a < b < v@.len() implies v@[a]@
                    != v@[b]@ by {
                    let pa: int = if a < i { a } else { a + 1 };
                    let pb: int = if b < i { b } else { b + 1 };
                    assert(v@[a] == pre[pa]);
                    assert(v@[b] == pre[pb]);
                    assert(pre[pa]@ != pre[pb]@);
                }
            }
            return true;
        }
        i += 1;
    }
    false
}

/// The one remembered notification, used to suppress duplicates.
#[derive(Debug, Clone)]
pub struct StatusRecord {
    pub message: StatusMessage,
    pub at_ms: i64,
}

/// The engine's shared mutable state: configuration (saved and draft),
/// focus snapshot, per-process manual-override set, cursor memory and the
/// notification debounce record. One value of this type is meant to live
/// behind one exclusive lock for the whole monitoring session.
#[derive(Debug)]
pub struct AppState {
    pub saved_config: AppConfig,
    pub draft_config: AppConfig,
    pub available_processes: Vec<ProcessInfo>,
    pub focus: Option<FocusSnapshotInternal>,
    pub manual_overrides: Vec<String>,
    pub pending_process_refresh: bool,
    pub last_cursor_pos: Option<(i32, i32)>,
    pub last_status_message: Option<StatusMessage>,
    pub last_status_record: Option<StatusRecord>,
    pub dirty: bool,
}

impl AppState {
    /// Both configurations are normalized and the override list holds no
    /// repeated name; a remembered notification is well formed.
    pub open spec fn wf(self) -> bool {
        &&& self.saved_config.wf()
        &&& self.draft_config.wf()
        &&& names_unique(self.manual_overrides@)
        &&& match self.last_status_record {
            Some(rec) => rec.message.wf(),
            None => true,
        }
    }

    /// The configuration the monitor acts on.
    pub open spec fn spec_saved(self) -> AppConfig {
        self.saved_config
    }

    /// The configuration being edited.
    pub open spec fn spec_draft(self) -> AppConfig {
        self.draft_config
    }

    /// Whether edits are waiting to be saved.
    pub open spec fn spec_dirty(self) -> bool {
        self.dirty
    }

    /// The process names whose manual override is active.
    pub open spec fn spec_overrides(self) -> Set<Seq<char>> {
        Set::new(|n: Seq<char>| seq_contains_name(self.manual_overrides@, n))
    }

    /// The remembered notification and its emission instant, if any.
    pub open spec fn spec_record(self) -> Option<(StatusMessage, i64)> {
        match self.last_status_record {
            Some(rec) => Some((rec.message, rec.at_ms)),
            None => None,
        }
    }

    /// A fresh session around an already normalized configuration: nothing
    /// focused, no overrides, no remembered notification, and one process
    /// refresh already requested.
    pub fn new(config: AppConfig) -> (r: AppState)
        requires
            config.wf(),
        ensures
            r.wf(),
            r.spec_saved().spec_same(config),
            r.spec_draft() == config,
            r.available_processes@.len() == 0,
            r.focus is None,
            r.spec_overrides() =~= Set::<Seq<char>>::empty(),
            r.pending_process_refresh,
            r.last_cursor_pos is None,
            r.last_status_message is None,
            r.spec_record() is None,
            !r.spec_dirty(),
    {
        let saved = config.duplicate();
        AppState {
            saved_config: saved,
            draft_config: config,
            available_processes: Vec::new(),
            focus: None,
            manual_overrides: Vec::new(),
            pending_process_refresh: true,
            last_cursor_pos: None,
            last_status_message: None,
            last_status_record: None,
            dirty: false,
        }
    }

    /// The configuration the monitor acts on.
    pub fn active_config(&self) -> (r: &AppConfig)
        ensures
            *r == self.spec_saved(),
    {
        &self.saved_config
    }

    /// The language of the configuration being edited.
    pub fn current_language(&self) -> (r: &str)
        ensures
            r@ == self.spec_draft().language@,
    {
        self.draft_config.language.as_str()
    }

    /// Whether edits are waiting to be saved.
    pub fn has_unsaved_changes(&self) -> (r: bool)
        ensures
            r == self.spec_dirty(),
    {
        self.dirty
    }

    /// Commits the draft: normalizes it, makes it the active configuration,
    /// drops overrides for names no longer selected, and hands back the
    /// configuration to persist. Returns `None`, changing nothing, when no
    /// edits are pending.
    #[verifier::loop_isolation(false)]
    pub fn save_changes(&mut self) -> (r: Option<AppConfig>)
        requires
            old(self).wf(),
        ensures
            final(self).wf(),
            r is Some <==> old(self).spec_dirty(),
            !old(self).spec_dirty() ==> *final(self) == *old(self),
            old(self).spec_dirty() ==> {
                &&& normalizes_to(old(self).spec_draft(), final(self).spec_saved())
                &&& final(self).spec_draft().spec_same(final(self).spec_saved())
                &&& r matches Some(cfg) && cfg.spec_same(final(self).spec_saved())
                &&& final(self).spec_overrides() =~= old(self).spec_overrides().intersect(
                    final(self).spec_saved().spec_selected_set(),
                )
            },
            !final(self).spec_dirty(),
            final(self).focus == old(self).focus,
            final(self).available_processes == old(self).available_processes,
            final(self).pending_process_refresh == old(self).pending_process_refresh,
            final(self).last_cursor_pos == old(self).last_cursor_pos,
            final(self).last_status_message == old(self).last_status_message,
            final(self).spec_record() == old(self).spec_record(),
    {
        if !self.dirty {
            return None;
        }
        let mut cfg = self.draft_config.duplicate();
        cfg.normalize();
        self.saved_config = cfg.duplicate();
        self.draft_config = cfg.duplicate();
        let mut kept: Vec<String> = Vec::new();
        let mut i: usize = 0;
        while i < self.manual_overrides.len()
            invariant
                i <= self.manual_overrides@.len(),
                names_unique(self.manual_overrides@),
                names_unique(kept@),
                forall|n: Seq<char>|
                    seq_contains_name(kept@, n) <==> (seq_contains_name(
                        self.manual_overrides@.take(i as int),
                        n,
                    ) && seq_contains_name(self.saved_config.selected_processes@, n)),
            decreases self.manual_overrides@.len() - i,
        {
            let ghost prev = kept@;
            let candidate = self.manual_overrides[i].clone();
            if vec_contains_name(&self.saved_config.selected_processes, candidate.as_str()) {
                kept.push(candidate);
            }
            proof {
                let taken = self.manual_overrides@.take(i + 1);
                assert(taken =~= self.manual_overrides@.take(i as int).push(
                    self.manual_overrides@[i as int],
                ));
                assert(!seq_contains_name(prev, self.manual_overrides@[i as int]@)) by {
                    if seq_contains_name(prev, self.manual_overrides@[i as int]@) {
                        let m = choose|m: int|
                            0 <= m < self.manual_overrides@.take(i as int).len()
                                && self.manual_overrides@.take(i as int)[m]@
                                == self.manual_overrides@[i as int]@;
                        assert(self.manual_overrides@[m]@ == self.manual_overrides@[
                            i as int]@);
                    }
                }
                assert forall|a: int, b: int| 0 <= a < b < kept@.len() implies kept@[a]@
                    != kept@[b]@ by {
                    if b < prev.len() {
                        assert(prev[a]@ != prev[b]@);
                    } else if b == prev.len() && kept@.len() > prev.len() {
                        assert(kept@[b]@ == self.manual_overrides@[i as int]@);
                        assert(seq_contains_name(prev, kept@[a]@));
                    }
                }
                assert forall|n: Seq<char>|
                    seq_contains_name(kept@, n) <==> (seq_contains_name(taken, n)
                        && seq_contains_name(
                        self.saved_config.selected_processes@,
                        n,
                    )) by {
                    if seq_contains_name(kept@, n) {
                        let k = choose|k: int| 0 <= k < kept@.len() && kept@[k]@ == n;
                        if k < prev.len() {
                            assert(seq_contains_name(prev, n));
                            let m = choose|m: int|
                                0 <= m < self.manual_overrides@.take(i as int).len()
                                    && self.manual_overrides@.take(i as int)[m]@ == n;
                            assert(taken[m]@ == n);
                        } else {
                            assert(kept@[k]@ == self.manual_overrides@[i as int]@);
                            assert(taken[i as int]@ == n);
                        }
                    }
                    if seq_contains_name(taken, n) && seq_contains_name(
                        self.saved_config.selected_processes@,
                        n,
                    ) {
                        let k = choose|k: int| 0 <= k < taken.len() && taken[k]@ == n;
                        if k < i {
                            assert(self.manual_overrides@.take(i as int)[k]@ == n);
                            assert(seq_contains_name(prev, n));
                            let m = choose|m: int| 0 <= m < prev.len() && prev[m]@ == n;
                            assert(kept@[m]@ == n);
                        } else {
                            assert(self.manual_overrides@[i as int]@ == n);
                            if seq_contains_name(prev, n) {
                                let m = choose|m: int| 0 <= m < prev.len() && prev[m]@ == n;
                                assert(kept@[m]@ == n);
                            } else {
                                assert(kept@[kept@.len() - 1]@ == n);
                            }
                        }
                    }
                }
            }
            i += 1;
        }
        proof {
            assert(self.manual_overrides@.take(self.manual_overrides@.len() as int)
                =~= self.manual_overrides@);
        }
        self.manual_overrides = kept;
        self.dirty = false;
        proof {
            assert(self.spec_overrides() =~= old(self).spec_overrides().intersect(
                self.spec_saved().spec_selected_set(),
            ));
        }
        Some(cfg)
    }

    /// Throws the draft away, restoring the active configuration; reports
    /// whether there was anything to discard.
    pub fn discard_changes(&mut self) -> (r: bool)
        requires
            old(self).wf(),
        ensures
            final(self).wf(),
            r == old(self).spec_dirty(),
            !final(self).spec_dirty(),
            r ==> final(self).spec_draft().spec_same(old(self).spec_saved()),
            !r ==> final(self).spec_draft() == old(self).spec_draft(),
            final(self).spec_saved() == old(self).spec_saved(),
            final(self).spec_overrides() == old(self).spec_overrides(),
            final(self).focus == old(self).focus,
            final(self).spec_record() == old(self).spec_record(),
    {
        if self.dirty {
            self.draft_config = self.saved_config.duplicate();
            self.dirty = false;
            true
        } else {
            false
        }
    }

    /// Sets whether automatic switching is enabled in the draft.
    pub fn set_use_auto_to_en(&mut self, enabled: bool)
        requires
            old(self).wf(),
        ensures
            final(self).wf(),
            final(self).spec_draft() == (AppConfig {
                use_auto_to_en: enabled,
                ..old(self).spec_draft()
            }),
            final(self).spec_dirty() == (old(self).spec_dirty() || old(
                self,
            ).spec_draft().use_auto_to_en != enabled),
            final(self).spec_saved() == old(self).spec_saved(),
            final(self).spec_overrides() == old(self).spec_overrides(),
            final(self).focus == old(self).focus,
            final(self).spec_record() == old(self).spec_record(),
    {
        if self.draft_config.use_auto_to_en != enabled {
            self.draft_config.use_auto_to_en = enabled;
            self.dirty = true;
        }
    }

    /// Sets the autostart wish in the draft. Registering the change with the
    /// session manager is the caller's to do, before calling this.
    pub fn set_start_with_windows(&mut self, enabled: bool)
        requires
            old(self).wf(),
        ensures
            final(self).wf(),
            final(self).spec_draft() == (AppConfig {
                start_with_windows: enabled,
                ..old(self).spec_draft()
            }),
            final(self).spec_dirty() == (old(self).spec_dirty() || old(
                self,
            ).spec_draft().start_with_windows != enabled),
            final(self).spec_saved() == old(self).spec_saved(),
            final(self).spec_overrides() == old(self).spec_overrides(),
            final(self).focus == old(self).focus,
            final(self).spec_record() == old(self).spec_record(),
    {
        if self.draft_config.start_with_windows != enabled {
            self.draft_config.start_with_windows = enabled;
            self.dirty = true;
        }
    }

    /// Sets whether cursor movement may override a manual choice.
    pub fn set_use_mouse_move_event(&mut self, enabled: bool)
        requires
            old(self).wf(),
        ensures
            final(self).wf(),
            final(self).spec_draft() == (AppConfig {
                use_mouse_move_event: enabled,
                ..old(self).spec_draft()
            }),
            final(self).spec_dirty() == (old(self).spec_dirty() || old(
                self,
            ).spec_draft().use_mouse_move_event != enabled),
            final(self).spec_saved() == old(self).spec_saved(),
            final(self).spec_overrides() == old(self).spec_overrides(),
            final(self).focus == old(self).focus,
            final(self).spec_record() == old(self).spec_record(),
    {
        if self.draft_config.use_mouse_move_event != enabled {
            self.draft_config.use_mouse_move_event = enabled;
            self.dirty = true;
        }
    }

    /// Sets the polling interval in the draft, never below 100 milliseconds.
    pub fn set_detect_interval(&mut self, interval_ms: u64)
        requires
            old(self).wf(),
        ensures
            final(self).wf(),
            final(self).spec_draft() == (AppConfig {
                detect_interval_ms: if interval_ms < 100 {
                    100u64
                } else {
                    interval_ms
                },
                ..old(self).spec_draft()
            }),
            final(self).spec_dirty() == (old(self).spec_dirty() || old(
                self,
            ).spec_draft().detect_interval_ms != final(self).spec_draft().detect_interval_ms),
            final(self).spec_saved() == old(self).spec_saved(),
            final(self).spec_overrides() == old(self).spec_overrides(),
            final(self).focus == old(self).focus,
            final(self).spec_record() == old(self).spec_record(),
    {
        let new_value: u64 = if interval_ms < 100 {
            100
        } else {
            interval_ms
        };
        if self.draft_config.detect_interval_ms != new_value {
            self.draft_config.detect_interval_ms = new_value;
            self.dirty = true;
        }
    }

    /// Sets the cursor-movement threshold in the draft, never below one
    /// pixel.
    pub fn set_mouse_sensitivity(&mut self, distance_px: u32)
        requires
            old(self).wf(),
        ensures
            final(self).wf(),
            final(self).spec_draft() == (AppConfig {
                mouse_sensitivity: if distance_px < 1 {
                    1u32
                } else {
                    distance_px
                },
                ..old(self).spec_draft()
            }),
            final(self).spec_dirty() == (old(self).spec_dirty() || old(
                self,
            ).spec_draft().mouse_sensitivity != final(self).spec_draft().mouse_sensitivity),
            final(self).spec_saved() == old(self).spec_saved(),
            final(self).spec_overrides() == old(self).spec_overrides(),
            final(self).focus == old(self).focus,
            final(self).spec_record() == old(self).spec_record(),
    {
        let new_value: u32 = if distance_px < 1 {
            1
        } else {
            distance_px
        };
        if self.draft_config.mouse_sensitivity != new_value {
            self.draft_config.mouse_sensitivity = new_value;
            self.dirty = true;
        }
    }

    /// Opts a process name into the draft selection; reports whether it was
    /// new.
    pub fn add_selected_process(&mut self, name: String) -> (r: bool)
        requires
            old(self).wf(),
        ensures
            final(self).wf(),
            r == !seq_contains_name(old(self).spec_draft().selected_processes@, name@),
            forall|n: Seq<char>|
                seq_contains_name(final(self).spec_draft().selected_processes@, n) <==> (
                seq_contains_name(old(self).spec_draft().selected_processes@, n) || n
                    == name@),
            r ==> names_sorted(final(self).spec_draft().selected_processes@),
            final(self).spec_dirty() == (old(self).spec_dirty() || r),
            final(self).spec_draft().use_auto_to_en == old(self).spec_draft().use_auto_to_en,
            final(self).spec_draft().use_mouse_move_event == old(
                self,
            ).spec_draft().use_mouse_move_event,
            final(self).spec_draft().detect_interval_ms == old(
                self,
            ).spec_draft().detect_interval_ms,
            final(self).spec_draft().mouse_sensitivity == old(
                self,
            ).spec_draft().mouse_sensitivity,
            final(self).spec_draft().in_english == old(self).spec_draft().in_english,
            final(self).spec_draft().start_with_windows == old(
                self,
            ).spec_draft().start_with_windows,
            final(self).spec_draft().language@ == old(self).spec_draft().language@,
            final(self).spec_saved() == old(self).spec_saved(),
            final(self).spec_overrides() == old(self).spec_overrides(),
            final(self).focus == old(self).focus,
            final(self).spec_record() == old(self).spec_record(),
    {
        let added = insert_name(&mut self.draft_config.selected_processes, name.as_str());
        if added {
            self.draft_config.selected_processes = sort_names(
                &self.draft_config.selected_processes,
            );
            self.dirty = true;
        }
        added
    }

    /// Drops a process name from the draft selection and clears its manual
    /// override; reports whether the selection shrank.
    pub fn remove_selected_process(&mut self, name: &str) -> (r: bool)
        requires
            old(self).wf(),
        ensures
            final(self).wf(),
            r == seq_contains_name(old(self).spec_draft().selected_processes@, name@),
            forall|n: Seq<char>|
                seq_contains_name(final(self).spec_draft().selected_processes@, n) <==> (
                seq_contains_name(old(self).spec_draft().selected_processes@, n) && n
                    != name@),
            final(self).spec_dirty() == (old(self).spec_dirty() || r),
            final(self).spec_overrides() == old(self).spec_overrides().remove(name@),
            final(self).spec_draft().use_auto_to_en == old(self).spec_draft().use_auto_to_en,
            final(self).spec_draft().use_mouse_move_event == old(
                self,
            ).spec_draft().use_mouse_move_event,
            final(self).spec_draft().detect_interval_ms == old(
                self,
            ).spec_draft().detect_interval_ms,
            final(self).spec_draft().mouse_sensitivity == old(
                self,
            ).spec_draft().mouse_sensitivity,
            final(self).spec_draft().in_english == old(self).spec_draft().in_english,
            final(self).spec_draft().start_with_windows == old(
                self,
            ).spec_draft().start_with_windows,
            final(self).spec_draft().language@ == old(self).spec_draft().language@,
            final(self).spec_saved() == old(self).spec_saved(),
            final(self).focus == old(self).focus,
            final(self).spec_record() == old(self).spec_record(),
    {
        let removed = remove_name(&mut self.draft_config.selected_processes, name);
        if removed {
            self.dirty = true;
        }
        remove_name(&mut self.manual_overrides, name);
        proof {
            assert(self.spec_overrides() =~= old(self).spec_overrides().remove(name@));
        }
        removed
    }

    /// Settles a requested language and stores it in the draft; reports
    /// whether the stored value changed.
    pub fn set_language(&mut self, language: &str) -> (r: bool)
        requires
            old(self).wf(),
        ensures
            final(self).wf(),
            final(self).spec_draft().language@ == spec_settled_language(lower_of(language@)),
            r == (old(self).spec_draft().language@ != spec_settled_language(
                lower_of(language@),
            )),
            final(self).spec_dirty() == (old(self).spec_dirty() || r),
            final(self).spec_draft().selected_processes@ == old(
                self,
            ).spec_draft().selected_processes@,
            final(self).spec_draft().use_auto_to_en == old(self).spec_draft().use_auto_to_en,
            final(self).spec_draft().use_mouse_move_event == old(
                self,
            ).spec_draft().use_mouse_move_event,
            final(self).spec_draft().detect_interval_ms == old(
                self,
            ).spec_draft().detect_interval_ms,
            final(self).spec_draft().mouse_sensitivity == old(
                self,
            ).spec_draft().mouse_sensitivity,
            final(self).spec_draft().in_english == old(self).spec_draft().in_english,
            final(self).spec_draft().start_with_windows == old(
                self,
            ).spec_draft().start_with_windows,
            final(self).spec_saved() == old(self).spec_saved(),
            final(self).spec_overrides() == old(self).spec_overrides(),
            final(self).focus == old(self).focus,
            final(self).spec_record() == old(self).spec_record(),
    {
        let normalized = sanitize_language(language);
        if !str_eq(self.draft_config.language.as_str(), normalized.as_str()) {
            self.draft_config.language = normalized;
            self.dirty = true;
            true
        } else {
            false
        }
    }

    /// Replaces the cached list of selectable processes.
    pub fn set_available_processes(&mut self, processes: Vec<ProcessInfo>)
        requires
            old(self).wf(),
        ensures
            final(self).wf(),
            final(self).available_processes == processes,
            final(self).spec_saved() == old(self).spec_saved(),
            final(self).spec_draft() == old(self).spec_draft(),
            final(self).spec_dirty() == old(self).spec_dirty(),
            final(self).spec_overrides() == old(self).spec_overrides(),
            final(self).focus == old(self).focus,
            final(self).spec_record() == old(self).spec_record(),
    {
        self.available_processes = processes;
    }

    /// Replaces the focus snapshot wholesale.
    pub fn set_focus(&mut self, focus: Option<FocusSnapshotInternal>)
        requires
            old(self).wf(),
        ensures
            final(self).wf(),
            final(self).focus == focus,
            final(self).spec_saved() == old(self).spec_saved(),
            final(self).spec_draft() == old(self).spec_draft(),
            final(self).spec_dirty() == old(self).spec_dirty(),
            final(self).spec_overrides() == old(self).spec_overrides(),
            final(self).last_cursor_pos == old(self).last_cursor_pos,
            final(self).last_status_message == old(self).last_status_message,
            final(self).available_processes == old(self).available_processes,
            final(self).pending_process_refresh == old(self).pending_process_refresh,
            final(self).spec_record() == old(self).spec_record(),
    {
        self.focus = focus;
    }

    /// Sets or clears the manual override for a process name, and keeps the
    /// flag copied into a matching focus snapshot in step.
    pub fn set_manual_override(&mut self, process_name: &str, enabled: bool)
        requires
            old(self).wf(),
        ensures
            final(self).wf(),
            final(self).spec_overrides() == if enabled {
                old(self).spec_overrides().insert(process_name@)
            } else {
                old(self).spec_overrides().remove(process_name@)
            },
            final(self).focus == (match old(self).focus {
                Some(s) => Some(
                    (FocusSnapshotInternal {
                        manual_override: if s.process matches Some(p) && p.name@
                            == process_name@ {
                            enabled
                        } else {
                            s.manual_override
                        },
                        ..s
                    }),
                ),
                None => None,
            }),
            final(self).spec_saved() == old(self).spec_saved(),
            final(self).spec_draft() == old(self).spec_draft(),
            final(self).spec_dirty() == old(self).spec_dirty(),
            final(self).last_cursor_pos == old(self).last_cursor_pos,
            final(self).last_status_message == old(self).last_status_message,
            final(self).available_processes == old(self).available_processes,
            final(self).pending_process_refresh == old(self).pending_process_refresh,
            final(self).spec_record() == old(self).spec_record(),
    {
        if enabled {
            insert_name(&mut self.manual_overrides, process_name);
            proof {
                assert(self.spec_overrides() =~= old(self).spec_overrides().insert(
                    process_name@,
                ));
            }
        } else {
            remove_name(&mut self.manual_overrides, process_name);
            proof {
                assert(self.spec_overrides() =~= old(self).spec_overrides().remove(
                    process_name@,
                ));
            }
        }
        match &mut self.focus {
            Some(snapshot) => {
                let update = match &snapshot.process {
                    Some(proc) => str_eq(proc.name.as_str(), process_name),
                    None => false,
                };
                if update {
                    snapshot.manual_override = enabled;
                }
            },
            None => {},
        }
    }

    /// Whether the manual override for a process name is active.
    pub fn manual_override_for(&self, process_name: &str) -> (r: bool)
        ensures
            r == self.spec_overrides().contains(process_name@),
    {
        vec_contains_name(&self.manual_overrides, process_name)
    }

    /// Asks the monitor to refresh the selectable-process list.
    pub fn request_process_refresh(&mut self)
        requires
            old(self).wf(),
        ensures
            final(self).wf(),
            final(self).pending_process_refresh,
            final(self).spec_saved() == old(self).spec_saved(),
            final(self).spec_draft() == old(self).spec_draft(),
            final(self).spec_dirty() == old(self).spec_dirty(),
            final(self).spec_overrides() == old(self).spec_overrides(),
            final(self).focus == old(self).focus,
            final(self).spec_record() == old(self).spec_record(),
    {
        self.pending_process_refresh = true;
    }

    /// Takes a pending refresh request, clearing it.
    pub fn take_process_refresh_request(&mut self) -> (r: bool)
        requires
            old(self).wf(),
        ensures
            final(self).wf(),
            r == old(self).pending_process_refresh,
            !final(self).pending_process_refresh,
            final(self).spec_saved() == old(self).spec_saved(),
            final(self).spec_draft() == old(self).spec_draft(),
            final(self).spec_dirty() == old(self).spec_dirty(),
            final(self).spec_overrides() == old(self).spec_overrides(),
            final(self).focus == old(self).focus,
            final(self).spec_record() == old(self).spec_record(),
    {
        if self.pending_process_refresh {
            self.pending_process_refresh = false;
            true
        } else {
            false
        }
    }

    /// Replaces the banner message shown in the interface.
    pub fn update_status_message(&mut self, message: Option<StatusMessage>)
        requires
            old(self).wf(),
        ensures
            final(self).wf(),
            final(self).last_status_message == message,
            final(self).spec_saved() == old(self).spec_saved(),
            final(self).spec_draft() == old(self).spec_draft(),
            final(self).spec_dirty() == old(self).spec_dirty(),
            final(self).spec_overrides() == old(self).spec_overrides(),
            final(self).focus == old(self).focus,
            final(self).spec_record() == old(self).spec_record(),
    {
        self.last_status_message = message;
    }

    /// Whether a notification should be emitted at instant `now_ms`: always,
    /// unless the remembered notification reads the same and was emitted
    /// less than `cooldown_ms` milliseconds before.
    pub open spec fn spec_should_emit(
        self,
        message: StatusMessage,
        cooldown_ms: i64,
        now_ms: i64,
    ) -> bool {
        match self.spec_record() {
            Some(rec) => !rec.0.spec_same(message) || now_ms - rec.1 >= cooldown_ms,
            None => true,
        }
    }

    /// Decides [`Self::spec_should_emit`] for a given instant.
    pub fn should_emit_status_at(
        &self,
        message: &StatusMessage,
        cooldown_ms: i64,
        now_ms: i64,
    ) -> (r: bool)
        requires
            self.wf(),
            message.wf(),
        ensures
            r == self.spec_should_emit(*message, cooldown_ms, now_ms),
    {
        match &self.last_status_record {
            Some(rec) => {
                if rec.message.same_as(message) {
                    let elapsed: i128 = (now_ms as i128) - (rec.at_ms as i128);
                    elapsed >= (cooldown_ms as i128)
                } else {
                    true
                }
            },
            None => true,
        }
    }

    /// Decides emission against the wall clock. A duplicate inside the
    /// cooldown window is suppressed; a new or different message always
    /// passes.
    pub fn should_emit_status(&self, message: &StatusMessage, cooldown_ms: i64) -> (r: bool)
        requires
            self.wf(),
            message.wf(),
        ensures
            self.spec_record() is None ==> r,
            self.spec_record() matches Some(rec) && !rec.0.spec_same(*message) ==> r,
    {
        let now = now_millis();
        self.should_emit_status_at(message, cooldown_ms, now)
    }

    /// Remembers a notification as emitted at instant `now_ms`, replacing
    /// any earlier record.
    pub fn record_status_at(&mut self, message: &StatusMessage, now_ms: i64)
        requires
            old(self).wf(),
            message.wf(),
        ensures
            final(self).wf(),
            final(self).spec_record() matches Some(rec) && rec.0.key@ == message.key@
                && rec.0.values@ == message.values@ && rec.1 == now_ms,
            final(self).spec_saved() == old(self).spec_saved(),
            final(self).spec_draft() == old(self).spec_draft(),
            final(self).spec_dirty() == old(self).spec_dirty(),
            final(self).spec_overrides() == old(self).spec_overrides(),
            final(self).focus == old(self).focus,
            final(self).last_cursor_pos == old(self).last_cursor_pos,
            final(self).last_status_message == old(self).last_status_message,
    {
        self.last_status_record = Some(StatusRecord { message: message.duplicate(), at_ms: now_ms });
    }

    /// Remembers a notification as emitted now, against the wall clock.
    pub fn record_status(&mut self, message: StatusMessage)
        requires
            old(self).wf(),
            message.wf(),
        ensures
            final(self).wf(),
            final(self).spec_record() matches Some(rec) && rec.0.key@ == message.key@
                && rec.0.values@ == message.values@,
            final(self).spec_saved() == old(self).spec_saved(),
            final(self).spec_draft() == old(self).spec_draft(),
            final(self).spec_dirty() == old(self).spec_dirty(),
            final(self).spec_overrides() == old(self).spec_overrides(),
            final(self).focus == old(self).focus,
            final(self).last_cursor_pos == old(self).last_cursor_pos,
            final(self).last_status_message == old(self).last_status_message,
    {
        let now = now_millis();
        self.record_status_at(&message, now);
    }

    /// A copy of everything the interface shows. The banner slot is handed
    /// over empty; pushing one is a separate step.
    pub fn to_view_model(&self) -> (r: AppViewModel)
        requires
            self.wf(),
        ensures
            r.saved_config.spec_same(self.spec_saved()),
            r.draft_config.spec_same(self.spec_draft()),
            r.available_processes@ == self.available_processes@,
            r.has_unsaved_changes == self.spec_dirty(),
            r.status_message is None,
            self.focus is None ==> r.focus is None,
            self.focus matches Some(f) ==> r.focus matches Some(s) && s.process == f.process
                && s.ime_status == f.ime_status && s.manual_override == f.manual_override,
    {
        let focus = match &self.focus {
            Some(f) => Some(f.to_snapshot()),
            None => None,
        };
        AppViewModel {
            saved_config: self.saved_config.duplicate(),
            draft_config: self.draft_config.duplicate(),
            available_processes: duplicate_processes(&self.available_processes),
            focus,
            has_unsaved_changes: self.dirty,
            status_message: None,
        }
    }
}

/// Debounce: while the cooldown window of the remembered notification is
/// still open, an identical notification is suppressed; a structurally
/// different one passes whatever the elapsed time.
pub proof fn lemma_debounce(
    recorded: StatusMessage,
    at_ms: i64,
    s: AppState,
    probe: StatusMessage,
    cooldown_ms: i64,
    now_ms: i64,
)
    requires
        s.spec_record() == Some((recorded, at_ms)),
    ensures
        recorded.spec_same(probe) && now_ms - at_ms < cooldown_ms ==> !s.spec_should_emit(
            probe,
            cooldown_ms,
            now_ms,
        ),
        !recorded.spec_same(probe) ==> s.spec_should_emit(probe, cooldown_ms, now_ms),
{
}

/// Everything the interface renders, copied out of the state in one piece.
#[derive(Debug, Clone)]
pub struct AppViewModel {
    pub saved_config: AppConfig,
    pub draft_config: AppConfig,
    pub available_processes: Vec<ProcessInfo>,
    pub focus: Option<FocusSnapshot>,
    pub has_unsaved_changes: bool,
    pub status_message: Option<StatusMessage>,
}

} // verus!
