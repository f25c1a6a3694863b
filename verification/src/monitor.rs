use vstd::prelude::*;

use crate::config::{seq_contains_name, vec_contains_name, AppConfig};
use crate::ime::ImeStatus;
use crate::process::ProcessInfo;
use crate::state::{
    lemma_singleton_params, AppState, FocusSnapshotInternal, StatusMessage,
};
use crate::text::str_eq;

verus! {

/// Milliseconds during which an identical notification is not re-emitted.
pub const STATUS_COOLDOWN_MS: i64 = 1000;

/// Message key for a switch forced by cursor movement.
pub const MOUSE_MOVE_MESSAGE_KEY: &'static str = "toast.status.mouseMove";

/// Message key for an ordinary automatic switch.
pub const AUTO_SWITCH_MESSAGE_KEY: &'static str = "toast.status.autoSwitch";

/// Whether the cursor moved at least `sensitivity` pixels between two
/// readings. The inclusive straight-line test is stated on squared
/// distances, which says the same thing without a square root. The readings
/// are one tick apart, so what a given sensitivity means in practice is
/// coupled to the polling interval; that coupling is inherited, not a flaw
/// to fix here.
pub open spec fn spec_moved_at_least(a: (i32, i32), b: (i32, i32), sensitivity: u32) -> bool {
    (a.0 - b.0) * (a.0 - b.0) + (a.1 - b.1) * (a.1 - b.1) >= sensitivity * sensitivity
}

/// Decides [`spec_moved_at_least`] in exact integer arithmetic.
pub fn moved_at_least(a: (i32, i32), b: (i32, i32), sensitivity: u32) -> (r: bool)
    ensures
        r == spec_moved_at_least(a, b, sensitivity),
{
    let dx: i128 = (a.0 as i128) - (b.0 as i128);
    let dy: i128 = (a.1 as i128) - (b.1 as i128);
    let s: i128 = sensitivity as i128;
    proof {
        assert(0 <= dx * dx <= 0x10000000000000000i128) by (nonlinear_arith)
            requires
                -0x100000000i128 <= dx <= 0x100000000i128,
        ;
        assert(0 <= dy * dy <= 0x10000000000000000i128) by (nonlinear_arith)
            requires
                -0x100000000i128 <= dy <= 0x100000000i128,
        ;
        assert(0 <= s * s <= 0x10000000000000000i128) by (nonlinear_arith)
            requires
                0 <= s <= 0x100000000i128,
        ;
    }
    dx * dx + dy * dy >= s * s
}

/// What one decision pass concludes, before the actuator is consulted.
#[derive(Debug, Clone, Copy)]
pub struct TickDecision {
    /// The focused process is on the selected list.
    pub process_selected: bool,
    /// The manual-override flag to commit for the focused process.
    pub manual_override: bool,
    /// Whether the actuator's switch-to-target action is to be invoked.
    pub should_switch: bool,
    /// Whether cursor movement forced the switch, which queues its own
    /// notification.
    pub mouse_moved: bool,
    /// The cursor memory to carry into the next tick.
    pub new_cursor: Option<(i32, i32)>,
}

/// Step one: the focused process name is on the selected list.
pub open spec fn spec_process_selected(cfg: AppConfig, name: Seq<char>) -> bool {
    seq_contains_name(cfg.selected_processes@, name)
}

/// The hysteresis reading: the same process stayed focused, the previous
/// observation was the target mode, and the current one is the original
/// mode — the user just switched away deliberately. An `Unknown` previous
/// reading never counts as such evidence.
pub open spec fn spec_hysteresis_fires(
    prev: Option<FocusSnapshotInternal>,
    name: Seq<char>,
    ime: ImeStatus,
) -> bool {
    match prev {
        Some(p) => match p.process {
            Some(pp) => pp.name@ == name && p.ime_status == ImeStatus::English && ime
                == ImeStatus::Original,
            None => false,
        },
        None => false,
    }
}

/// The override flag after the hysteresis and self-clear rules, before any
/// cursor evidence: untouched for an unselected process; cleared whenever
/// the target mode is already in place; raised by hysteresis.
pub open spec fn spec_override_after_rules(
    selected: bool,
    prior: bool,
    prev: Option<FocusSnapshotInternal>,
    name: Seq<char>,
    ime: ImeStatus,
) -> bool {
    if selected {
        if ime == ImeStatus::English {
            false
        } else {
            prior || spec_hysteresis_fires(prev, name, ime)
        }
    } else {
        prior
    }
}

/// The cursor rule fires: movement tracking is on, both readings exist, and
/// the pointer travelled at least the configured threshold.
pub open spec fn spec_cursor_fires(
    cfg: AppConfig,
    selected: bool,
    last_cursor: Option<(i32, i32)>,
    reading: Option<(i32, i32)>,
) -> bool {
    &&& selected
    &&& cfg.use_mouse_move_event
    &&& reading is Some
    &&& last_cursor is Some
    &&& spec_moved_at_least(last_cursor.unwrap(), reading.unwrap(), cfg.mouse_sensitivity)
}

/// The override flag a tick commits: cursor movement withdraws it, else the
/// hysteresis and self-clear rules decide.
pub open spec fn spec_final_override(
    cfg: AppConfig,
    prev: Option<FocusSnapshotInternal>,
    prior: bool,
    last_cursor: Option<(i32, i32)>,
    name: Seq<char>,
    ime: ImeStatus,
    reading: Option<(i32, i32)>,
) -> bool {
    let selected = spec_process_selected(cfg, name);
    if spec_cursor_fires(cfg, selected, last_cursor, reading) {
        false
    } else {
        spec_override_after_rules(selected, prior, prev, name, ime)
    }
}

/// Whether the switch action is requested: the ordinary rule (selected,
/// enabled, mode not target, no override standing) or the cursor rule with
/// the mode not target.
pub open spec fn spec_should_switch(
    cfg: AppConfig,
    prev: Option<FocusSnapshotInternal>,
    prior: bool,
    last_cursor: Option<(i32, i32)>,
    name: Seq<char>,
    ime: ImeStatus,
    reading: Option<(i32, i32)>,
) -> bool {
    let selected = spec_process_selected(cfg, name);
    ||| (selected && cfg.use_auto_to_en && ime.spec_non_target() && !spec_override_after_rules(
        selected,
        prior,
        prev,
        name,
        ime,
    ))
    ||| (spec_cursor_fires(cfg, selected, last_cursor, reading) && ime.spec_non_target())
}

/// Whether the cursor rule queues its notification: it fired and the mode
/// was not the target.
pub open spec fn spec_mouse_message(
    cfg: AppConfig,
    selected: bool,
    last_cursor: Option<(i32, i32)>,
    ime: ImeStatus,
    reading: Option<(i32, i32)>,
) -> bool {
    spec_cursor_fires(cfg, selected, last_cursor, reading) && ime.spec_non_target()
}

/// The cursor memory after the tick: the fresh reading whenever it was
/// taken for a selected process with movement tracking on, else the old one.
pub open spec fn spec_new_cursor(
    cfg: AppConfig,
    selected: bool,
    last_cursor: Option<(i32, i32)>,
    reading: Option<(i32, i32)>,
) -> Option<(i32, i32)> {
    if selected && cfg.use_mouse_move_event && reading is Some {
        reading
    } else {
        last_cursor
    }
}

/// Everything one decision pass concludes, from the configuration snapshot,
/// the previous focus snapshot, the override flag looked up for the focused
/// process, the carried cursor memory, and the fresh observations.
pub open spec fn spec_decision(
    cfg: AppConfig,
    prev: Option<FocusSnapshotInternal>,
    prior: bool,
    last_cursor: Option<(i32, i32)>,
    name: Seq<char>,
    ime: ImeStatus,
    reading: Option<(i32, i32)>,
) -> TickDecision {
    let selected = spec_process_selected(cfg, name);
    TickDecision {
        process_selected: selected,
        manual_override: spec_final_override(cfg, prev, prior, last_cursor, name, ime, reading),
        should_switch: spec_should_switch(cfg, prev, prior, last_cursor, name, ime, reading),
        mouse_moved: spec_mouse_message(cfg, selected, last_cursor, ime, reading),
        new_cursor: spec_new_cursor(cfg, selected, last_cursor, reading),
    }
}

/// One decision pass of the engine, fusing focus identity, the input-method
/// reading, override tracking and cursor evidence into a switch/no-switch
/// decision. Pure: oracles are read before, the actuator runs after.
pub fn evaluate_tick(
    cfg: &AppConfig,
    prev_focus: &Option<FocusSnapshotInternal>,
    prior_override: bool,
    last_cursor: Option<(i32, i32)>,
    process_name: &str,
    ime: ImeStatus,
    cursor_reading: Option<(i32, i32)>,
) -> (r: TickDecision)
    ensures
        r == spec_decision(
            *cfg,
            *prev_focus,
            prior_override,
            last_cursor,
            process_name@,
            ime,
            cursor_reading,
        ),
{
    let process_selected = vec_contains_name(&cfg.selected_processes, process_name);
    let mut manual_change = prior_override;
    let mut should_switch = false;
    let mut mouse_moved = false;

    if process_selected {
        match prev_focus {
            Some(prev) => match &prev.process {
                Some(prev_proc) => {
                    if str_eq(prev_proc.name.as_str(), process_name) && prev.ime_status
                        == ImeStatus::English && ime == ImeStatus::Original {
                        manual_change = true;
                    }
                },
                None => {},
            },
            None => {},
        }
        if manual_change && ime == ImeStatus::English {
            manual_change = false;
        }
        if cfg.use_auto_to_en && ime.non_target() && !manual_change {
            should_switch = true;
        }
    }

    let mut new_cursor = last_cursor;
    if process_selected && cfg.use_mouse_move_event {
        if let Some(position) = cursor_reading {
            new_cursor = Some(position);
            if let Some(previous) = last_cursor {
                if moved_at_least(previous, position, cfg.mouse_sensitivity) {
                    manual_change = false;
                    if ime.non_target() {
                        should_switch = true;
                        mouse_moved = true;
                    }
                }
            }
        }
    }

    TickDecision {
        process_selected,
        manual_override: manual_change,
        should_switch,
        mouse_moved,
        new_cursor,
    }
}

/// How the attempt to restore the target mode went.
#[derive(Debug, Clone, Copy, PartialEq, Eq, Structural)]
pub enum SwitchAttempt {
    /// No switch was requested this tick.
    NotAttempted,
    /// The actuator reported success; `toggled` says whether an actual
    /// toggle happened rather than a no-op.
    Completed { toggled: bool },
    /// The actuator failed. The tick still commits, using the pre-attempt
    /// reading; nothing is rolled back.
    Failed,
}

/// The mode the tick commits: the target mode when the actuator reported
/// success, else the pre-attempt reading.
pub open spec fn spec_resulting_mode(observed: ImeStatus, attempt: SwitchAttempt) -> ImeStatus {
    match attempt {
        SwitchAttempt::Completed { .. } => ImeStatus::English,
        SwitchAttempt::NotAttempted => observed,
        SwitchAttempt::Failed => observed,
    }
}

/// Executable form of [`spec_resulting_mode`].
pub fn resulting_mode(observed: ImeStatus, attempt: SwitchAttempt) -> (r: ImeStatus)
    ensures
        r == spec_resulting_mode(observed, attempt),
{
    match attempt {
        SwitchAttempt::Completed { .. } => ImeStatus::English,
        SwitchAttempt::NotAttempted => observed,
        SwitchAttempt::Failed => observed,
    }
}

/// A message with exactly one parameter, the process name.
pub open spec fn spec_named_message(m: StatusMessage, key: Seq<char>, name: Seq<char>) -> bool {
    &&& m.wf()
    &&& m.key@ == key
    &&& m.values@.len() == 1
    &&& m.values@[0].0@ == "name"@
    &&& m.values@[0].1@ == name
}

/// Builds the notification for `key`, parameterized by the process name.
fn named_message(key: &str, process_name: &str) -> (r: StatusMessage)
    ensures
        spec_named_message(r, key@, process_name@),
{
    let mut values: Vec<(String, String)> = Vec::new();
    values.push(("name".to_owned(), process_name.to_owned()));
    StatusMessage::with_values(key.to_owned(), values)
}

/// The key of the notification a tick queues: the auto-switch one when a
/// real toggle happened, else the mouse-move one when cursor movement
/// forced the decision, else none.
pub open spec fn spec_tick_message_key(
    decision: TickDecision,
    attempt: SwitchAttempt,
) -> Option<Seq<char>> {
    if attempt == (SwitchAttempt::Completed { toggled: true }) {
        Some(AUTO_SWITCH_MESSAGE_KEY@)
    } else if decision.mouse_moved {
        Some(MOUSE_MOVE_MESSAGE_KEY@)
    } else {
        None
    }
}

/// The notification a tick queues, if any, before debouncing.
pub fn tick_message(
    decision: &TickDecision,
    attempt: SwitchAttempt,
    process_name: &str,
) -> (r: Option<StatusMessage>)
    ensures
        match spec_tick_message_key(*decision, attempt) {
            Some(key) => r matches Some(m) && spec_named_message(m, key, process_name@),
            None => r is None,
        },
{
    let toggled = match attempt {
        SwitchAttempt::Completed { toggled } => toggled,
        SwitchAttempt::NotAttempted => false,
        SwitchAttempt::Failed => false,
    };
    if toggled {
        Some(named_message(AUTO_SWITCH_MESSAGE_KEY, process_name))
    } else if decision.mouse_moved {
        Some(named_message(MOUSE_MOVE_MESSAGE_KEY, process_name))
    } else {
        None
    }
}

/// Commits one tick that observed a focused process: the override set takes
/// the decided flag for that process, the focus snapshot is replaced
/// wholesale with the resulting mode and the decision's flag, and the
/// cursor memory is updated. Configuration, edits and the debounce record
/// are untouched.
pub fn commit_tick(
    state: &mut AppState,
    process: &ProcessInfo,
    resulting: ImeStatus,
    decision: &TickDecision,
    now_ms: i64,
)
    requires
        old(state).wf(),
    ensures
        final(state).wf(),
        final(state).spec_overrides() == if decision.manual_override {
            old(state).spec_overrides().insert(process.name@)
        } else {
            old(state).spec_overrides().remove(process.name@)
        },
        final(state).focus matches Some(f) && f.process matches Some(p) && p == *process
            && f.ime_status == resulting && f.manual_override == decision.manual_override
            && f.updated_at_ms == now_ms,
        final(state).last_cursor_pos == decision.new_cursor,
        final(state).spec_saved() == old(state).spec_saved(),
        final(state).spec_draft() == old(state).spec_draft(),
        final(state).spec_dirty() == old(state).spec_dirty(),
        final(state).spec_record() == old(state).spec_record(),
        final(state).last_status_message == old(state).last_status_message,
        final(state).pending_process_refresh == old(state).pending_process_refresh,
        final(state).available_processes == old(state).available_processes,
{
    state.set_manual_override(process.name.as_str(), decision.manual_override);
    state.set_focus(
        Some(
            FocusSnapshotInternal {
                process: Some(process.duplicate()),
                ime_status: resulting,
                manual_override: decision.manual_override,
                updated_at_ms: now_ms,
            },
        ),
    );
    state.last_cursor_pos = decision.new_cursor;
}

/// Whether the remembered notification blocks one reading (`key`, name
/// parameter `name`) at instant `now`: it reads the same and its cooldown
/// window is still open.
pub open spec fn spec_record_blocks(
    rec: Option<(StatusMessage, i64)>,
    key: Seq<char>,
    name: Seq<char>,
    cooldown_ms: i64,
    now_ms: i64,
) -> bool {
    match rec {
        Some(r) => r.0.key@ == key && r.0.params() == Map::<Seq<char>, Seq<char>>::empty().insert(
            "name"@,
            name,
        ) && now_ms - r.1 < cooldown_ms,
        None => false,
    }
}

/// Finishes one tick after the actuator was consulted: commits the state
/// and passes any queued notification through the debouncer, remembering it
/// when it is emitted. Returns the notification to emit, if any.
pub fn finish_tick(
    state: &mut AppState,
    process: &ProcessInfo,
    observed: ImeStatus,
    decision: &TickDecision,
    attempt: SwitchAttempt,
    now_ms: i64,
) -> (emitted: Option<StatusMessage>)
    requires
        old(state).wf(),
    ensures
        final(state).wf(),
        final(state).spec_overrides() == if decision.manual_override {
            old(state).spec_overrides().insert(process.name@)
        } else {
            old(state).spec_overrides().remove(process.name@)
        },
        final(state).focus matches Some(f) && f.process matches Some(p) && p == *process
            && f.ime_status == spec_resulting_mode(observed, attempt) && f.manual_override
            == decision.manual_override && f.updated_at_ms == now_ms,
        final(state).last_cursor_pos == decision.new_cursor,
        final(state).spec_saved() == old(state).spec_saved(),
        final(state).spec_draft() == old(state).spec_draft(),
        final(state).spec_dirty() == old(state).spec_dirty(),
        match spec_tick_message_key(*decision, attempt) {
            None => emitted is None && final(state).spec_record() == old(state).spec_record(),
            Some(key) => {
                if spec_record_blocks(
                    old(state).spec_record(),
                    key,
                    process.name@,
                    STATUS_COOLDOWN_MS,
                    now_ms,
                ) {
                    emitted is None && final(state).spec_record() == old(state).spec_record()
                } else {
                    &&& emitted matches Some(m) && spec_named_message(m, key, process.name@)
                    &&& final(state).spec_record() matches Some(rec) && spec_named_message(
                        rec.0,
                        key,
                        process.name@,
                    ) && rec.1 == now_ms
                }
            },
        },
{
    let resulting = resulting_mode(observed, attempt);
    commit_tick(state, process, resulting, decision, now_ms);
    let message = tick_message(decision, attempt, process.name.as_str());
    match message {
        Some(msg) => {
            proof {
                lemma_singleton_params(msg.values@);
            }
            if state.should_emit_status_at(&msg, STATUS_COOLDOWN_MS, now_ms) {
                state.record_status_at(&msg, now_ms);
                Some(msg)
            } else {
                None
            }
        },
        None => None,
    }
}

/// A tick whose focused process is not selected requests no switch and
/// decides the very override flag it looked up, so committing it gives the
/// override set back unchanged.
pub proof fn lemma_unselected_tick_is_inert(
    cfg: AppConfig,
    prev: Option<FocusSnapshotInternal>,
    prior: bool,
    last_cursor: Option<(i32, i32)>,
    name: Seq<char>,
    ime: ImeStatus,
    reading: Option<(i32, i32)>,
    overrides: Set<Seq<char>>,
)
    requires
        !spec_process_selected(cfg, name),
        prior == overrides.contains(name),
    ensures
        !spec_decision(cfg, prev, prior, last_cursor, name, ime, reading).should_switch,
        spec_decision(cfg, prev, prior, last_cursor, name, ime, reading).manual_override
            == prior,
        (if spec_decision(cfg, prev, prior, last_cursor, name, ime, reading).manual_override {
            overrides.insert(name)
        } else {
            overrides.remove(name)
        }) == overrides,
{
    if prior {
        assert(overrides.insert(name) =~= overrides);
    } else {
        assert(overrides.remove(name) =~= overrides);
    }
}

/// With the mode already the target, a decision pass never requests a
/// switch: however often such ticks repeat, the actuator is never invoked.
pub proof fn lemma_target_mode_never_switches(
    cfg: AppConfig,
    prev: Option<FocusSnapshotInternal>,
    prior: bool,
    last_cursor: Option<(i32, i32)>,
    name: Seq<char>,
    reading: Option<(i32, i32)>,
)
    ensures
        !spec_decision(
            cfg,
            prev,
            prior,
            last_cursor,
            name,
            ImeStatus::English,
            reading,
        ).should_switch,
{
}

/// Hysteresis: the same selected process stayed focused, the previous
/// reading was the target mode and the current one is the original mode, and
/// no cursor evidence overrides it — the tick raises the manual override
/// and requests no switch.
pub proof fn lemma_hysteresis(
    cfg: AppConfig,
    prev: Option<FocusSnapshotInternal>,
    prior: bool,
    last_cursor: Option<(i32, i32)>,
    name: Seq<char>,
    ime: ImeStatus,
    reading: Option<(i32, i32)>,
)
    requires
        spec_process_selected(cfg, name),
        spec_hysteresis_fires(prev, name, ime),
        !spec_cursor_fires(cfg, spec_process_selected(cfg, name), last_cursor, reading),
    ensures
        spec_decision(cfg, prev, prior, last_cursor, name, ime, reading).manual_override,
        !spec_decision(cfg, prev, prior, last_cursor, name, ime, reading).should_switch,
{
}

/// Self-clear: an active manual override is withdrawn by the first tick
/// that sees the selected process already in the target mode, before switch
/// eligibility is weighed; no switch is requested either.
pub proof fn lemma_self_clear(
    cfg: AppConfig,
    prev: Option<FocusSnapshotInternal>,
    last_cursor: Option<(i32, i32)>,
    name: Seq<char>,
    reading: Option<(i32, i32)>,
)
    requires
        spec_process_selected(cfg, name),
    ensures
        !spec_decision(
            cfg,
            prev,
            true,
            last_cursor,
            name,
            ImeStatus::English,
            reading,
        ).manual_override,
        !spec_decision(
            cfg,
            prev,
            true,
            last_cursor,
            name,
            ImeStatus::English,
            reading,
        ).should_switch,
{
}

/// Cursor override at the boundary: with movement tracking on, a selected
/// process in a non-target mode, and the pointer moved exactly the
/// configured threshold, the inclusive test fires — the manual override is
/// withdrawn, a switch is requested, and the mouse-move notification is
/// queued.
pub proof fn lemma_cursor_override_at_boundary(
    cfg: AppConfig,
    prev: Option<FocusSnapshotInternal>,
    prior: bool,
    last: (i32, i32),
    current: (i32, i32),
    name: Seq<char>,
    ime: ImeStatus,
)
    requires
        spec_process_selected(cfg, name),
        cfg.use_mouse_move_event,
        ime.spec_non_target(),
        (last.0 - current.0) * (last.0 - current.0) + (last.1 - current.1) * (last.1
            - current.1) == cfg.mouse_sensitivity * cfg.mouse_sensitivity,
    ensures
        !spec_decision(
            cfg,
            prev,
            prior,
            Some(last),
            name,
            ime,
            Some(current),
        ).manual_override,
        spec_decision(cfg, prev, prior, Some(last), name, ime, Some(current)).should_switch,
        spec_decision(cfg, prev, prior, Some(last), name, ime, Some(current)).mouse_moved,
{
}

} // verus!
