//! Waiting for a new file to be written completely.
//!
//! Nothing tells when a download is finished, so the file's size is read
//! every half second. Three readings in a row that are equal and not zero
//! make the file ready. When the time is up the file is taken anyway if
//! its last reading was not zero: a file that stalled half-way is rather
//! processed than lost. A file that cannot be read is given up at once.

use vstd::prelude::*;

verus! {

/// The pause between two readings, in milliseconds.
pub const POLL_INTERVAL_MS: u64 = 500;

/// The number of equal readings in a row that make a file ready.
pub const STABLE_READINGS: u32 = 3;

/// How long a file is waited for, in seconds.
pub const TIMEOUT_SECS: u64 = 30;

/// What is remembered between two readings.
#[derive(Clone, Copy, Debug, PartialEq, Eq, Structural)]
pub struct Stabilizer {
    /// The last size read, if any.
    pub last: Option<u64>,
    /// How many readings in a row, up to and including the last, were
    /// equal and not zero.
    pub stable: u32,
}

/// What happened while waiting.
#[derive(Clone, Copy, Debug, PartialEq, Eq, Structural)]
pub enum WaitEvent {
    /// The clock was read: so many milliseconds have passed since the wait
    /// began.
    Clock { elapsed_ms: u64 },
    /// The file's size was read, or could not be (`None`).
    Reading { size: Option<u64> },
}

/// What to do next while waiting.
#[derive(Clone, Copy, Debug, PartialEq, Eq, Structural)]
pub enum WaitAction {
    /// Read the file's size and report it.
    Read,
    /// Pause for so many milliseconds, then read the clock and report it.
    Sleep { ms: u64 },
    /// The wait is over; `ready` says whether the file is to be processed.
    Finish { ready: bool },
}

/// The state before the first reading.
pub open spec fn initial() -> Stabilizer {
    Stabilizer { last: None, stable: 0 }
}

/// Whether the time is up.
pub open spec fn expired(elapsed_ms: u64, timeout_secs: u64) -> bool {
    elapsed_ms >= timeout_secs * 1000
}

/// Whether a reading of `size` goes on with the run of equal readings that
/// the reading before it belongs to.
pub open spec fn continues(s: Stabilizer, size: u64) -> bool {
    s.last == Some(size) && s.stable >= 1
}

/// The length of the run of equal non-zero readings that ends with a
/// reading of `size`. A reading of zero is in no run; any other reading
/// goes on with the run before it or starts one of its own. Runs are not
/// counted beyond three.
pub open spec fn run_after(s: Stabilizer, size: u64) -> u32 {
    if size == 0 {
        0
    } else if !continues(s, size) {
        1
    } else if s.stable < 3 {
        (s.stable + 1) as u32
    } else {
        3
    }
}

/// The state after a reading of `size`.
pub open spec fn after_reading(s: Stabilizer, size: u64) -> Stabilizer {
    Stabilizer { last: Some(size), stable: run_after(s, size) }
}

/// The state after an event. Only a successful reading changes it.
pub open spec fn next_state(s: Stabilizer, event: WaitEvent) -> Stabilizer {
    match event {
        WaitEvent::Reading { size: Some(size) } => after_reading(s, size),
        _ => s,
    }
}

/// The action an event calls for.
///
/// * Clock: when the time is up the wait ends, and the file is ready if
///   its last reading was not zero; otherwise the size is read.
/// * Reading: a file that cannot be read is given up; the third of three
///   equal non-zero readings in a row makes the file ready; otherwise the
///   wait goes on after a pause.
pub open spec fn next_action(s: Stabilizer, timeout_secs: u64, event: WaitEvent) -> WaitAction {
    match event {
        WaitEvent::Clock { elapsed_ms } => if expired(elapsed_ms, timeout_secs) {
            WaitAction::Finish { ready: s.last matches Some(n) && n > 0 }
        } else {
            WaitAction::Read
        },
        WaitEvent::Reading { size: None } => WaitAction::Finish { ready: false },
        WaitEvent::Reading { size: Some(size) } => if run_after(s, size) >= 3 {
            WaitAction::Finish { ready: true }
        } else {
            WaitAction::Sleep { ms: 500 }
        },
    }
}

/// How a wait that sees `events` in this order ends: `Some(ready)` once an
/// event ends it (later events are not looked at), `None` if it is still
/// going on after the last one.
pub open spec fn outcome(s: Stabilizer, timeout_secs: u64, events: Seq<WaitEvent>) -> Option<bool>
    decreases events.len(),
{
    if events.len() == 0 {
        None
    } else {
        match next_action(s, timeout_secs, events[0]) {
            WaitAction::Finish { ready } => Some(ready),
            _ => outcome(next_state(s, events[0]), timeout_secs, events.drop_first()),
        }
    }
}

/// Every size that was read is zero.
pub open spec fn stuck_at_zero(events: Seq<WaitEvent>) -> bool {
    forall|i: int|
        0 <= i < events.len() ==> (#[trigger] events[i] matches WaitEvent::Reading {
            size: Some(n),
        } ==> n == 0)
}

impl Stabilizer {
    /// The state before the first reading.
    pub fn new() -> (s: Stabilizer)
        ensures
            s == initial(),
    {
        Stabilizer { last: None, stable: 0 }
    }
}

/// One step of the wait for a file: takes what happened, updates the
/// state and says what to do next. The wait begins with a reading of the
/// clock.
pub fn wait_for_file_ready(state: &mut Stabilizer, timeout_secs: u64, event: WaitEvent) -> (action:
    WaitAction)
    ensures
        action == next_action(*old(state), timeout_secs, event),
        *final(state) == next_state(*old(state), event),
{
    match event {
        WaitEvent::Clock { elapsed_ms } => {
            let limit: u128 = (timeout_secs as u128) * 1000;
            if (elapsed_ms as u128) >= limit {
                let ready = match state.last {
                    Some(n) => n > 0,
                    None => false,
                };
                WaitAction::Finish { ready }
            } else {
                WaitAction::Read
            }
        },
        WaitEvent::Reading { size: None } => WaitAction::Finish { ready: false },
        WaitEvent::Reading { size: Some(size) } => {
            let same = state.stable >= 1 && match state.last {
                Some(n) => n == size,
                None => false,
            };
            let stable: u32 = if size == 0 {
                0
            } else if !same {
                1
            } else if state.stable < STABLE_READINGS {
                state.stable + 1
            } else {
                STABLE_READINGS
            };
            state.last = Some(size);
            state.stable = stable;
            if stable >= STABLE_READINGS {
                WaitAction::Finish { ready: true }
            } else {
                WaitAction::Sleep { ms: POLL_INTERVAL_MS }
            }
        },
    }
}

/// Three readings in a row of the same size, not zero, make the file
/// ready, and the third of them decides it: a wait that was fresh before
/// them pauses after the first and the second and ends at the third,
/// whatever the file does later.
pub proof fn lemma_three_equal_readings_are_enough(timeout_secs: u64, size: u64)
    requires
        size > 0,
    ensures
        ({
            let reading = WaitEvent::Reading { size: Some(size) };
            let first = next_state(initial(), reading);
            let second = next_state(first, reading);
            &&& next_action(initial(), timeout_secs, reading) == WaitAction::Sleep { ms: 500 }
            &&& next_action(first, timeout_secs, reading) == WaitAction::Sleep { ms: 500 }
            &&& next_action(second, timeout_secs, reading) == WaitAction::Finish { ready: true }
        }),
{
}

/// Three polls that all read `size`, with the clock at `early` before each.
pub open spec fn three_polls(size: u64, early: u64) -> Seq<WaitEvent> {
    seq![
        WaitEvent::Clock { elapsed_ms: early },
        WaitEvent::Reading { size: Some(size) },
        WaitEvent::Clock { elapsed_ms: early },
        WaitEvent::Reading { size: Some(size) },
        WaitEvent::Clock { elapsed_ms: early },
        WaitEvent::Reading { size: Some(size) },
    ]
}

/// A wait whose first three polls, all before the time is up, read the
/// same size, not zero, ends with the file ready, whatever happens after
/// them.
pub proof fn lemma_three_equal_polls_decide(
    timeout_secs: u64,
    size: u64,
    early: u64,
    later: Seq<WaitEvent>,
)
    requires
        size > 0,
        !expired(early, timeout_secs),
    ensures
        outcome(initial(), timeout_secs, three_polls(size, early) + later) == Some(true),
{
    let clock = WaitEvent::Clock { elapsed_ms: early };
    let reading = WaitEvent::Reading { size: Some(size) };
    let e0 = three_polls(size, early) + later;
    let e1 = e0.drop_first();
    let e2 = e1.drop_first();
    let e3 = e2.drop_first();
    let e4 = e3.drop_first();
    let e5 = e4.drop_first();
    assert(e0[0] == clock && e1[0] == reading && e2[0] == clock && e3[0] == reading && e4[0]
        == clock && e5[0] == reading);
    let s0 = initial();
    let s1 = next_state(s0, reading);
    let s2 = next_state(s1, reading);
    assert(outcome(s2, timeout_secs, e5) == Some(true));
    assert(outcome(s2, timeout_secs, e4) == outcome(s2, timeout_secs, e5));
    assert(outcome(s1, timeout_secs, e3) == outcome(s2, timeout_secs, e4));
    assert(outcome(s1, timeout_secs, e2) == outcome(s1, timeout_secs, e3));
    assert(outcome(s0, timeout_secs, e1) == outcome(s1, timeout_secs, e2));
    assert(outcome(s0, timeout_secs, e0) == outcome(s0, timeout_secs, e1));
}

/// Whatever was read before, the third of three equal non-zero readings
/// in a row ends the wait with the file ready, if an earlier one of them
/// has not done so already.
pub proof fn lemma_third_equal_reading_decides(s: Stabilizer, timeout_secs: u64, size: u64)
    requires
        size > 0,
    ensures
        ({
            let reading = WaitEvent::Reading { size: Some(size) };
            let first = next_state(s, reading);
            let second = next_state(first, reading);
            next_action(second, timeout_secs, reading) == WaitAction::Finish { ready: true }
        }),
{
}

/// A file whose last reading was not zero is processed when the time runs
/// out, however its size behaved before.
pub proof fn lemma_timeout_takes_nonempty(s: Stabilizer, timeout_secs: u64, elapsed_ms: u64)
    requires
        expired(elapsed_ms, timeout_secs),
        s.last matches Some(n) && n > 0,
    ensures
        next_action(s, timeout_secs, WaitEvent::Clock { elapsed_ms }) == (WaitAction::Finish {
            ready: true,
        }),
{
}

/// A wait in which every reading was zero never ends with the file being
/// processed, at whatever event it ends.
pub proof fn lemma_zero_never_ready(s: Stabilizer, timeout_secs: u64, events: Seq<WaitEvent>)
    requires
        stuck_at_zero(events),
        s.last is None || s.last == Some(0u64),
        s.stable == 0,
    ensures
        outcome(s, timeout_secs, events) != Some(true),
    decreases events.len(),
{
    if events.len() > 0 {
        let e = events[0];
        let rest = events.drop_first();
        assert forall|i: int| 0 <= i < rest.len() implies (#[trigger] rest[i] matches WaitEvent::Reading {
            size: Some(n),
        } ==> n == 0) by {
            assert(rest[i] == events[i + 1]);
        }
        lemma_zero_never_ready(next_state(s, e), timeout_secs, rest);
    }
}

/// A changing size never makes a file ready by itself: a reading that
/// differs from the one before it starts a run of its own, and the wait
/// goes on.
pub proof fn lemma_changing_size_waits(s: Stabilizer, timeout_secs: u64, size: u64)
    requires
        s.last != Some(size),
    ensures
        next_action(s, timeout_secs, WaitEvent::Reading { size: Some(size) }) == (
        WaitAction::Sleep { ms: 500 }),
        next_state(s, WaitEvent::Reading { size: Some(size) }) == (Stabilizer {
            last: Some(size),
            stable: if size > 0 {
                1
            } else {
                0
            },
        }),
{
}

/// The events of a wait in which the file showed the sizes `sizes`, one at
/// each poll, and the clock read `early` before each of them and `late`
/// after the last.
pub open spec fn polls(sizes: Seq<u64>, early: u64, late: u64) -> Seq<WaitEvent>
    decreases sizes.len(),
{
    if sizes.len() == 0 {
        seq![WaitEvent::Clock { elapsed_ms: late }]
    } else {
        seq![
            WaitEvent::Clock { elapsed_ms: early },
            WaitEvent::Reading { size: Some(sizes[0]) },
        ] + polls(sizes.drop_first(), early, late)
    }
}

/// No two readings in a row are equal.
pub open spec fn keeps_changing(sizes: Seq<u64>) -> bool {
    forall|i: int| 0 <= i < sizes.len() - 1 ==> #[trigger] sizes[i] != sizes[i + 1]
}

/// A file whose size changed at every poll until the time ran out, and
/// whose last reading was not zero, is processed.
pub proof fn lemma_changing_file_is_taken(
    s: Stabilizer,
    timeout_secs: u64,
    sizes: Seq<u64>,
    early: u64,
    late: u64,
)
    requires
        !expired(early, timeout_secs),
        expired(late, timeout_secs),
        keeps_changing(sizes),
        sizes.len() > 0 ==> sizes.last() > 0 && s.last != Some(sizes[0]),
        sizes.len() == 0 ==> (s.last matches Some(n) && n > 0),
    ensures
        outcome(s, timeout_secs, polls(sizes, early, late)) == Some(true),
    decreases sizes.len(),
{
    let events = polls(sizes, early, late);
    if sizes.len() == 0 {
        assert(events[0] == WaitEvent::Clock { elapsed_ms: late });
    } else {
        let rest = sizes.drop_first();
        let tail = polls(rest, early, late);
        let clock = WaitEvent::Clock { elapsed_ms: early };
        let reading = WaitEvent::Reading { size: Some(sizes[0]) };
        assert(events[0] == clock);
        assert(events.drop_first() =~= seq![reading] + tail);
        assert(events.drop_first()[0] == reading);
        assert(events.drop_first().drop_first() =~= tail);
        let s1 = next_state(s, reading);
        assert(next_state(s, clock) == s);
        lemma_changing_size_waits(s, timeout_secs, sizes[0]);
        assert forall|i: int| 0 <= i < rest.len() - 1 implies #[trigger] rest[i] != rest[i + 1] by {
            assert(rest[i] == sizes[i + 1]);
            assert(rest[i + 1] == sizes[i + 1 + 1]);
        }
        if rest.len() > 0 {
            assert(rest.last() == sizes.last());
            assert(rest[0] == sizes[1]);
            assert(sizes[0] != sizes[0int + 1]);
        }
        lemma_changing_file_is_taken(s1, timeout_secs, rest, early, late);
        assert(outcome(s, timeout_secs, events) == outcome(
            s,
            timeout_secs,
            events.drop_first(),
        ));
    }
}

} // verus!
