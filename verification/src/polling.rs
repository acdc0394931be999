use crate::errors::PlatformError;
use vstd::prelude::*;

verus! {

/// Sleep between polling cycles while tracking: about sixty samples a second.
pub const POLL_INTERVAL_MS: u64 = 16;

/// Extra sleep after a skipped cycle, so an idle overlay costs little.
pub const IDLE_INTERVAL_MS: u64 = 100;

/// One cursor observation, forwarded to the frontend each sampling tick and
/// not retained.
#[derive(Clone, Copy, PartialEq, Eq, Structural, Debug)]
pub struct CursorSample {
    pub x: i32,
    pub y: i32,
    pub screen_width: i32,
    pub screen_height: i32,
}

/// What one polling cycle does after its short sleep.
#[derive(Clone, Copy, PartialEq, Eq, Structural, Debug)]
pub enum TickAction {
    /// Query the cursor position and forward a sample.
    Sample,
    /// Skip the cycle and sleep the longer idle interval first.
    Idle,
}

/// The gating decision for one observed tracking flag. `None` stands for a
/// guard that could not be read (a poisoned lock): the cycle is skipped, the
/// loop never ends over it.
pub open spec fn spec_poll_gate(tracking: Option<bool>) -> TickAction {
    if tracking == Some(true) {
        TickAction::Sample
    } else {
        TickAction::Idle
    }
}

/// Decides what this polling cycle does: sample exactly when the tracking
/// flag was read and found raised.
pub fn poll_gate(tracking: Option<bool>) -> (a: TickAction)
    ensures
        a == spec_poll_gate(tracking),
        a is Sample <==> tracking == Some(true),
{
    match tracking {
        Some(true) => TickAction::Sample,
        _ => TickAction::Idle,
    }
}

/// Builds the sample to forward for one tick out of the adapter's
/// cursor-position answer and the cached screen dimensions. A failed query
/// yields no sample: that tick is skipped and the loop goes on.
pub fn tick_sample(
    query: Result<(i32, i32), PlatformError>,
    screen_width: i32,
    screen_height: i32,
) -> (r: Option<CursorSample>)
    ensures
        query matches Ok(p) ==> r == Some(
            (CursorSample { x: p.0, y: p.1, screen_width, screen_height }),
        ),
        query is Err ==> r is None,
{
    match query {
        Ok(p) => Some(CursorSample { x: p.0, y: p.1, screen_width, screen_height }),
        Err(_) => None,
    }
}

/// Vertical flip for a platform whose native cursor origin is the bottom
/// left corner: converts a native height coordinate into the top-left screen
/// space every other sample uses.
pub fn flip_vertical(screen_height: i32, y: i32) -> (r: i32)
    requires
        i32::MIN <= screen_height - y <= i32::MAX,
    ensures
        r == screen_height - y,
{
    screen_height - y
}

/// How many of a window of observed tracking flags lead to a sampling tick.
pub open spec fn sample_count(flags: Seq<Option<bool>>) -> nat
    decreases flags.len(),
{
    if flags.len() == 0 {
        0
    } else {
        sample_count(flags.drop_last()) + (if spec_poll_gate(flags.last()) is Sample {
            1nat
        } else {
            0nat
        })
    }
}

/// Law: the tracking flag gates the loop completely. Over any observation
/// window, if no cycle found the flag raised, the loop issued zero
/// cursor-position queries; if every cycle found it raised, it issued one
/// query per cycle.
pub proof fn lemma_poll_gating(flags: Seq<Option<bool>>)
    ensures
        (forall|i: int| 0 <= i < flags.len() ==> flags[i] != Some(true)) ==> sample_count(flags)
            == 0,
        (forall|i: int| 0 <= i < flags.len() ==> flags[i] == Some(true)) ==> sample_count(flags)
            == flags.len(),
    decreases flags.len(),
{
    if flags.len() > 0 {
        lemma_poll_gating(flags.drop_last());
        assert(forall|i: int|
            0 <= i < flags.drop_last().len() ==> #[trigger] flags.drop_last()[i] == flags[i]);
    }
}

} // verus!
