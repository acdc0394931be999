use crate::state::OverlayState;
use vstd::prelude::*;

verus! {

/// Label of the tray toggle item. It always names the action that would
/// toggle the mode back, so it is determined by the state just installed.
#[derive(Clone, Copy, PartialEq, Eq, Structural, Debug)]
pub enum TrayLabel {
    DisableClickThrough,
    EnableClickThrough,
}

/// The label shown once click-through has the value `enabled`.
pub open spec fn label_for(enabled: bool) -> TrayLabel {
    if enabled {
        TrayLabel::DisableClickThrough
    } else {
        TrayLabel::EnableClickThrough
    }
}

/// The display text of a label.
pub open spec fn label_text(label: TrayLabel) -> Seq<char> {
    match label {
        TrayLabel::DisableClickThrough => "Disable Click-Through"@,
        TrayLabel::EnableClickThrough => "Enable Click-Through"@,
    }
}

impl TrayLabel {
    /// The text the shell writes onto the tray menu item.
    pub fn text(&self) -> (t: &'static str)
        ensures
            t@ == label_text(*self),
    {
        match self {
            TrayLabel::DisableClickThrough => "Disable Click-Through",
            TrayLabel::EnableClickThrough => "Enable Click-Through",
        }
    }
}

/// The side effects one controller invocation asks the shell to perform, in
/// field order: the native style call first, then the tray label update,
/// then the frontend notification. The state mutation has already happened
/// when these are handed out, so it precedes all three, and a native failure
/// never rolls it back.
#[derive(Clone, Copy, PartialEq, Eq, Debug)]
pub struct SetEffects {
    /// Call the platform adapter's style operation with this target value.
    pub native_call: Option<bool>,
    /// Rewrite the tray toggle item to this label.
    pub tray_label: Option<TrayLabel>,
    /// Emit the state-change notification with this new value as payload.
    pub notify_changed: Option<bool>,
}

/// Effects of an invocation that found the state already as requested.
pub open spec fn no_effects() -> SetEffects {
    SetEffects { native_call: None, tray_label: None, notify_changed: None }
}

/// Effects of an invocation that switched the state to `enabled`.
pub open spec fn transition_effects(enabled: bool) -> SetEffects {
    SetEffects {
        native_call: Some(enabled),
        tray_label: Some(label_for(enabled)),
        notify_changed: Some(enabled),
    }
}

/// The state after `set_click_through(_, enabled)`.
pub open spec fn spec_set_state(s: OverlayState, enabled: bool) -> OverlayState {
    if s.click_through_enabled == enabled {
        s
    } else {
        OverlayState { click_through_enabled: enabled, tracking_enabled: enabled }
    }
}

/// The effects of `set_click_through(_, enabled)`.
pub open spec fn spec_set_effects(s: OverlayState, enabled: bool) -> SetEffects {
    if s.click_through_enabled == enabled {
        no_effects()
    } else {
        transition_effects(enabled)
    }
}

/// Current flag, no side effect.
pub fn get_click_through_state(state: &OverlayState) -> (b: bool)
    ensures
        b == state.click_through_enabled,
{
    state.click_through_enabled
}

/// Moves the overlay to the requested mode. When the state already matches,
/// this is a no-op: no native call, no label update, no notification.
/// Otherwise both coupled flags are set in one guarded step and the returned
/// directives ask the shell for exactly one native call, one label update and
/// one notification, all carrying the new value.
pub fn set_click_through(state: &mut OverlayState, enabled: bool) -> (effects: SetEffects)
    ensures
        *final(state) == spec_set_state(*old(state), enabled),
        effects == spec_set_effects(*old(state), enabled),
{
    let changed = state.compare_and_set_click_through(!enabled, enabled);
    if changed {
        SetEffects {
            native_call: Some(enabled),
            tray_label: Some(
                if enabled {
                    TrayLabel::DisableClickThrough
                } else {
                    TrayLabel::EnableClickThrough
                },
            ),
            notify_changed: Some(enabled),
        }
    } else {
        SetEffects { native_call: None, tray_label: None, notify_changed: None }
    }
}

/// Flips the mode. Both entry points of the shell (tray click and direct
/// command invocation) go through this one path, which itself reuses
/// `set_click_through`, so the two cannot drift apart. Returns the new value
/// with the effect directives; the transition always takes place, so the
/// effects always carry the new value.
pub fn toggle_click_through(state: &mut OverlayState) -> (r: (bool, SetEffects))
    ensures
        r.0 == !old(state).click_through_enabled,
        *final(state) == spec_set_state(*old(state), !old(state).click_through_enabled),
        r.1 == spec_set_effects(*old(state), !old(state).click_through_enabled),
        r.1 == transition_effects(r.0),
        final(state).click_through_enabled == r.0,
        final(state).tracking_enabled == r.0,
        final(state).wf(),
{
    let target = !state.click_through_enabled;
    let effects = set_click_through(state, target);
    (target, effects)
}

/// Law: setting click-through is idempotent. After one `set` with target `x`
/// the state satisfies `x`, so a repeated `set` with the same `x` changes
/// nothing and asks for no second native call and no second notification;
/// across the pair, the adapter is called exactly once when the first call
/// changed the state and never otherwise.
pub proof fn lemma_set_idempotent(s: OverlayState, x: bool)
    ensures
        ({
            let s1 = spec_set_state(s, x);
            &&& spec_set_state(s1, x) == s1
            &&& spec_set_effects(s1, x) == no_effects()
            &&& (s.click_through_enabled != x ==> spec_set_effects(s, x) == transition_effects(x))
            &&& (s.click_through_enabled == x ==> spec_set_effects(s, x) == no_effects())
        }),
{
}

/// Law: a toggle from any state S lands in state !S, with the tracking flag
/// coupled to the new value, whatever S was.
pub proof fn lemma_toggle_correct(s: OverlayState)
    ensures
        ({
            let t = spec_set_state(s, !s.click_through_enabled);
            &&& t.click_through_enabled == !s.click_through_enabled
            &&& t.tracking_enabled == !s.click_through_enabled
            &&& t.wf()
        }),
{
}

/// The state after `n` serialized toggles starting from `s`.
pub open spec fn iter_toggles(s: OverlayState, n: nat) -> OverlayState
    decreases n,
{
    if n == 0 {
        s
    } else {
        let prev = iter_toggles(s, (n - 1) as nat);
        spec_set_state(prev, !prev.click_through_enabled)
    }
}

/// Law: toggles serialize without lost updates. However many concurrent
/// callers toggled, once the guard has serialized their `n` critical
/// sections the state is the one determined by `n` alone: well formed, and
/// flipped relative to the start exactly when `n` is odd. No interleaving
/// can reach any other value, and every serialization of the same calls
/// agrees on the result.
pub proof fn lemma_toggles_serialize(s: OverlayState, n: nat)
    requires
        n > 0,
    ensures
        iter_toggles(s, n).wf(),
        iter_toggles(s, n).click_through_enabled == (if n % 2 == 0 {
            s.click_through_enabled
        } else {
            !s.click_through_enabled
        }),
    decreases n,
{
    if n == 1 {
        assert(iter_toggles(s, 0) == s);
    } else {
        let m = (n - 1) as nat;
        lemma_toggles_serialize(s, m);
        assert(n % 2 + m % 2 == 1) by (nonlinear_arith)
            requires
                n == m + 1,
        ;
    }
}

/// Law: after a state-changing set, the tray label names the reverse action:
/// enabling yields "Disable Click-Through", disabling yields
/// "Enable Click-Through".
pub proof fn lemma_label_consistency(s: OverlayState)
    ensures
        !s.click_through_enabled ==> spec_set_effects(s, true).tray_label == Some(
            TrayLabel::DisableClickThrough,
        ),
        s.click_through_enabled ==> spec_set_effects(s, false).tray_label == Some(
            TrayLabel::EnableClickThrough,
        ),
{
}

} // verus!
