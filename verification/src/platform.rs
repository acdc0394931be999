use crate::errors::PlatformError;
use vstd::prelude::*;

verus! {

/// Extended style bit: the window is a layered window. Prerequisite for the
/// transparent bit to take effect; enabling click-through must always set it,
/// and disabling must leave it in place to avoid layered-window churn.
pub const EX_STYLE_LAYERED: u64 = 0x8_0000;

/// Extended style bit: mouse input passes through the window.
pub const EX_STYLE_TRANSPARENT: u64 = 0x20;

/// Extended style bit: tool window, kept out of the task switcher.
pub const EX_STYLE_TOOL_WINDOW: u64 = 0x80;

/// Extended style bit: the window never receives input focus when raised.
pub const EX_STYLE_NO_ACTIVATE: u64 = 0x800_0000;

/// A style word has every bit of `mask` set.
pub open spec fn has_bits(style: u64, mask: u64) -> bool {
    style & mask == mask
}

/// The new extended style word when click-through is switched to `enabled`.
///
/// Enabling sets the transparent bit together with its layered prerequisite;
/// disabling removes only the transparent bit, leaving the layered bit and
/// every other bit exactly as they were.
pub fn apply_click_through_style(ex_style: u64, enabled: bool) -> (r: u64)
    ensures
        enabled ==> r == (ex_style | EX_STYLE_LAYERED | EX_STYLE_TRANSPARENT),
        !enabled ==> r == (ex_style & !EX_STYLE_TRANSPARENT),
        has_bits(r, EX_STYLE_TRANSPARENT) == enabled,
        enabled ==> has_bits(r, EX_STYLE_LAYERED),
        !enabled ==> r & EX_STYLE_LAYERED == ex_style & EX_STYLE_LAYERED,
        enabled ==> (forall|m: u64|
            m & (EX_STYLE_LAYERED | EX_STYLE_TRANSPARENT) == 0 ==> #[trigger] (r & m) == ex_style
                & m),
        !enabled ==> (forall|m: u64|
            m & EX_STYLE_TRANSPARENT == 0 ==> #[trigger] (r & m) == ex_style & m),
{
    if enabled {
        let r: u64 = ex_style | EX_STYLE_LAYERED | EX_STYLE_TRANSPARENT;
        proof {
            assert((ex_style | 0x8_0000u64 | 0x20u64) & 0x20u64 == 0x20u64) by (bit_vector);
            assert((ex_style | 0x8_0000u64 | 0x20u64) & 0x8_0000u64 == 0x8_0000u64) by (bit_vector);
            assert(forall|m: u64|
                m & (0x8_0000u64 | 0x20u64) == 0 ==> #[trigger] ((ex_style | 0x8_0000u64
                    | 0x20u64) & m) == ex_style & m) by (bit_vector);
        }
        r
    } else {
        let r: u64 = ex_style & !EX_STYLE_TRANSPARENT;
        proof {
            assert((ex_style & !0x20u64) & 0x20u64 == 0) by (bit_vector);
            assert((ex_style & !0x20u64) & 0x8_0000u64 == ex_style & 0x8_0000u64) by (bit_vector);
            assert(forall|m: u64|
                m & 0x20u64 == 0 ==> #[trigger] ((ex_style & !0x20u64) & m) == ex_style
                    & m) by (bit_vector);
        }
        r
    }
}

/// The extended style word the overlay window receives at startup: layered,
/// transparent, tool-window and no-activate on top of whatever the window
/// already had, so it starts in click-through mode, above the task switcher's
/// notice and without ever taking focus.
pub fn initial_overlay_style(ex_style: u64) -> (r: u64)
    ensures
        r == (ex_style | EX_STYLE_LAYERED | EX_STYLE_TRANSPARENT | EX_STYLE_TOOL_WINDOW
            | EX_STYLE_NO_ACTIVATE),
        has_bits(r, EX_STYLE_LAYERED),
        has_bits(r, EX_STYLE_TRANSPARENT),
        has_bits(r, EX_STYLE_TOOL_WINDOW),
        has_bits(r, EX_STYLE_NO_ACTIVATE),
        forall|m: u64|
            m & (EX_STYLE_LAYERED | EX_STYLE_TRANSPARENT | EX_STYLE_TOOL_WINDOW
                | EX_STYLE_NO_ACTIVATE) == 0 ==> #[trigger] (r & m) == ex_style & m,
{
    let r: u64 = ex_style | EX_STYLE_LAYERED | EX_STYLE_TRANSPARENT | EX_STYLE_TOOL_WINDOW
        | EX_STYLE_NO_ACTIVATE;
    proof {
        assert((ex_style | 0x8_0000u64 | 0x20u64 | 0x80u64 | 0x800_0000u64) & 0x8_0000u64
            == 0x8_0000u64) by (bit_vector);
        assert((ex_style | 0x8_0000u64 | 0x20u64 | 0x80u64 | 0x800_0000u64) & 0x20u64
            == 0x20u64) by (bit_vector);
        assert((ex_style | 0x8_0000u64 | 0x20u64 | 0x80u64 | 0x800_0000u64) & 0x80u64
            == 0x80u64) by (bit_vector);
        assert((ex_style | 0x8_0000u64 | 0x20u64 | 0x80u64 | 0x800_0000u64) & 0x800_0000u64
            == 0x800_0000u64) by (bit_vector);
        assert(forall|m: u64|
            m & (0x8_0000u64 | 0x20u64 | 0x80u64 | 0x800_0000u64) == 0 ==> #[trigger] ((ex_style
                | 0x8_0000u64 | 0x20u64 | 0x80u64 | 0x800_0000u64) & m) == ex_style
                & m) by (bit_vector);
    }
    r
}

/// Law: the native style change is idempotent. Applying the same target a
/// second time computes the very word the first application computed, so a
/// repeated call rewrites nothing.
pub proof fn lemma_style_idempotent(ex_style: u64)
    ensures
        (ex_style | EX_STYLE_LAYERED | EX_STYLE_TRANSPARENT) | EX_STYLE_LAYERED
            | EX_STYLE_TRANSPARENT == ex_style | EX_STYLE_LAYERED | EX_STYLE_TRANSPARENT,
        (ex_style & !EX_STYLE_TRANSPARENT) & !EX_STYLE_TRANSPARENT == ex_style
            & !EX_STYLE_TRANSPARENT,
{
    assert((ex_style | 0x8_0000u64 | 0x20u64) | 0x8_0000u64 | 0x20u64 == ex_style | 0x8_0000u64
        | 0x20u64) by (bit_vector);
    assert((ex_style & !0x20u64) & !0x20u64 == ex_style & !0x20u64) by (bit_vector);
}

/// Best-effort read of the native state from a raw style word: whether the
/// click-through (transparent) bit is currently set. Used only as a fallback
/// check; the source of truth is the shared overlay state.
pub fn style_has_click_through(ex_style: u64) -> (b: bool)
    ensures
        b == has_bits(ex_style, EX_STYLE_TRANSPARENT),
{
    ex_style & EX_STYLE_TRANSPARENT == EX_STYLE_TRANSPARENT
}

/// A monitor rectangle as the native geometry query reports it: edges in
/// screen coordinates, the full extent including any reserved system-UI area.
#[derive(Clone, Copy, PartialEq, Eq, Structural, Debug)]
pub struct MonitorRect {
    pub left: i32,
    pub top: i32,
    pub right: i32,
    pub bottom: i32,
}

impl MonitorRect {
    /// A usable rectangle: edges ordered and extents that fit the native
    /// coordinate type.
    pub open spec fn wf(self) -> bool {
        &&& self.left <= self.right
        &&& self.top <= self.bottom
        &&& self.right - self.left <= i32::MAX
        &&& self.bottom - self.top <= i32::MAX
    }
}

/// Origin and size for a window that is to cover a monitor exactly.
#[derive(Clone, Copy, PartialEq, Eq, Structural, Debug)]
pub struct WindowPlacement {
    pub x: i32,
    pub y: i32,
    pub width: i32,
    pub height: i32,
}

/// Computes the placement that covers `rect` exactly. A degenerate or
/// oversized rectangle — a geometry query that failed or answered nonsense —
/// is reported as a platform failure instead of being turned into wrapped
/// arithmetic; the shell raises the placed window to top-most without
/// granting it focus.
pub fn placement_over_monitor(rect: MonitorRect) -> (r: Result<WindowPlacement, PlatformError>)
    ensures
        r is Ok <==> rect.wf(),
        r matches Ok(p) ==> p == (WindowPlacement {
            x: rect.left,
            y: rect.top,
            width: (rect.right - rect.left) as i32,
            height: (rect.bottom - rect.top) as i32,
        }),
        r matches Err(e) ==> e == PlatformError::CallFailed,
{
    let width: i64 = rect.right as i64 - rect.left as i64;
    let height: i64 = rect.bottom as i64 - rect.top as i64;
    if width < 0 || height < 0 || width > i32::MAX as i64 || height > i32::MAX as i64 {
        Err(PlatformError::CallFailed)
    } else {
        Ok(
            WindowPlacement {
                x: rect.left,
                y: rect.top,
                width: width as i32,
                height: height as i32,
            },
        )
    }
}

} // verus!
