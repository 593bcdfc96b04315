//! How the window of the island is styled on Windows: it must never take the focus, or the text
//! would have nowhere to go.

use vstd::prelude::*;

verus! {

/// The style of a window that is never activated, even when clicked.
pub const WS_EX_NOACTIVATE: isize = 0x0800_0000;

/// The style of a window that stays out of the task switcher.
pub const WS_EX_TOOLWINDOW: isize = 0x0000_0080;

/// The extended style of a window that had the style `current`, once it is never activated: both
/// bits are set, and all others are as they were.
pub fn make_non_activating(current: isize) -> (r: isize)
    ensures
        r & WS_EX_NOACTIVATE == WS_EX_NOACTIVATE,
        r & WS_EX_TOOLWINDOW == WS_EX_TOOLWINDOW,
        r & !(WS_EX_NOACTIVATE | WS_EX_TOOLWINDOW) == current & !(WS_EX_NOACTIVATE
            | WS_EX_TOOLWINDOW),
{
    let style: isize = current | WS_EX_NOACTIVATE | WS_EX_TOOLWINDOW;
    assert(style & WS_EX_NOACTIVATE == WS_EX_NOACTIVATE && style & WS_EX_TOOLWINDOW
        == WS_EX_TOOLWINDOW && style & !(WS_EX_NOACTIVATE | WS_EX_TOOLWINDOW) == current & !(
    WS_EX_NOACTIVATE | WS_EX_TOOLWINDOW)) by (bit_vector)
        requires
            style == current | WS_EX_NOACTIVATE | WS_EX_TOOLWINDOW,
    ;
    style
}

} // verus!
