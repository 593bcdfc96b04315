//! Where the island stands on the screen.

use vstd::prelude::*;

verus! {

/// The number of pixels between the island and the lower edge of the screen.
pub const BOTTOM_GAP: i32 = 70;

/// `x` as 32 bits read as a signed number.
pub open spec fn signed_value(x: u32) -> int {
    if x <= i32::MAX {
        x as int
    } else {
        x - 0x1_0000_0000
    }
}

/// Half of `x`, towards zero.
pub open spec fn half(x: int) -> int {
    if x >= 0 {
        x / 2
    } else {
        -((-x) / 2)
    }
}

/// `x` as 32 bits read as a signed number.
fn signed(x: u32) -> (r: i32)
    ensures
        r == signed_value(x),
{
    if x <= 0x7fff_ffff {
        x as i32
    } else {
        (x - 0x8000_0000) as i32 + i32::MIN
    }
}

/// Where the upper left corner of the island goes: centred, a little above the lower edge. The
/// sizes are in pixels, the width first.
pub open spec fn island_position(screen: (u32, u32), island: (u32, u32)) -> (int, int) {
    (
        half(signed_value(screen.0) - signed_value(island.0)),
        signed_value(screen.1) - signed_value(island.1) - BOTTOM_GAP,
    )
}

/// Where the upper left corner of the island goes: centred, a little above the lower edge. The
/// sizes are in pixels, the width first.
pub fn position_island(screen: (u32, u32), island: (u32, u32)) -> (r: (i32, i32))
    requires
        i32::MIN <= signed_value(screen.0) - signed_value(island.0) <= i32::MAX,
        i32::MIN + BOTTOM_GAP <= signed_value(screen.1) - signed_value(island.1) <= i32::MAX,
    ensures
        (r.0 as int, r.1 as int) == island_position(screen, island),
{
    let slack: i32 = signed(screen.0) - signed(island.0);
    let x: i32 = slack / 2;
    let y: i32 = signed(screen.1) - signed(island.1) - BOTTOM_GAP;
    (x, y)
}

/// An island that fits on the screen stands centred: it does not reach over either side, what is
/// left on the two sides differs by at most a pixel, and below it is the gap.
pub proof fn law_island_is_centred(screen: (u32, u32), island: (u32, u32))
    requires
        island.0 <= screen.0 <= i32::MAX,
        island.1 <= screen.1 <= i32::MAX,
    ensures
        ({
            let (x, y) = island_position(screen, island);
            let right = screen.0 - (x + island.0);
            &&& 0 <= x <= right <= x + 1
            &&& y + island.1 + BOTTOM_GAP == screen.1
        }),
{
}

/// Whatever the sizes, the island stands in the middle, rounded towards zero, and its lower edge 70
/// pixels above the lower edge of the screen.
pub proof fn law_island_is_in_the_middle(screen: (u32, u32), island: (u32, u32))
    requires
        screen.0 <= i32::MAX && screen.1 <= i32::MAX,
        island.0 <= i32::MAX && island.1 <= i32::MAX,
    ensures
        ({
            let (x, y) = island_position(screen, island);
            &&& screen.0 >= island.0 ==> 0 <= screen.0 - island.0 - 2 * x <= 1 && x >= 0
            &&& screen.0 < island.0 ==> -1 <= screen.0 - island.0 - 2 * x <= 0 && x <= 0
            &&& y == screen.1 - island.1 - 70
        }),
{
}

/// A size of up to 31 bits is read as it is, and a larger one as the negative number with the same 32
/// bits.
pub proof fn law_sizes_are_read_as_signed_numbers(x: u32)
    ensures
        i32::MIN <= signed_value(x) <= i32::MAX,
        x <= i32::MAX ==> signed_value(x) == x,
        x > i32::MAX ==> signed_value(x) + 4_294_967_296 == x,
{
}

} // verus!
