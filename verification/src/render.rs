//! One draw cycle, reduced to its decisions. The surface work — resizing
//! the canvas, filling the background, drawing the circle — is plain
//! plumbing for the host binding; what matters is planned here: rewind the
//! byte ledger to the start, then read exactly three bytes in red, green,
//! blue order for the foreground color. The plan carries the surface
//! dimensions through untouched, so the random choices of a cycle cannot
//! depend on them.

use crate::cache::{RandCache, RandomSource};
use crate::color::Color;
use vstd::prelude::*;

verus! {

/// Everything one draw cycle tells the surface: the dimensions to resize
/// to, the background to fill, and the foreground color of the circle
/// centered on the surface.
pub struct DrawPlan {
    pub width: u32,
    pub height: u32,
    pub background: Color,
    pub foreground: Color,
}

/// Plans one draw cycle: rewinds the cache to the start of its ledger and
/// reads the three foreground channel bytes in red, green, blue order. The
/// first cycle draws fresh bytes; every later cycle, whatever its
/// dimensions, replays the same three and so picks the same color.
pub fn plan_draw<G: RandomSource>(
    cache: &mut RandCache<G>,
    width: u32,
    height: u32,
    background: Color,
) -> (p: DrawPlan)
    requires
        old(cache).inv(),
    ensures
        final(cache).inv(),
        final(cache).cursor() == 3,
        old(cache).ledger().is_prefix_of(final(cache).ledger()),
        final(cache).ledger().len() == if old(cache).ledger().len() >= 3 {
            old(cache).ledger().len() as int
        } else {
            3
        },
        p.foreground.channels() == (
            final(cache).ledger()[0],
            final(cache).ledger()[1],
            final(cache).ledger()[2],
            255u8,
        ),
        p.width == width,
        p.height == height,
        p.background == background,
{
    cache.rewind();
    let red = cache.get_u8();
    let green = cache.get_u8();
    let blue = cache.get_u8();
    let foreground = Color::from_rgb(red, green, blue);
    DrawPlan { width, height, background, foreground }
}

} // verus!
