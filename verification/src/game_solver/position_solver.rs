use vstd::prelude::*;
use crate::geometry::{Point2D, Size2D};
use crate::entity::entities::clamp_spec;

verus! {

/// What happens to the speed along one axis when the position meets an
/// edge of the map. Speeds are real numbers kept beside the positions; the
/// caller applies the effect to them.
#[derive(Clone, Copy, PartialEq, Eq, Structural, Debug)]
pub enum AxisSpeed {
    /// The speed stays.
    Keep,
    /// The speed becomes zero.
    Stop,
    /// The speed becomes its absolute value.
    Positive,
    /// The speed becomes minus its absolute value.
    Negative,
}

/// A coordinate that left `[0, max]` is mirrored back across the edge it
/// crossed, then clamped onto the map; the speed turns back inwards.
pub open spec fn bounce_axis(v: int, max: int) -> (int, AxisSpeed) {
    if v <= 0 {
        (clamp_spec(-v, 0, max), AxisSpeed::Positive)
    } else if v >= max {
        (clamp_spec(max - (v - max), 0, max), AxisSpeed::Negative)
    } else {
        (clamp_spec(v, 0, max), AxisSpeed::Keep)
    }
}

/// A coordinate that reached an edge stays on that edge; the speed turns
/// back inwards.
pub open spec fn bounce_basic_axis(v: int, max: int) -> (int, AxisSpeed) {
    if v <= 0 {
        (0, AxisSpeed::Positive)
    } else if v >= max {
        (max, AxisSpeed::Negative)
    } else {
        (v, AxisSpeed::Keep)
    }
}

/// A coordinate that reached an edge stays on that edge, and the speed
/// along that axis stops.
pub open spec fn not_bounce_axis(v: int, max: int) -> (int, AxisSpeed) {
    if v <= 0 {
        (0, AxisSpeed::Stop)
    } else if v >= max {
        (max, AxisSpeed::Stop)
    } else {
        (v, AxisSpeed::Keep)
    }
}

fn bounce_coordinate(v: i32, max: i32) -> (r: (i32, AxisSpeed))
    requires
        v > i32::MIN,
        0 <= max,
    ensures
        r.0 == bounce_axis(v as int, max as int).0,
        r.1 == bounce_axis(v as int, max as int).1,
{
    let (w, effect) = if v <= 0 {
        (-v, AxisSpeed::Positive)
    } else if v >= max {
        (max - (v - max), AxisSpeed::Negative)
    } else {
        (v, AxisSpeed::Keep)
    };
    let capped = if w <= max { w } else { max };
    (if capped >= 0 { capped } else { 0 }, effect)
}

/// Mirrors a position that left the map back onto it, edge by edge; gives
/// what happens to the speed along each axis.
pub fn bounce(entity_position: &mut Point2D, max: Size2D) -> (effect: (AxisSpeed, AxisSpeed))
    requires
        old(entity_position).x > i32::MIN,
        old(entity_position).y > i32::MIN,
        0 <= max.width,
        0 <= max.height,
    ensures
        final(entity_position).x == bounce_axis(old(entity_position).x as int, max.width as int).0,
        final(entity_position).y == bounce_axis(old(entity_position).y as int, max.height as int).0,
        effect.0 == bounce_axis(old(entity_position).x as int, max.width as int).1,
        effect.1 == bounce_axis(old(entity_position).y as int, max.height as int).1,
{
    let (x, ex) = bounce_coordinate(entity_position.x, max.width);
    let (y, ey) = bounce_coordinate(entity_position.y, max.height);
    entity_position.x = x;
    entity_position.y = y;
    (ex, ey)
}

/// Puts a position that reached an edge of the map on that edge; gives
/// what happens to the speed along each axis.
pub fn bounce_basic(entity_position: &mut Point2D, max: Size2D) -> (effect: (AxisSpeed, AxisSpeed))
    ensures
        final(entity_position).x == bounce_basic_axis(old(entity_position).x as int, max.width as int).0,
        final(entity_position).y == bounce_basic_axis(old(entity_position).y as int, max.height as int).0,
        effect.0 == bounce_basic_axis(old(entity_position).x as int, max.width as int).1,
        effect.1 == bounce_basic_axis(old(entity_position).y as int, max.height as int).1,
{
    let mut ex = AxisSpeed::Keep;
    let mut ey = AxisSpeed::Keep;
    if entity_position.x <= 0 {
        entity_position.x = 0;
        ex = AxisSpeed::Positive;
    } else if entity_position.x >= max.width {
        entity_position.x = max.width;
        ex = AxisSpeed::Negative;
    }
    if entity_position.y <= 0 {
        entity_position.y = 0;
        ey = AxisSpeed::Positive;
    } else if entity_position.y >= max.height {
        entity_position.y = max.height;
        ey = AxisSpeed::Negative;
    }
    (ex, ey)
}

/// Stops a position that reached an edge of the map on that edge; gives
/// what happens to the speed along each axis.
pub fn not_bounce(entity_position: &mut Point2D, max: Size2D) -> (effect: (AxisSpeed, AxisSpeed))
    ensures
        final(entity_position).x == not_bounce_axis(old(entity_position).x as int, max.width as int).0,
        final(entity_position).y == not_bounce_axis(old(entity_position).y as int, max.height as int).0,
        effect.0 == not_bounce_axis(old(entity_position).x as int, max.width as int).1,
        effect.1 == not_bounce_axis(old(entity_position).y as int, max.height as int).1,
{
    let mut ex = AxisSpeed::Keep;
    let mut ey = AxisSpeed::Keep;
    if entity_position.x <= 0 {
        entity_position.x = 0;
        ex = AxisSpeed::Stop;
    } else if entity_position.x >= max.width {
        entity_position.x = max.width;
        ex = AxisSpeed::Stop;
    }
    if entity_position.y <= 0 {
        entity_position.y = 0;
        ey = AxisSpeed::Stop;
    } else if entity_position.y >= max.height {
        entity_position.y = max.height;
        ey = AxisSpeed::Stop;
    }
    (ex, ey)
}

/// Bouncing or stopping at the edge always leaves a coordinate on the map.
pub proof fn lemma_moves_stay_on_map(v: int, max: int)
    requires
        0 <= max,
    ensures
        0 <= bounce_axis(v, max).0 <= max,
        0 <= bounce_basic_axis(v, max).0 <= max,
        0 <= not_bounce_axis(v, max).0 <= max,
{
}

/// A coordinate strictly inside the map is left alone, and so is its speed.
pub proof fn lemma_inside_untouched(v: int, max: int)
    requires
        0 < v < max,
    ensures
        bounce_axis(v, max) == (v, AxisSpeed::Keep),
        bounce_basic_axis(v, max) == (v, AxisSpeed::Keep),
        not_bounce_axis(v, max) == (v, AxisSpeed::Keep),
{
}

} // verus!
