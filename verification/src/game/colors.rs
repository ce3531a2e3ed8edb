use vstd::prelude::*;
use crate::entity::EntityColor;

verus! {

/// An opaque colour with both centre and edge given.
pub open spec fn has_colors(c: EntityColor, center: Seq<u8>, edge: Seq<u8>) -> bool {
    c.center@ == center && c.edge@ == edge
}

pub open spec fn rgba(r: u8, g: u8, b: u8) -> Seq<u8> {
    seq![r, g, b, 255u8]
}

fn color(center: [u8; 3], edge: [u8; 3]) -> (c: EntityColor)
    ensures
        has_colors(c, rgba(center[0], center[1], center[2]), rgba(edge[0], edge[1], edge[2])),
{
    let c = EntityColor { center: [center[0], center[1], center[2], 255], edge: [edge[0], edge[1], edge[2], 255] };
    assert(c.center@ =~= rgba(center[0], center[1], center[2]));
    assert(c.edge@ =~= rgba(edge[0], edge[1], edge[2]));
    c
}

/// The six saturated colours of the random palette, each uniform from
/// centre to edge: red, pink, magenta, orange, salmon and yellow.
pub open spec fn random_uniform_center(i: int) -> Seq<u8> {
    if i == 0 {
        rgba(242, 13, 13)
    } else if i == 1 {
        rgba(242, 13, 128)
    } else if i == 2 {
        rgba(242, 13, 242)
    } else if i == 3 {
        rgba(242, 128, 13)
    } else if i == 4 {
        rgba(242, 128, 128)
    } else {
        rgba(242, 242, 13)
    }
}

/// The palette that the automatic spawner draws from by default.
pub fn default_color_random_uniform() -> (v: Vec<EntityColor>)
    ensures
        v@.len() == 6,
        forall|i: int| 0 <= i < 6 ==> has_colors(#[trigger] v@[i], random_uniform_center(i), random_uniform_center(i)),
{
    let mut v = Vec::new();
    v.push(color([242, 13, 13], [242, 13, 13]));
    v.push(color([242, 13, 128], [242, 13, 128]));
    v.push(color([242, 13, 242], [242, 13, 242]));
    v.push(color([242, 128, 13], [242, 128, 13]));
    v.push(color([242, 128, 128], [242, 128, 128]));
    v.push(color([242, 242, 13], [242, 242, 13]));
    v
}

/// The six saturated colours of the throwing palette, with a black edge:
/// blue, green, cyan, red, magenta and yellow.
pub open spec fn random_center(i: int) -> Seq<u8> {
    if i == 0 {
        rgba(13, 13, 242)
    } else if i == 1 {
        rgba(13, 242, 13)
    } else if i == 2 {
        rgba(13, 242, 242)
    } else if i == 3 {
        rgba(242, 13, 13)
    } else if i == 4 {
        rgba(242, 13, 242)
    } else {
        rgba(242, 242, 13)
    }
}

/// The palette of colours with a black edge that throwers draw from.
pub fn default_color_random() -> (v: Vec<EntityColor>)
    ensures
        v@.len() == 6,
        forall|i: int| 0 <= i < 6 ==> has_colors(#[trigger] v@[i], random_center(i), rgba(0, 0, 0)),
{
    let mut v = Vec::new();
    v.push(color([13, 13, 242], [0, 0, 0]));
    v.push(color([13, 242, 13], [0, 0, 0]));
    v.push(color([13, 242, 242], [0, 0, 0]));
    v.push(color([242, 13, 13], [0, 0, 0]));
    v.push(color([242, 13, 242], [0, 0, 0]));
    v.push(color([242, 242, 13], [0, 0, 0]));
    v
}

/// The fifteen colours of the game, indexed by texture: black, then
/// twelve saturated colours, then grey and white.
pub open spec fn default_center(i: int) -> Seq<u8> {
    if i == 0 {
        rgba(0, 0, 0)
    } else if i == 1 {
        rgba(13, 13, 242)
    } else if i == 2 {
        rgba(13, 242, 242)
    } else if i == 3 {
        rgba(127, 13, 242)
    } else if i == 4 {
        rgba(13, 242, 13)
    } else if i == 5 {
        rgba(13, 242, 242)
    } else if i == 6 {
        rgba(127, 242, 13)
    } else if i == 7 {
        rgba(242, 127, 13)
    } else if i == 8 {
        rgba(242, 13, 242)
    } else if i == 9 {
        rgba(127, 13, 242)
    } else if i == 10 {
        rgba(242, 13, 13)
    } else if i == 11 {
        rgba(13, 242, 127)
    } else if i == 12 {
        rgba(242, 242, 13)
    } else if i == 13 {
        rgba(127, 127, 127)
    } else {
        rgba(255, 255, 255)
    }
}

/// The colours of the game with a black edge.
pub fn default_color() -> (v: Vec<EntityColor>)
    ensures
        v@.len() == 15,
        forall|i: int| 0 <= i < 15 ==> has_colors(#[trigger] v@[i], default_center(i), rgba(0, 0, 0)),
{
    let mut v = Vec::new();
    v.push(color([0, 0, 0], [0, 0, 0]));
    v.push(color([13, 13, 242], [0, 0, 0]));
    v.push(color([13, 242, 242], [0, 0, 0]));
    v.push(color([127, 13, 242], [0, 0, 0]));
    v.push(color([13, 242, 13], [0, 0, 0]));
    v.push(color([13, 242, 242], [0, 0, 0]));
    v.push(color([127, 242, 13], [0, 0, 0]));
    v.push(color([242, 127, 13], [0, 0, 0]));
    v.push(color([242, 13, 242], [0, 0, 0]));
    v.push(color([127, 13, 242], [0, 0, 0]));
    v.push(color([242, 13, 13], [0, 0, 0]));
    v.push(color([13, 242, 127], [0, 0, 0]));
    v.push(color([242, 242, 13], [0, 0, 0]));
    v.push(color([127, 127, 127], [0, 0, 0]));
    v.push(color([255, 255, 255], [0, 0, 0]));
    v
}

/// The colours of the game, each uniform from centre to edge but grey,
/// whose edge is a shade darker.
pub fn default_color_uniform() -> (v: Vec<EntityColor>)
    ensures
        v@.len() == 15,
        forall|i: int| 0 <= i < 15 && i != 13 ==> has_colors(#[trigger] v@[i], default_center(i), default_center(i)),
        has_colors(v@[13], rgba(127, 127, 127), rgba(125, 125, 125)),
{
    let mut v = Vec::new();
    v.push(color([0, 0, 0], [0, 0, 0]));
    v.push(color([13, 13, 242], [13, 13, 242]));
    v.push(color([13, 242, 242], [13, 242, 242]));
    v.push(color([127, 13, 242], [127, 13, 242]));
    v.push(color([13, 242, 13], [13, 242, 13]));
    v.push(color([13, 242, 242], [13, 242, 242]));
    v.push(color([127, 242, 13], [127, 242, 13]));
    v.push(color([242, 127, 13], [242, 127, 13]));
    v.push(color([242, 13, 242], [242, 13, 242]));
    v.push(color([127, 13, 242], [127, 13, 242]));
    v.push(color([242, 13, 13], [242, 13, 13]));
    v.push(color([13, 242, 127], [13, 242, 127]));
    v.push(color([242, 242, 13], [242, 242, 13]));
    v.push(color([127, 127, 127], [125, 125, 125]));
    v.push(color([255, 255, 255], [255, 255, 255]));
    v
}

} // verus!
