//! The microphone icon, drawn in code: a disc whose colour shows the state of
//! the pipeline, with a microphone on it.
//!
//! Shapes are given in hundredths of the icon's side, and a pixel belongs to a
//! shape when its centre does. Twice the centre's coordinates are whole
//! numbers, so all of this is exact.

use vstd::prelude::*;

use crate::status::{PipelineStatus, Status};

verus! {

/// Sand: idle.
pub const WARM_NEUTRAL: [u8; 4] = [196, 176, 145, 255];

/// Recording while a key is held.
pub const TERRACOTTA: [u8; 4] = [224, 122, 95, 255];

/// Listening hands-free.
pub const GOLDEN_AMBER: [u8; 4] = [232, 180, 84, 255];

/// Listening hands-free, on the pill.
pub const LAVENDER: [u8; 4] = [181, 163, 217, 255];

/// Transcribing.
pub const MUSTARD: [u8; 4] = [212, 160, 60, 255];

/// Text was inserted.
pub const SAGE: [u8; 4] = [139, 163, 120, 255];

/// A warning.
pub const RUST: [u8; 4] = [196, 90, 74, 255];

/// The background of the pill.
pub const CREAM_BACKGROUND: [u8; 4] = [250, 242, 227, 255];

/// Text on [`CREAM_BACKGROUND`].
pub const WARM_TEXT: [u8; 4] = [74, 58, 45, 255];

/// The microphone, on any of the state colours.
pub const GLYPH_COLOR: [u8; 4] = [250, 244, 230, 255];

/// The side of the tray's and the window's icon.
pub const ICON_SIZE: u32 = 32;

pub open spec fn state_color(status: Status) -> [u8; 4] {
    match status {
        Status::Ready { .. } => WARM_NEUTRAL,
        Status::Recording => TERRACOTTA,
        Status::Listening => GOLDEN_AMBER,
        Status::Transcribing => MUSTARD,
        Status::Inserted(_) => SAGE,
        Status::HeardNothing => WARM_NEUTRAL,
        Status::HandsFreeOn => GOLDEN_AMBER,
        Status::HandsFreeOff => WARM_NEUTRAL,
        Status::Warning(_) => RUST,
    }
}

/// The icon's background for each state of the pipeline.
pub fn state_background_rgba(status: &PipelineStatus) -> (color: [u8; 4])
    ensures
        color == state_color(status@),
{
    match status {
        PipelineStatus::Ready { .. } => WARM_NEUTRAL,
        PipelineStatus::Recording => TERRACOTTA,
        PipelineStatus::Listening => GOLDEN_AMBER,
        PipelineStatus::Transcribing => MUSTARD,
        PipelineStatus::Inserted(_) => SAGE,
        PipelineStatus::HeardNothing => WARM_NEUTRAL,
        PipelineStatus::HandsFreeOn => GOLDEN_AMBER,
        PipelineStatus::HandsFreeOff => WARM_NEUTRAL,
        PipelineStatus::Warning(_) => RUST,
    }
}

/// The largest side whose pixels can be counted in 32 bits.
pub const MAX_ICON_SIZE: u32 = 32_768;

/// Twice the distance of column `x`'s centre from the middle.
pub open spec fn across(size: int, x: int) -> int {
    if 2 * x + 1 >= size {
        2 * x + 1 - size
    } else {
        size - (2 * x + 1)
    }
}

/// Twice the distance of row `y`'s centre from the top.
pub open spec fn down(y: int) -> int {
    2 * y + 1
}

/// The disc: centred, with a radius of 46 hundredths.
pub open spec fn in_disc(size: int, x: int, y: int) -> bool {
    625 * (across(size, x) * across(size, x) + (down(y) - size) * (down(y) - size)) <= 529 * (size
        * size)
}

/// The microphone's head: 26 wide, from 20 to 58, with round ends. The ends
/// are half discs around 33 and 45.
pub open spec fn in_head(size: int, x: int, y: int) -> bool {
    let dx = 50 * across(size, x);
    let above = 50 * down(y) - 33 * size;
    let below = 50 * down(y) - 45 * size;
    let radius = 13 * size;
    ||| above >= 0 && below <= 0 && dx <= radius
    ||| above < 0 && dx * dx + above * above <= radius * radius
    ||| below > 0 && dx * dx + below * below <= radius * radius
}

/// Half the width of a stroke: 3, and half a pixel at least.
pub open spec fn half_stroke(size: int) -> int {
    if 3 * size >= 50 {
        3 * size
    } else {
        50
    }
}

/// The stand: a vertical stroke in the middle, from the head down to 80.
pub open spec fn in_stand(size: int, x: int, y: int) -> bool {
    &&& 58 * size <= 50 * down(y) <= 80 * size
    &&& 50 * across(size, x) <= half_stroke(size)
}

/// The base: a horizontal stroke at 80, 28 wide.
pub open spec fn in_base(size: int, x: int, y: int) -> bool {
    &&& 50 * across(size, x) <= 14 * size
    &&& -half_stroke(size) <= 50 * down(y) - 80 * size <= half_stroke(size)
}

pub open spec fn in_glyph(size: int, x: int, y: int) -> bool {
    in_head(size, x, y) || in_stand(size, x, y) || in_base(size, x, y)
}

/// Where the four bytes of a pixel begin.
pub open spec fn pixel_index(size: int, x: int, y: int) -> int {
    4 * (y * size + x)
}

pub open spec fn in_icon(size: int, x: int, y: int) -> bool {
    0 <= x < size && 0 <= y < size
}

/// The four bytes of a pixel.
pub open spec fn pixel_at(buf: Seq<u8>, size: int, x: int, y: int) -> Seq<u8> {
    buf.subrange(pixel_index(size, x, y), pixel_index(size, x, y) + 4)
}

pub open spec fn transparent() -> Seq<u8> {
    seq![0, 0, 0, 0]
}

/// The colour of a pixel of the icon: the microphone over the disc over
/// nothing.
pub open spec fn icon_pixel(
    size: int,
    background: Seq<u8>,
    glyph: Seq<u8>,
    x: int,
    y: int,
) -> Seq<u8> {
    if in_glyph(size, x, y) {
        glyph
    } else if in_disc(size, x, y) {
        background
    } else {
        transparent()
    }
}

proof fn lemma_pixel_bounds(size: int, x: int, y: int)
    requires
        in_icon(size, x, y),
    ensures
        0 <= y * size,
        0 <= pixel_index(size, x, y),
        pixel_index(size, x, y) + 4 <= 4 * (size * size),
{
    assert(0 <= y * size && y * size + size <= size * size) by (nonlinear_arith)
        requires
            0 <= y < size,
    ;
}

proof fn lemma_pixels_apart(size: int, x: int, y: int, px: int, py: int)
    requires
        in_icon(size, x, y),
        in_icon(size, px, py),
        (x, y) != (px, py),
    ensures
        pixel_index(size, x, y) + 4 <= pixel_index(size, px, py) || pixel_index(size, px, py) + 4
            <= pixel_index(size, x, y),
{
    if y < py {
        assert(y * size + size <= py * size) by (nonlinear_arith)
            requires
                y + 1 <= py,
                0 <= size,
        ;
    } else if py < y {
        assert(py * size + size <= y * size) by (nonlinear_arith)
            requires
                py + 1 <= y,
                0 <= size,
        ;
    }
}

/// Colours one pixel; one that lies outside the icon is left alone.
fn set_pixel(buf: &mut Vec<u8>, size: u32, x: i32, y: i32, color: [u8; 4])
    requires
        size <= MAX_ICON_SIZE,
        old(buf)@.len() == 4 * (size * size),
    ensures
        final(buf)@.len() == old(buf)@.len(),
        forall|px: int, py: int|
            #![trigger pixel_at(final(buf)@, size as int, px, py)]
            in_icon(size as int, px, py) ==> pixel_at(final(buf)@, size as int, px, py) == if px == x
                && py == y {
                color@
            } else {
                pixel_at(old(buf)@, size as int, px, py)
            },
{
    if x < 0 || y < 0 || x as u32 >= size || y as u32 >= size {
        return;
    }
    let column: u64 = x as u64;
    let row: u64 = y as u64;
    let side: u64 = size as u64;
    proof {
        lemma_pixel_bounds(size as int, x as int, y as int);
        assert(size * size <= 32_768 * 32_768) by (nonlinear_arith)
            requires
                0 <= size <= 32_768,
        ;
    }
    let index: usize = (4 * (row * side + column)) as usize;
    let ghost before = buf@;
    buf.set(index, color[0]);
    buf.set(index + 1, color[1]);
    buf.set(index + 2, color[2]);
    buf.set(index + 3, color[3]);
    assert forall|px: int, py: int| #![trigger pixel_at(buf@, size as int, px, py)]
        in_icon(size as int, px, py) implies pixel_at(buf@, size as int, px, py) == if px == x && py
        == y {
        color@
    } else {
        pixel_at(before, size as int, px, py)
    } by {
        lemma_pixel_bounds(size as int, px, py);
        if px == x && py == y {
            assert(pixel_at(buf@, size as int, px, py) =~= color@);
        } else {
            lemma_pixels_apart(size as int, x as int, y as int, px, py);
            assert(pixel_at(buf@, size as int, px, py) =~= pixel_at(before, size as int, px, py));
        }
    }
}

/// The parts of the icon that are drawn over one another.
#[derive(Clone, Copy)]
enum Layer {
    Disc,
    Glyph,
}

impl Layer {
    spec fn holds(self, size: int, x: int, y: int) -> bool {
        match self {
            Layer::Disc => in_disc(size, x, y),
            Layer::Glyph => in_glyph(size, x, y),
        }
    }

    fn covers(self, size: u32, x: u32, y: u32) -> (inside: bool)
        requires
            size <= MAX_ICON_SIZE,
            x < size,
            y < size,
        ensures
            inside == self.holds(size as int, x as int, y as int),
    {
        match self {
            Layer::Disc => covered_by_disc(size, x, y),
            Layer::Glyph => covered_by_glyph(size, x, y),
        }
    }
}

/// The product of two numbers that are small enough for it.
fn product(a: i64, b: i64) -> (c: i64)
    requires
        -0x40_0000 <= a <= 0x40_0000,
        -0x40_0000 <= b <= 0x40_0000,
    ensures
        c == a * b,
        -0x1000_0000_0000 <= c <= 0x1000_0000_0000,
{
    assert(-0x1000_0000_0000 <= a * b <= 0x1000_0000_0000) by (nonlinear_arith)
        requires
            -0x40_0000 <= a <= 0x40_0000,
            -0x40_0000 <= b <= 0x40_0000,
    ;
    a * b
}

fn across_of(size: u32, x: u32) -> (distance: i64)
    requires
        x < size <= MAX_ICON_SIZE,
    ensures
        distance == across(size as int, x as int),
        0 <= distance <= 0x8000,
{
    let column: i64 = 2 * (x as i64) + 1;
    let side: i64 = size as i64;
    if column >= side {
        column - side
    } else {
        side - column
    }
}

fn covered_by_disc(size: u32, x: u32, y: u32) -> (inside: bool)
    requires
        size <= MAX_ICON_SIZE,
        x < size,
        y < size,
    ensures
        inside == in_disc(size as int, x as int, y as int),
{
    let dx: i64 = across_of(size, x);
    let side: i64 = size as i64;
    let dy: i64 = 2 * (y as i64) + 1 - side;
    625 * (product(dx, dx) + product(dy, dy)) <= 529 * product(side, side)
}

fn covered_by_glyph(size: u32, x: u32, y: u32) -> (inside: bool)
    requires
        size <= MAX_ICON_SIZE,
        x < size,
        y < size,
    ensures
        inside == in_glyph(size as int, x as int, y as int),
{
    let side: i64 = size as i64;
    let dx: i64 = 50 * across_of(size, x);
    let row: i64 = 50 * (2 * (y as i64) + 1);
    let above: i64 = row - 33 * side;
    let below: i64 = row - 45 * side;
    let radius: i64 = 13 * side;
    let reach: i64 = product(radius, radius);
    let head = (above >= 0 && below <= 0 && dx <= radius) || (above < 0 && product(dx, dx)
        + product(above, above) <= reach) || (below > 0 && product(dx, dx) + product(below, below)
        <= reach);
    let half: i64 = if 3 * side >= 50 {
        3 * side
    } else {
        50
    };
    let stand = 58 * side <= row && row <= 80 * side && dx <= half;
    let base = dx <= 14 * side && -half <= row - 80 * side && row - 80 * side <= half;
    head || stand || base
}

fn draw_layer(buf: &mut Vec<u8>, size: u32, layer: Layer, color: [u8; 4])
    requires
        size <= MAX_ICON_SIZE,
        old(buf)@.len() == 4 * (size * size),
    ensures
        final(buf)@.len() == old(buf)@.len(),
        forall|px: int, py: int|
            #![trigger pixel_at(final(buf)@, size as int, px, py)]
            in_icon(size as int, px, py) ==> pixel_at(final(buf)@, size as int, px, py)
                == if layer.holds(size as int, px, py) {
                color@
            } else {
                pixel_at(old(buf)@, size as int, px, py)
            },
{
    let ghost before = buf@;
    let mut y: u32 = 0;
    while y < size
        invariant
            y <= size <= MAX_ICON_SIZE,
            before == old(buf)@,
            before.len() == 4 * (size * size),
            buf@.len() == before.len(),
            forall|px: int, py: int|
                #![trigger pixel_at(buf@, size as int, px, py)]
                in_icon(size as int, px, py) ==> pixel_at(buf@, size as int, px, py) == if py < y
                    && layer.holds(size as int, px, py) {
                    color@
                } else {
                    pixel_at(before, size as int, px, py)
                },
        decreases size - y,
    {
        let mut x: u32 = 0;
        while x < size
            invariant
                x <= size,
                y < size <= MAX_ICON_SIZE,
                before.len() == 4 * (size * size),
                buf@.len() == before.len(),
                forall|px: int, py: int|
                    #![trigger pixel_at(buf@, size as int, px, py)]
                    in_icon(size as int, px, py) ==> pixel_at(buf@, size as int, px, py) == if (py
                        < y || (py == y && px < x)) && layer.holds(size as int, px, py) {
                        color@
                    } else {
                        pixel_at(before, size as int, px, py)
                    },
            decreases size - x,
        {
            if layer.covers(size, x, y) {
                set_pixel(buf, size, x as i32, y as i32, color);
            }
            x = x + 1;
        }
        y = y + 1;
    }
}

fn draw_filled_circle(buf: &mut Vec<u8>, size: u32, color: [u8; 4])
    requires
        size <= MAX_ICON_SIZE,
        old(buf)@.len() == 4 * (size * size),
    ensures
        final(buf)@.len() == old(buf)@.len(),
        forall|px: int, py: int|
            #![trigger pixel_at(final(buf)@, size as int, px, py)]
            in_icon(size as int, px, py) ==> pixel_at(final(buf)@, size as int, px, py)
                == if in_disc(size as int, px, py) {
                color@
            } else {
                pixel_at(old(buf)@, size as int, px, py)
            },
{
    draw_layer(buf, size, Layer::Disc, color);
}

fn draw_mic_glyph(buf: &mut Vec<u8>, size: u32, color: [u8; 4])
    requires
        size <= MAX_ICON_SIZE,
        old(buf)@.len() == 4 * (size * size),
    ensures
        final(buf)@.len() == old(buf)@.len(),
        forall|px: int, py: int|
            #![trigger pixel_at(final(buf)@, size as int, px, py)]
            in_icon(size as int, px, py) ==> pixel_at(final(buf)@, size as int, px, py)
                == if in_glyph(size as int, px, py) {
                color@
            } else {
                pixel_at(old(buf)@, size as int, px, py)
            },
{
    draw_layer(buf, size, Layer::Glyph, color);
}

/// A `size` x `size` RGBA image, row by row, of a disc in `background` with a
/// microphone in `glyph` on it, and transparent around the disc.
pub fn render_mic_icon(size: u32, background: [u8; 4], glyph: [u8; 4]) -> (buf: Vec<u8>)
    requires
        size <= MAX_ICON_SIZE,
        4 * (size * size) <= usize::MAX,
    ensures
        buf@.len() == 4 * (size * size),
        forall|x: int, y: int|
            #![trigger pixel_at(buf@, size as int, x, y)]
            in_icon(size as int, x, y) ==> pixel_at(buf@, size as int, x, y) == icon_pixel(
                size as int,
                background@,
                glyph@,
                x,
                y,
            ),
{
    let side: usize = size as usize;
    assert(0 <= size * size) by (nonlinear_arith);
    let mut buf: Vec<u8> = vec![0u8; side * side * 4];
    let ghost blank = buf@;
    assert forall|x: int, y: int| #![trigger pixel_at(blank, size as int, x, y)]
        in_icon(size as int, x, y) implies pixel_at(blank, size as int, x, y) == transparent() by {
        lemma_pixel_bounds(size as int, x, y);
        assert(pixel_at(blank, size as int, x, y) =~= transparent());
    }
    draw_filled_circle(&mut buf, size, background);
    draw_mic_glyph(&mut buf, size, glyph);
    buf
}

/// The icon is its own mirror image.
pub proof fn law_the_icon_is_symmetric(
    size: int,
    background: Seq<u8>,
    glyph: Seq<u8>,
    x: int,
    y: int,
)
    ensures
        icon_pixel(size, background, glyph, x, y) == icon_pixel(
            size,
            background,
            glyph,
            size - 1 - x,
            y,
        ),
{
    assert(across(size, size - 1 - x) == across(size, x));
}

/// The corners are transparent, from a side of three pixels on.
pub proof fn law_the_corners_are_transparent(
    size: int,
    background: Seq<u8>,
    glyph: Seq<u8>,
    x: int,
    y: int,
)
    requires
        3 <= size,
        x == 0 || x == size - 1,
        y == 0 || y == size - 1,
    ensures
        icon_pixel(size, background, glyph, x, y) == transparent(),
{
    let d = size - 1;
    assert(across(size, x) == d);
    assert((down(y) - size) * (down(y) - size) == d * d) by (nonlinear_arith)
        requires
            down(y) - size == d || down(y) - size == -d,
    ;
    assert(625 * (d * d + d * d) > 529 * (size * size)) by (nonlinear_arith)
        requires
            d == size - 1,
            3 <= size,
    ;
    assert((50 * d) * (50 * d) > (13 * size) * (13 * size)) by (nonlinear_arith)
        requires
            d == size - 1,
            3 <= size,
    ;
    let above = 50 * down(y) - 33 * size;
    let below = 50 * down(y) - 45 * size;
    assert(above * above >= 0 && below * below >= 0) by (nonlinear_arith);
}

/// The middle of the icon is never transparent: it is the microphone or the
/// disc, from a side of two pixels on.
pub proof fn law_the_middle_is_drawn(size: int, x: int, y: int)
    requires
        2 <= size,
        x == size / 2,
        y == size / 2,
    ensures
        in_glyph(size, x, y) || in_disc(size, x, y),
{
    let dx = across(size, x);
    let dy = down(y) - size;
    assert(0 <= dx <= 1 && 0 <= dy <= 1);
    assert(625 * (dx * dx + dy * dy) <= 529 * (size * size)) by (nonlinear_arith)
        requires
            0 <= dx <= 1,
            0 <= dy <= 1,
            2 <= size,
    ;
}

/// What a glance at the icon tells of a state.
pub ghost enum Glance {
    Idle,
    Recording,
    HandsFree,
    Transcribing,
    Inserted,
    Warning,
}

pub open spec fn glance(status: Status) -> Glance {
    match status {
        Status::Ready { .. } => Glance::Idle,
        Status::Recording => Glance::Recording,
        Status::Listening => Glance::HandsFree,
        Status::Transcribing => Glance::Transcribing,
        Status::Inserted(_) => Glance::Inserted,
        Status::HeardNothing => Glance::Idle,
        Status::HandsFreeOn => Glance::HandsFree,
        Status::HandsFreeOff => Glance::Idle,
        Status::Warning(_) => Glance::Warning,
    }
}

/// The mode is visible at a glance: two states have the same colour exactly
/// where they mean the same mode.
pub proof fn law_each_mode_has_its_own_colour(a: Status, b: Status)
    ensures
        state_color(a) == state_color(b) <==> glance(a) == glance(b),
{
    assert(WARM_NEUTRAL@[1] != RUST@[1]);
    assert(WARM_NEUTRAL@[0] != TERRACOTTA@[0]);
    assert(WARM_NEUTRAL@[0] != GOLDEN_AMBER@[0]);
    assert(WARM_NEUTRAL@[0] != MUSTARD@[0]);
    assert(WARM_NEUTRAL@[0] != SAGE@[0]);
    assert(RUST@[0] != TERRACOTTA@[0]);
    assert(RUST@[0] != GOLDEN_AMBER@[0]);
    assert(RUST@[0] != MUSTARD@[0]);
    assert(RUST@[0] != SAGE@[0]);
    assert(TERRACOTTA@[0] != GOLDEN_AMBER@[0]);
    assert(TERRACOTTA@[0] != MUSTARD@[0]);
    assert(TERRACOTTA@[0] != SAGE@[0]);
    assert(GOLDEN_AMBER@[0] != MUSTARD@[0]);
    assert(GOLDEN_AMBER@[0] != SAGE@[0]);
    assert(MUSTARD@[0] != SAGE@[0]);
}

/// The disc by its radius: the centre of a pixel lies in it where it is at most
/// 46 hundredths of the side from the middle, so that twice the distance, squared,
/// is at most 8464 ten-thousandths of the side, squared.
pub proof fn law_the_disc_is_round(size: int, x: int, y: int)
    ensures
        in_disc(size, x, y) <==> {
            let dx = 2 * x + 1 - size;
            let dy = 2 * y + 1 - size;
            10_000 * (dx * dx + dy * dy) <= 8_464 * (size * size)
        },
{
    let dx = 2 * x + 1 - size;
    let a = across(size, x);
    assert(a * a == dx * dx) by (nonlinear_arith)
        requires
            a == dx || a == -dx,
    ;
    assert(down(y) - size == 2 * y + 1 - size);
}

/// The microphone by its parts, in hundredths of half a side: a head of all
/// within 13 of the line from 33 to 45 in the middle, a stand from 58 to 80 and a
/// base at 80 that reaches 14 to either side, both as thick as 6, or one pixel.
pub proof fn law_the_microphone_by_its_parts(size: int, x: int, y: int)
    requires
        0 <= size,
    ensures
        ({
            let px = 50 * (2 * x + 1 - size);
            let py = 50 * (2 * y + 1);
            let nearest = if py < 33 * size {
                33 * size
            } else if py > 45 * size {
                45 * size
            } else {
                py
            };
            let away = py - nearest;
            let half = if 3 * size < 50 {
                50
            } else {
                3 * size
            };
            let head = px * px + away * away <= (13 * size) * (13 * size);
            let stand = -half <= px <= half && 58 * size <= py <= 80 * size;
            let base = -14 * size <= px <= 14 * size && 80 * size - half <= py <= 80 * size + half;
            in_glyph(size, x, y) <==> head || stand || base
        }),
{
    let px = 50 * (2 * x + 1 - size);
    let py = 50 * (2 * y + 1);
    let dx = 50 * across(size, x);
    let radius = 13 * size;
    assert(dx == px || dx == -px);
    assert(dx >= 0);
    assert(dx * dx == px * px) by (nonlinear_arith)
        requires
            dx == px || dx == -px,
    ;
    assert(dx <= radius <==> dx * dx <= radius * radius) by (nonlinear_arith)
        requires
            0 <= dx,
            0 <= radius,
    ;
    assert(0 * 0 == 0);
}

/// The bytes of a pixel stand row by row, four to a pixel.
pub proof fn law_pixels_stand_row_by_row(buf: Seq<u8>, size: int, x: int, y: int, channel: int)
    requires
        in_icon(size, x, y),
        buf.len() == 4 * (size * size),
        0 <= channel < 4,
    ensures
        pixel_at(buf, size, x, y).len() == 4,
        pixel_at(buf, size, x, y)[channel] == buf[4 * (y * size + x) + channel],
{
    lemma_pixel_bounds(size, x, y);
}

/// The microphone is drawn over the disc, and the disc over nothing.
pub proof fn law_what_is_drawn_over_what(
    size: int,
    background: Seq<u8>,
    glyph: Seq<u8>,
    x: int,
    y: int,
)
    ensures
        in_glyph(size, x, y) ==> icon_pixel(size, background, glyph, x, y) == glyph,
        !in_glyph(size, x, y) && in_disc(size, x, y) ==> icon_pixel(size, background, glyph, x, y)
            == background,
        !in_glyph(size, x, y) && !in_disc(size, x, y) ==> icon_pixel(size, background, glyph, x, y)
            == seq![0u8, 0, 0, 0],
        in_icon(size, x, y) <==> 0 <= x && x < size && 0 <= y && y < size,
{
}

/// The colour of each state, in red, green, blue and opacity.
pub proof fn law_the_colour_of_each_state(text: Seq<char>, mic_name: Seq<char>, on: bool)
    ensures
        state_color(Status::Ready { mic_name, cleanup_enabled: on })@ == seq![196u8, 176, 145, 255],
        state_color(Status::HeardNothing)@ == seq![196u8, 176, 145, 255],
        state_color(Status::HandsFreeOff)@ == seq![196u8, 176, 145, 255],
        state_color(Status::Recording)@ == seq![224u8, 122, 95, 255],
        state_color(Status::Listening)@ == seq![232u8, 180, 84, 255],
        state_color(Status::HandsFreeOn)@ == seq![232u8, 180, 84, 255],
        state_color(Status::Transcribing)@ == seq![212u8, 160, 60, 255],
        state_color(Status::Inserted(text))@ == seq![139u8, 163, 120, 255],
        state_color(Status::Warning(text))@ == seq![196u8, 90, 74, 255],
{
    assert(WARM_NEUTRAL@ =~= seq![196u8, 176, 145, 255]);
    assert(TERRACOTTA@ =~= seq![224u8, 122, 95, 255]);
    assert(GOLDEN_AMBER@ =~= seq![232u8, 180, 84, 255]);
    assert(MUSTARD@ =~= seq![212u8, 160, 60, 255]);
    assert(SAGE@ =~= seq![139u8, 163, 120, 255]);
    assert(RUST@ =~= seq![196u8, 90, 74, 255]);
}

} // verus!
