//! The render task's half of the system: drain the pixel channel into the
//! canvas, report whether anything changed so the display is redrawn only
//! then, and translate the grid into display points with the fixed vertical
//! offset, clipped to the display's addressable region.

use vstd::prelude::*;

use crate::canvas::{cell_on, Canvas, GRID_SIZE};
use crate::channel::PixelChannel;
use crate::command::{decode_record, spec_decode, Command};

verus! {

/// Width of the physical display in pixels.
pub const DISPLAY_WIDTH: usize = 128;

/// Height of the physical display in pixels.
pub const DISPLAY_HEIGHT: usize = 64;

/// Fixed vertical offset of the grid inside the display, leaving room for
/// the status text above it.
pub const DISPLAY_OFFSET_Y: usize = 16;

/// What one channel record does to the grid: its decoded command applied,
/// or nothing for a record that does not decode.
pub open spec fn record_effect(g: Seq<Seq<bool>>, rec: (u8, u8, u8)) -> Seq<Seq<bool>> {
    match spec_decode(rec.0, rec.1, rec.2) {
        Some(c) => c.apply_to(g),
        None => g,
    }
}

/// All records of a queue applied in order.
pub open spec fn apply_records(g: Seq<Seq<bool>>, q: Seq<(u8, u8, u8)>) -> Seq<Seq<bool>>
    decreases q.len(),
{
    if q.len() == 0 {
        g
    } else {
        apply_records(record_effect(g, q[0]), q.drop_first())
    }
}

/// Some record of the queue decodes to a command, so draining it mutates
/// the canvas.
pub open spec fn any_record_applies(q: Seq<(u8, u8, u8)>) -> bool
    decreases q.len(),
{
    q.len() > 0 && (spec_decode(q[0].0, q[0].1, q[0].2) is Some || any_record_applies(
        q.drop_first(),
    ))
}

/// One tick of the render loop's channel poll: take at most one pending
/// record and apply it. An empty channel is the normal idle case and no
/// error. Returns whether the canvas changed, so the caller redraws only
/// then.
pub fn drain_step(chan: &mut PixelChannel, canvas: &mut Canvas) -> (dirty: bool)
    requires
        old(chan).wf(),
        old(canvas).wf(),
    ensures
        final(chan).wf(),
        final(canvas).wf(),
        old(chan)@.len() == 0 ==> !dirty && final(canvas)@ == old(canvas)@ && final(chan)@ == old(
            chan,
        )@,
        old(chan)@.len() > 0 ==> final(chan)@ == old(chan)@.subrange(1, old(chan)@.len() as int)
            && final(canvas)@ == record_effect(old(canvas)@, old(chan)@[0]) && dirty == (
        spec_decode(old(chan)@[0].0, old(chan)@[0].1, old(chan)@[0].2) is Some),
{
    match chan.try_read() {
        None => false,
        Some((b0, b1, b2)) => match decode_record(b0, b1, b2) {
            Some(c) => {
                apply_command(canvas, c)
            }
            None => false,
        },
    }
}

/// Apply one decoded command, reporting that the canvas changed.
fn apply_command(canvas: &mut Canvas, c: Command) -> (dirty: bool)
    requires
        old(canvas).wf(),
    ensures
        final(canvas).wf(),
        final(canvas)@ == c.apply_to(old(canvas)@),
        dirty,
{
    crate::command::apply_command(canvas, &c);
    true
}

/// Drain the whole channel into the canvas: every pending record applied in
/// producer order, the channel left empty, and the dirty flag raised exactly
/// when some record decoded to a command.
pub fn drain_all(chan: &mut PixelChannel, canvas: &mut Canvas) -> (dirty: bool)
    requires
        old(chan).wf(),
        old(canvas).wf(),
    ensures
        final(chan).wf(),
        final(canvas).wf(),
        final(chan)@.len() == 0,
        final(canvas)@ == apply_records(old(canvas)@, old(chan)@),
        dirty == any_record_applies(old(chan)@),
{
    let ghost g0 = old(canvas)@;
    let ghost q0 = old(chan)@;
    let mut dirty = false;
    loop
        invariant
            chan.wf(),
            canvas.wf(),
            apply_records(g0, q0) == apply_records(canvas@, chan@),
            any_record_applies(q0) == (dirty || any_record_applies(chan@)),
        ensures
            chan@.len() == 0,
            canvas.wf(),
            chan.wf(),
            apply_records(g0, q0) == apply_records(canvas@, chan@),
            any_record_applies(q0) == (dirty || any_record_applies(chan@)),
        decreases chan@.len(),
    {
        if chan.len() == 0 {
            break;
        }
        let stepped = drain_step(chan, canvas);
        if stepped {
            dirty = true;
        }
    }
    dirty
}

/// The lit display points of a canvas: each on-cell moved down by the fixed
/// vertical offset, kept only when it lands in the addressable region.
pub open spec fn point_lit(g: Seq<Seq<bool>>, px: int, py: int) -> bool {
    &&& cell_on(g, px, py - DISPLAY_OFFSET_Y)
    &&& 0 <= px < DISPLAY_WIDTH
    &&& DISPLAY_OFFSET_Y <= py < DISPLAY_HEIGHT
}

/// Translate the canvas into the display points to light, in row-major
/// order: exactly the on-cells, offset vertically and clipped to the
/// display.
pub fn display_points(canvas: &Canvas) -> (pts: Vec<(u8, u8)>)
    requires
        canvas.wf(),
    ensures
        forall|k: int|
            0 <= k < pts@.len() ==> point_lit(canvas@, pts@[k].0 as int, pts@[k].1 as int),
        forall|px: int, py: int|
            point_lit(canvas@, px, py) ==> pts@.contains((px as u8, py as u8)),
{
    let ghost g = canvas@;
    let mut pts: Vec<(u8, u8)> = Vec::new();
    let mut y: usize = 0;
    while y < GRID_SIZE
        invariant
            canvas.wf(),
            g == canvas@,
            y <= GRID_SIZE,
            forall|k: int| 0 <= k < pts@.len() ==> point_lit(g, pts@[k].0 as int, pts@[k].1 as int),
            forall|px: int, py: int|
                point_lit(g, px, py) && py - DISPLAY_OFFSET_Y < y ==> pts@.contains(
                    (px as u8, py as u8),
                ),
        decreases GRID_SIZE - y,
    {
        let mut x: usize = 0;
        while x < GRID_SIZE
            invariant
                canvas.wf(),
                g == canvas@,
                y < GRID_SIZE,
                x <= GRID_SIZE,
                forall|k: int|
                    0 <= k < pts@.len() ==> point_lit(g, pts@[k].0 as int, pts@[k].1 as int),
                forall|px: int, py: int|
                    point_lit(g, px, py) && py - DISPLAY_OFFSET_Y < y ==> pts@.contains(
                        (px as u8, py as u8),
                    ),
                forall|px: int, py: int|
                    point_lit(g, px, py) && py - DISPLAY_OFFSET_Y == y && px < x ==> pts@.contains(
                        (px as u8, py as u8),
                    ),
            decreases GRID_SIZE - x,
        {
            if canvas.get(x as u8, y as u8) {
                let px = x as u8;
                let py = (y + DISPLAY_OFFSET_Y) as u8;
                let ghost pts_before = pts@;
                pts.push((px, py));
                proof {
                    assert forall|e: (u8, u8)| pts_before.contains(e) implies pts@.contains(e) by {
                        let j = choose|j: int| 0 <= j < pts_before.len() && pts_before[j] == e;
                        assert(pts@[j] == e);
                    }
                    assert(pts@.contains((px, py))) by {
                        assert(pts@[pts@.len() - 1] == (px, py));
                    }
                    assert(point_lit(g, px as int, py as int));
                    assert forall|k: int|
                        0 <= k < pts@.len() implies point_lit(g, pts@[k].0 as int, pts@[k].1 as int)
                    by {
                        if k < pts@.len() - 1 {
                            assert(pts@[k] == pts_before[k]);
                        }
                    }
                }
            }
            x = x + 1;
        }
        y = y + 1;
    }
    pts
}

} // verus!
