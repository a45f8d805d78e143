use vstd::prelude::*;

use crate::glyph::{BLOCK_HEIGHT, BLOCK_WIDTH};
use crate::input::TerminalInputEvent;

verus! {

/// The pixel size that a terminal of `columns` x `rows` cells shows, one glyph
/// block per cell.
pub open spec fn target_of(columns: u16, rows: u16) -> (int, int) {
    (columns * BLOCK_WIDTH, rows * BLOCK_HEIGHT)
}

/// Pixel dimensions of a render target that fills a terminal of the given size.
pub fn target_size(columns: u16, rows: u16) -> (r: (u32, u32))
    ensures
        (r.0 as int, r.1 as int) == target_of(columns, rows),
{
    (columns as u32 * BLOCK_WIDTH, rows as u32 * BLOCK_HEIGHT)
}

/// The terminal size of the last resize event among `events`, if there is one.
pub open spec fn last_resize(events: Seq<TerminalInputEvent>) -> Option<(u16, u16)>
    decreases events.len(),
{
    if events.len() == 0 {
        None
    } else {
        match events.last() {
            TerminalInputEvent::Resize(c, r) => Some((c, r)),
            _ => last_resize(events.drop_last()),
        }
    }
}

/// The pixel size that the render target should take after `events`: that of the
/// terminal size of the last resize event among them, or `None` when the
/// terminal kept its size.
pub fn resize_handling(events: &Vec<TerminalInputEvent>) -> (r: Option<(u32, u32)>)
    ensures
        match (last_resize(events@), r) {
            (Some((c, rows)), Some((w, h))) => (w as int, h as int) == target_of(c, rows),
            (None, None) => true,
            _ => false,
        },
{
    let mut found: Option<(u16, u16)> = None;
    let mut i: usize = 0;
    assert(events@.take(0) =~= Seq::<TerminalInputEvent>::empty());
    while i < events.len()
        invariant
            i <= events@.len(),
            found == last_resize(events@.take(i as int)),
        decreases events@.len() - i,
    {
        assert(events@.take(i as int + 1).drop_last() =~= events@.take(i as int));
        match &events[i] {
            TerminalInputEvent::Resize(c, r) => {
                found = Some((*c, *r));
            },
            _ => {},
        }
        i = i + 1;
    }
    assert(events@.take(i as int) =~= events@);
    match found {
        Some((c, r)) => Some(target_size(c, r)),
        None => None,
    }
}

} // verus!
