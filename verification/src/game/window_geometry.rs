use vstd::prelude::*;

verus! {

/// Window placement kept between runs.
#[derive(Debug, Clone, Copy, PartialEq, Eq, Structural)]
pub struct WindowGeometry {
    /// Physical screen x of the window's top-left corner.
    pub x: i32,
    /// Physical screen y of the window's top-left corner.
    pub y: i32,
    /// Logical width in pixels.
    pub width: u32,
    /// Logical height in pixels.
    pub height: u32,
}

/// The geometry of a snapshot (x, y, width, height).
pub open spec fn geometry_of(s: (i32, i32, u32, u32)) -> WindowGeometry {
    WindowGeometry { x: s.0, y: s.1, width: s.2, height: s.3 }
}

/// One frame of persisting, from the snapshot `before` to the snapshot
/// `after`, writing `write`.
pub open spec fn persist_step(
    before: Option<(i32, i32, u32, u32)>,
    quit: bool,
    current: Option<(i32, i32, u32, u32)>,
    write: Option<WindowGeometry>,
    after: Option<(i32, i32, u32, u32)>,
) -> bool {
    if quit || current is None || current == before {
        write is None && after == before
    } else {
        write == Some(geometry_of(current.unwrap())) && after == current
    }
}

/// The persisting decision of one frame. `current` is the window's position
/// and size, or `None` while there is no window or the system has not placed
/// it yet; `last` is the snapshot written last. Nothing is written once quit
/// was requested, nor when nothing changed; otherwise the new geometry is
/// returned for writing and remembered.
pub fn persist_window_geometry(
    last: &mut Option<(i32, i32, u32, u32)>,
    quit: bool,
    current: Option<(i32, i32, u32, u32)>,
) -> (write: Option<WindowGeometry>)
    ensures
        persist_step(*old(last), quit, current, write, *final(last)),
{
    if quit {
        return None;
    }
    let cur = match current {
        Some(c) => c,
        None => {
            return None;
        },
    };
    let same = match *last {
        Some(l) => l.0 == cur.0 && l.1 == cur.1 && l.2 == cur.2 && l.3 == cur.3,
        None => false,
    };
    if same {
        return None;
    }
    *last = Some(cur);
    Some(WindowGeometry { x: cur.0, y: cur.1, width: cur.2, height: cur.3 })
}

/// Writing is idempotent: after a frame that wrote the window's geometry,
/// a frame with the same window writes nothing.
pub proof fn lemma_persist_once(
    last0: Option<(i32, i32, u32, u32)>,
    last1: Option<(i32, i32, u32, u32)>,
    last2: Option<(i32, i32, u32, u32)>,
    current: Option<(i32, i32, u32, u32)>,
    write1: Option<WindowGeometry>,
    write2: Option<WindowGeometry>,
)
    requires
        persist_step(last0, false, current, write1, last1),
        write1 is Some,
        persist_step(last1, false, current, write2, last2),
    ensures
        write2 is None,
        last2 == current,
{
}

} // verus!
