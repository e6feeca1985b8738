//! Exactly-one, lazily-initialized, exclusive access to the console
//! writer. The first acquisition constructs the writer; each later one
//! hands back the same writer state, so writes accumulate across scoped
//! acquisitions for the life of the process.
//!
//! There is a single thread of control, so exclusion here is a protocol:
//! an acquisition is only made while no other is held. The freestanding
//! image wraps this handle in a spin lock for the re-entrant panic path,
//! which spins forever if the fault arrives during an active hold — a
//! documented limitation, preserved rather than fixed.

use vstd::prelude::*;

use crate::vga_buffer::{blank_cell, Color, ColorCode, Writer, BUFFER_HEIGHT, BUFFER_WIDTH};

verus! {

/// The lazily-initialized exclusive handle around the console writer.
pub struct Console {
    slot: Option<Writer>,
    started: bool,
}

impl Console {
    /// The writer exists and is currently taken by a holder.
    pub closed spec fn held(self) -> bool {
        self.started && self.slot is None
    }

    /// The writer has been constructed at some earlier acquisition.
    pub closed spec fn started(self) -> bool {
        self.started
    }

    /// The writer state the handle keeps between acquisitions.
    pub closed spec fn stored(self) -> Writer {
        self.slot->Some_0
    }

    /// The handle's invariant: before the first acquisition nothing is
    /// stored, and whatever is stored is a well-formed writer.
    pub closed spec fn inv(self) -> bool {
        &&& !self.started ==> self.slot is None
        &&& self.slot is Some ==> self.stored().wf()
    }

    /// A handle with nothing constructed yet.
    pub fn new() -> (c: Console)
        ensures
            c.inv(),
            !c.started(),
            !c.held(),
    {
        Console { slot: None, started: false }
    }

    /// Whether the writer is currently taken by a holder.
    pub fn is_held(&self) -> (b: bool)
        ensures
            b == self.held(),
    {
        self.started && self.slot.is_none()
    }

    /// Acquire the writer. The first acquisition constructs it: cursor at
    /// column 0, yellow on black, a blank grid. Every later acquisition
    /// returns exactly the state the previous holder released.
    pub fn acquire(&mut self) -> (w: Writer)
        requires
            old(self).inv(),
            !old(self).held(),
        ensures
            final(self).inv(),
            final(self).held(),
            final(self).started(),
            w.wf(),
            old(self).started() ==> w == old(self).stored(),
            !old(self).started() ==> {
                &&& w.column() == 0
                &&& w.style() == Color::Black.spec_value() * 16 + Color::Yellow.spec_value()
                &&& forall|r: int, c: int|
                    0 <= r < BUFFER_HEIGHT && 0 <= c < BUFFER_WIDTH ==> w.grid()[r][c]
                        == blank_cell(w.style())
            },
    {
        let taken = self.slot.take();
        match taken {
            Some(w) => w,
            None => {
                self.started = true;
                Writer::new(ColorCode::new(Color::Yellow, Color::Black))
            },
        }
    }

    /// Release the writer back to the handle; the next acquisition
    /// observes exactly this state.
    pub fn release(&mut self, w: Writer)
        requires
            old(self).inv(),
            old(self).held(),
            w.wf(),
        ensures
            final(self).inv(),
            !final(self).held(),
            final(self).started(),
            final(self).stored() == w,
            *final(self) == old(self).spec_release(w),
    {
        self.slot = Some(w);
    }
}

impl Console {
    /// The handle as `release` leaves it when `w` is handed back.
    pub closed spec fn spec_release(self, w: Writer) -> Console {
        Console { slot: Some(w), started: true }
    }

    /// The writer `acquire` observes on a handle that holds one.
    pub closed spec fn spec_acquired(self) -> Writer {
        self.stored()
    }
}

/// Singleton identity: on any handle, a release of writer state `w`
/// followed by an acquisition observes exactly `w` — cumulative writer
/// state (for one, the cursor column) persists across sequential scoped
/// acquisitions within one process lifetime.
pub proof fn lemma_singleton_identity(c: Console, w: Writer)
    ensures
        c.spec_release(w).spec_acquired() == w,
        c.spec_release(w).spec_acquired().column() == w.column(),
        c.spec_release(w).started(),
        !c.spec_release(w).held(),
{
}

} // verus!
