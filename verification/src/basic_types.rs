//! Small shared value types: identifiers and colors.
//!
//! Color channels are carried as the raw bit patterns of the 32-bit values
//! read from (or destined for) the rendering side, so that the verified part
//! of the library never performs floating-point arithmetic on them.

use std::rc::Rc;
use std::sync::Arc;

use vstd::prelude::*;

verus! {

/// Relies on std's `Rc::clone`: the clone is a new handle to the same
/// allocation, so it carries the same value.
#[verifier::external_body]
pub fn rc_clone<T>(rc: &Rc<T>) -> (res: Rc<T>)
    ensures
        res == *rc,
{
    Rc::clone(rc)
}

/// Relies on std's `Arc::clone`: the clone is a new handle to the same
/// allocation, so it carries the same value.
#[verifier::external_body]
pub fn arc_clone<T>(arc: &Arc<T>) -> (res: Arc<T>)
    ensures
        res == *arc,
{
    Arc::clone(arc)
}

/// General ID type to identify and distinguish elements that can be
/// instantiated multiple times.
pub type ID = u64;

/// The bit pattern of the 32-bit value one; used as the default alpha
/// channel.
pub const ONE_BITS: u32 = 0x3F80_0000;

/// A counter handing out fresh ids, threaded explicitly through the
/// constructors that need it.
pub struct IDCounter {
    counter: u64,
}

impl IDCounter {
    /// The next id this counter will hand out.
    pub closed spec fn next_id(&self) -> u64 {
        self.counter
    }

    /// Returns a new initialized ID counter.
    pub fn new() -> (r: Self)
        ensures
            r.next_id() == 0,
    {
        Self { counter: 0 }
    }

    /// Generates and returns a new ID.  The counter wraps around at the
    /// largest id.
    pub fn gen(&mut self) -> (id: ID)
        ensures
            id == old(self).next_id(),
            final(self).next_id() == if old(self).next_id() == u64::MAX {
                0u64
            } else {
                (old(self).next_id() + 1) as u64
            },
    {
        let id = self.counter;
        if self.counter == u64::MAX {
            self.counter = 0;
        } else {
            self.counter = self.counter + 1;
        }
        id
    }
}

/// Trait for all color types.
pub trait Color: Sized {
    /// Returns the color black.
    fn black() -> Self;
}

/// An RGB color; each channel holds the bit pattern of a 32-bit channel
/// value.
#[derive(Clone, Copy, Debug, PartialEq, Eq, Structural)]
pub struct RGB {
    pub red: u32,
    pub green: u32,
    pub blue: u32,
}

impl RGB {
    /// Returns a new RGB color from the three channel bit patterns.
    pub fn new(red: u32, green: u32, blue: u32) -> (r: Self)
        ensures
            r == (RGB { red, green, blue }),
    {
        Self { red, green, blue }
    }
}

impl Color for RGB {
    fn black() -> (r: Self)
        ensures
            r == (RGB { red: 0u32, green: 0u32, blue: 0u32 }),
    {
        RGB::new(0, 0, 0)
    }
}

/// An RGBA color; each channel holds the bit pattern of a 32-bit channel
/// value.
#[derive(Clone, Copy, Debug, PartialEq, Eq, Structural)]
pub struct RGBA {
    pub red: u32,
    pub green: u32,
    pub blue: u32,
    pub alpha: u32,
}

impl RGBA {
    /// Returns a new RGBA color from the four channel bit patterns.
    pub fn new(red: u32, green: u32, blue: u32, alpha: u32) -> (r: Self)
        ensures
            r == (RGBA { red, green, blue, alpha }),
    {
        Self { red, green, blue, alpha }
    }
}

impl Color for RGBA {
    /// Black with an opaque alpha channel.
    fn black() -> (r: Self)
        ensures
            r == (RGBA { red: 0u32, green: 0u32, blue: 0u32, alpha: ONE_BITS }),
    {
        RGBA::new(0, 0, 0, ONE_BITS)
    }
}

} // verus!
