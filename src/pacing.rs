use vstd::prelude::*;

verus! {

/// Whether frames are paced by a display barrier.
#[derive(Clone, Copy, Debug, PartialEq, Eq, Structural)]
pub enum Pacing {
    /// No pacing: only running out of free buffers holds drawing back.
    Absent,
    /// Each commit first waits on the previous barrier, then sets a new one.
    Present,
}

impl Pacing {
    /// Pacing is used when it was asked for and the display server offers it.
    pub fn select(requested: bool, available: bool) -> (r: Pacing)
        ensures
            r == (if requested && available {
                Pacing::Present
            } else {
                Pacing::Absent
            }),
    {
        if requested && available {
            Pacing::Present
        } else {
            Pacing::Absent
        }
    }

    /// Whether to tell the user that pacing was asked for but is missing.
    pub fn unavailable_notice(requested: bool, available: bool) -> (r: bool)
        ensures
            r == (requested && !available),
    {
        requested && !available
    }

    pub fn is_present(&self) -> (r: bool)
        ensures
            r == (*self == Pacing::Present),
    {
        match self {
            Pacing::Present => true,
            Pacing::Absent => false,
        }
    }
}

} // verus!
