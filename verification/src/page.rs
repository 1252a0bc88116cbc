//! The pages of the display and the cyclic order among the normal ones.

use vstd::prelude::*;

verus! {

/// One screen of the display.
///
/// `System`, `Disk` and `Network` form a cycle that the left and right keys
/// walk through.  `Messages` lists alarms; it is entered on wake-up and left
/// by acknowledging, never by paging.
#[derive(Debug, Clone, Copy, PartialEq, Eq, Structural)]
pub enum Page {
    Messages,
    System,
    Disk,
    Network,
}

impl Page {
    /// Whether this page takes part in the left/right cycle.
    pub open spec fn is_normal(&self) -> bool {
        *self != Page::Messages
    }

    /// The page to the right of `self`.
    pub open spec fn spec_next(&self) -> Page {
        match *self {
            Page::Messages => Page::Messages,
            Page::System => Page::Disk,
            Page::Disk => Page::Network,
            Page::Network => Page::System,
        }
    }

    /// The page to the left of `self`.
    pub open spec fn spec_prev(&self) -> Page {
        match *self {
            Page::Messages => Page::Messages,
            Page::Disk => Page::System,
            Page::Network => Page::Disk,
            Page::System => Page::Network,
        }
    }

    #[verifier::when_used_as_spec(spec_next)]
    pub fn next(&self) -> (r: Page)
        ensures
            r == self.spec_next(),
    {
        match *self {
            // Messages cannot be dismissed by page select.
            Page::Messages => Page::Messages,
            Page::System => Page::Disk,
            Page::Disk => Page::Network,
            Page::Network => Page::System,
        }
    }

    #[verifier::when_used_as_spec(spec_prev)]
    pub fn prev(&self) -> (r: Page)
        ensures
            r == self.spec_prev(),
    {
        match *self {
            // Messages cannot be dismissed by page select.
            Page::Messages => Page::Messages,
            Page::Disk => Page::System,
            Page::Network => Page::Disk,
            Page::System => Page::Network,
        }
    }
}

/// Paging left and then right, or right and then left, comes back to the
/// same page, and three steps to the right walk the whole cycle of normal
/// pages.  The messages page is a fixed point of both directions, and no
/// normal page leads to it.
pub proof fn lemma_page_cycle(p: Page)
    ensures
        p.next().prev() == p,
        p.prev().next() == p,
        p.next().next().next() == p,
        p.prev().prev().prev() == p,
        p.is_normal() ==> p.next() != p && p.next().next() != p,
        p.is_normal() <==> p.next().is_normal(),
        p.is_normal() <==> p.prev().is_normal(),
        Page::Messages.next() == Page::Messages,
        Page::Messages.prev() == Page::Messages,
{
}

} // verus!
