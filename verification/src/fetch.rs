//! The fetch pipeline's shared vocabulary: what a page walk decides, and
//! where a fetched record came from.
use vstd::prelude::*;

verus! {

/// What the pipeline waits for before reading a page's HTML.
#[derive(Debug, Clone, Copy, PartialEq, Eq, Structural)]
pub enum ReadinessTarget {
    /// Wait for `document.readyState === "complete"`.
    DocumentComplete,
}

/// Whether the pipeline should walk another page of a paginated target.
#[derive(Debug, Clone, Copy, PartialEq, Eq, Structural)]
pub enum Paging {
    /// The last page said there is nothing after it.
    Done,
    /// There may be more; fetch the next page if the target has one.
    More,
}

/// Where a record came from: read from iHerb during this run, or read off a
/// cache file written at some earlier instant (in nanoseconds since the Unix
/// epoch).
#[derive(Debug, Clone, Copy, PartialEq, Eq, Structural)]
pub enum Provenance {
    Fresh,
    Cached { written_at: u64 },
}

/// When a record's data was read, given the instant the run reports itself
/// at: a fresh record was read during the run, so one clock sample dates
/// both.
pub open spec fn fetched_at_of(p: Provenance, emitted_at: u64) -> u64 {
    match p {
        Provenance::Fresh => emitted_at,
        Provenance::Cached { written_at } => written_at,
    }
}

impl Provenance {
    /// When the record's data was read.
    pub fn fetched_at(self, emitted_at: u64) -> (t: u64)
        ensures
            t == fetched_at_of(self, emitted_at),
    {
        match self {
            Provenance::Fresh => emitted_at,
            Provenance::Cached { written_at } => written_at,
        }
    }

    /// Whether the record came off the cache.
    pub fn from_cache(self) -> (b: bool)
        ensures
            b == (self is Cached),
    {
        matches!(self, Provenance::Cached { .. })
    }
}

/// A fetched artefact and where it came from.
pub struct Fetched<T> {
    pub data: T,
    pub provenance: Provenance,
}


/// How many times a navigation is retried before the fetch gives up.
pub const NAVIGATION_RETRIES: u32 = 2;

/// Where a walk over a target's pages stands: the pages it may read, the
/// next one it would read, and whether it has stopped.
#[derive(Debug, Clone, Copy)]
pub struct PageWalk {
    page_count: usize,
    next: usize,
    stopped: bool,
}

impl PageWalk {
    /// How many pages the target has.
    pub closed spec fn pages(&self) -> usize {
        self.page_count
    }

    /// The page the walk would read next, counting from 1.
    pub closed spec fn upcoming(&self) -> usize {
        self.next
    }

    /// Whether the walk has stopped.
    pub closed spec fn is_stopped(&self) -> bool {
        self.stopped
    }

    /// Whether the walk's state is one it can be in: the next page is at
    /// least the first, and at most one past the last.
    pub closed spec fn wf(&self) -> bool {
        1 <= self.next && self.next <= self.page_count + 1 && self.page_count < usize::MAX
    }

    /// A walk over `page_count` pages, about to read the first.
    pub fn new(page_count: usize) -> (w: Self)
        requires
            page_count < usize::MAX,
        ensures
            w.wf(),
            w.pages() == page_count,
            w.upcoming() == 1,
            !w.is_stopped(),
    {
        PageWalk { page_count, next: 1, stopped: false }
    }

    /// The page to read next, or `None` when the walk is over: it has
    /// stopped, it has read every page, or the target already has enough.
    /// Once `None`, always `None`.
    pub fn next_page(&mut self, has_enough: bool) -> (p: Option<usize>)
        requires
            old(self).wf(),
        ensures
            final(self).wf(),
            final(self).pages() == old(self).pages(),
            final(self).upcoming() == old(self).upcoming(),
            (p is Some) <==> (!old(self).is_stopped() && old(self).upcoming() <= old(self).pages()
                && !has_enough),
            p matches Some(n) ==> (n == old(self).upcoming() && 1 <= n <= old(self).pages()),
            final(self).is_stopped() == (p is None),
    {
        if self.stopped || self.next > self.page_count || has_enough {
            self.stopped = true;
            None
        } else {
            Some(self.next)
        }
    }

    /// Record what the page just read said. The walk stops when it said
    /// there is nothing after it; otherwise it moves to the next page, and
    /// the result says whether to pause before reading it (there is one to
    /// read).
    pub fn page_read(&mut self, paging: Paging) -> (pause: bool)
        requires
            old(self).wf(),
            !old(self).is_stopped(),
            old(self).upcoming() <= old(self).pages(),
        ensures
            final(self).wf(),
            final(self).pages() == old(self).pages(),
            paging == Paging::Done ==> final(self).is_stopped() && !pause && final(self).upcoming()
                == old(self).upcoming(),
            paging == Paging::More ==> !final(self).is_stopped() && final(self).upcoming()
                == old(self).upcoming() + 1 && pause == (old(self).upcoming() < old(self).pages()),
    {
        match paging {
            Paging::Done => {
                self.stopped = true;
                false
            },
            Paging::More => {
                let pause = self.next < self.page_count;
                self.next = self.next + 1;
                pause
            },
        }
    }
}

} // verus!
