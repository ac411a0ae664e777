//! Enumeration of the repositories of a star range: its windows one after
//! the other, each paginated on its own.
use vstd::prelude::*;

use crate::github_api::{Page, Repository, RepositoryQuery};
use crate::pagination::{Paginator, Step};
use crate::star_range::StarWindows;

verus! {

/// Cursor over the repositories of a star range, window by window from the
/// top down.
pub struct RepositoryCursor {
    windows: StarWindows,
    current: Option<Paginator<RepositoryQuery, Repository>>,
}

impl RepositoryCursor {
    /// The windows not started yet.
    pub closed spec fn remaining_windows(&self) -> Seq<(int, int)> {
        self.windows.remaining()
    }

    /// The paginated window under way, if any.
    pub closed spec fn current(&self) -> Option<Paginator<RepositoryQuery, Repository>> {
        self.current
    }

    pub closed spec fn language(&self) -> &'static str {
        self.windows.language()
    }

    pub closed spec fn wf(&self) -> bool {
        &&& self.windows.wf()
        &&& self.current matches Some(c) ==> c.wf()
    }

    /// Whether a page of the window under way has been asked for and is to be
    /// fed back.
    pub open spec fn awaiting_page(&self) -> bool {
        self.current() matches Some(c) && c.pending().len() == 0 && !c.is_exhausted()
    }

    /// A cursor over the windows of `q`'s star range.
    pub fn new(q: RepositoryQuery) -> (r: Self)
        ensures
            r.wf(),
            r.remaining_windows() == crate::star_range::windows(q.min_stars as int, q.max_stars as int),
            r.current().is_none(),
            r.language() == q.lang,
    {
        RepositoryCursor { windows: StarWindows::new(q), current: None }
    }

    /// The next step: the next item of the window under way; else the page it
    /// needs; else the first page of the next window, which becomes the one
    /// under way; else the end.
    pub fn step(&mut self) -> (r: Step<RepositoryQuery, Repository>)
        requires
            old(self).wf(),
        ensures
            final(self).wf(),
            final(self).language() == old(self).language(),
            match old(self).current() {
                Some(c) if c.pending().len() > 0 => {
                    &&& r == Step::<RepositoryQuery, Repository>::Item(c.pending()[0])
                    &&& final(self).remaining_windows() == old(self).remaining_windows()
                    &&& final(self).current() matches Some(f)
                    &&& f.pending() == c.pending().drop_first()
                    &&& f.query_spec() == c.query_spec()
                    &&& f.page_number() == c.page_number()
                    &&& f.is_exhausted() == c.is_exhausted()
                    &&& f.page_size() == c.page_size()
                },
                Some(c) if !c.is_exhausted() => {
                    &&& r == Step::<RepositoryQuery, Repository>::Fetch(c.query_spec(), c.page_number() as usize)
                    &&& *final(self) == *old(self)
                },
                _ => if old(self).remaining_windows().len() == 0 {
                    &&& r is Done
                    &&& final(self).remaining_windows() == old(self).remaining_windows()
                } else {
                    let w = old(self).remaining_windows()[0];
                    &&& r matches Step::Fetch(q, 1)
                    &&& q.min_stars == w.0 && q.max_stars == w.1 && q.lang == old(self).language()
                    &&& final(self).remaining_windows() == old(self).remaining_windows().drop_first()
                    &&& final(self).current() matches Some(f)
                    &&& f.query_spec() == q
                    &&& f.page_number() == 1
                    &&& f.pending().len() == 0
                    &&& !f.is_exhausted()
                },
            },
    {
        if let Some(c) = &self.current {
            if let Some(page) = c.page_to_fetch() {
                return Step::Fetch(*c.query(), page);
            }
        }
        if let Some(c) = self.current.as_mut() {
            if let Some(item) = c.next_item() {
                return Step::Item(item);
            }
        }
        match self.windows.next_window() {
            Some(q) => {
                self.current = Some(Paginator::new(q));
                Step::Fetch(q, 1)
            },
            None => Step::Done,
        }
    }

    /// Hands in the page the last `Fetch` asked for.
    pub fn feed_page(&mut self, page: Page<Repository>)
        requires
            old(self).wf(),
            old(self).awaiting_page(),
        ensures
            final(self).wf(),
            final(self).language() == old(self).language(),
            final(self).remaining_windows() == old(self).remaining_windows(),
            final(self).current() matches Some(f) && f.pending() == page.items@,
    {
        if let Some(c) = self.current.as_mut() {
            c.feed_page(page);
        }
    }

    /// Whether the window under way stopped at the page ceiling on a full
    /// page, so that it may match more repositories than were served.
    pub fn window_possibly_truncated(&self) -> (r: bool)
        ensures
            r == (self.current() matches Some(c) && c.is_truncated()),
    {
        match &self.current {
            Some(c) => c.possibly_truncated(),
            None => false,
        }
    }
}

} // verus!
