//! One run over the items extracted from the page: which are new, and the
//! catalog after each successful delivery.
use vstd::prelude::*;
use vstd::string::*;
use crate::book::{bounded, books_view, log_line, Book, BookView};
use crate::storage::{stamp_shape, stamped, timestamp_log};
use crate::catalog::{
    catalog_after, copy_books, filter_new, lemma_bounded_push, lemma_view_bounded, new_items,
};

verus! {

/// Where a run stands.
#[derive(PartialEq, Eq, Structural, Clone, Copy, Debug)]
pub enum RunState {
    /// The item at `next` is to be delivered.
    Delivering,
    /// Every new item was delivered and stored.
    Completed,
    /// A delivery or a save failed; the remaining items are not attempted.
    Aborted,
}

/// A run: the catalog as last stored, the new items in delivery order, and how
/// many of them were delivered.
pub struct UpdateRun {
    pub catalog: Vec<Book>,
    pub pending: Vec<Book>,
    pub next: usize,
    pub max_books: u32,
    pub state: RunState,
    /// The stamped lines written during the run, in order.
    pub log: String,
    /// The catalog as loaded at the start of the run.
    pub known: Ghost<Seq<BookView>>,
}

impl UpdateRun {
    pub open spec fn wf(&self) -> bool {
        &&& self.next <= self.pending@.len()
        &&& books_view(self.catalog@) == catalog_after(
            self.known@,
            books_view(self.pending@).take(self.next as int),
            self.max_books as nat,
        )
        &&& self.state == RunState::Delivering ==> self.next < self.pending@.len()
        &&& self.state == RunState::Completed ==> self.next == self.pending@.len()
    }

    /// Starts a run on the items extracted from the page and the stored
    /// catalog: the items to deliver are those the catalog does not know.
    pub fn start(extracted: &Vec<Book>, catalog: Vec<Book>, max_books: u32) -> (r: UpdateRun)
        ensures
            r.wf(),
            r.known@ == books_view(catalog@),
            r.catalog@ == catalog@,
            books_view(r.pending@) == new_items(books_view(extracted@), books_view(catalog@)),
            r.next == 0,
            r.max_books == max_books,
            r.log@.len() == 0,
            r.state == if r.pending@.len() == 0 {
                RunState::Completed
            } else {
                RunState::Delivering
            },
    {
        let pending = filter_new(extracted, &catalog);
        let state = if pending.len() == 0 {
            RunState::Completed
        } else {
            RunState::Delivering
        };
        assert(books_view(pending@).take(0).len() == 0);
        UpdateRun {
            known: Ghost(books_view(catalog@)),
            catalog,
            pending,
            next: 0,
            max_books,
            state,
            log: String::new(),
        }
    }

    /// A copy of the item to deliver next, while the run is delivering.
    pub fn current(&self) -> (r: Option<Book>)
        requires
            self.wf(),
        ensures
            match r {
                Some(b) => self.state == RunState::Delivering && b@ == self.pending@[self.next as int]@,
                None => self.state != RunState::Delivering,
            },
    {
        if self.state == RunState::Delivering {
            Some(self.pending[self.next].duplicate())
        } else {
            None
        }
    }

    /// Writes the stamped log line of the item about to be delivered into the
    /// run's log, and returns a copy of that item; does nothing once the run
    /// is no longer delivering.
    pub fn log_current(&mut self) -> (r: Option<Book>)
        requires
            old(self).wf(),
        ensures
            final(self).wf(),
            final(self).catalog == old(self).catalog,
            final(self).pending == old(self).pending,
            final(self).next == old(self).next,
            final(self).state == old(self).state,
            final(self).known == old(self).known,
            final(self).max_books == old(self).max_books,
            match r {
                Some(b) => {
                    &&& old(self).state == RunState::Delivering
                    &&& b@ == old(self).pending@[old(self).next as int]@
                    &&& exists|stamp: Seq<char>|
                        stamp_shape(stamp) && final(self).log@ == old(self).log@ + stamped(
                            stamp,
                            log_line(b@),
                        )
                },
                None => old(self).state != RunState::Delivering && final(self).log
                    == old(self).log,
            },
    {
        match self.current() {
            Some(b) => {
                let line = timestamp_log(b.formatted_log().as_str());
                self.log.append(line.as_str());
                Some(b)
            },
            None => None,
        }
    }

    /// Writes a stamped line into the run's log.
    pub fn note(&mut self, text: &str)
        ensures
            final(self).catalog == old(self).catalog,
            final(self).pending == old(self).pending,
            final(self).next == old(self).next,
            final(self).state == old(self).state,
            final(self).known == old(self).known,
            final(self).max_books == old(self).max_books,
            exists|stamp: Seq<char>|
                stamp_shape(stamp) && final(self).log@ == old(self).log@ + stamped(stamp, text@),
    {
        let line = timestamp_log(text);
        self.log.append(line.as_str());
    }

    /// Records the delivery of the current item: it is appended to the
    /// catalog, which keeps its last `max_books` items. Returns the catalog to
    /// store.
    pub fn on_delivered(&mut self) -> (r: Vec<Book>)
        requires
            old(self).wf(),
            old(self).state == RunState::Delivering,
        ensures
            final(self).wf(),
            final(self).next == old(self).next + 1,
            final(self).pending == old(self).pending,
            final(self).known == old(self).known,
            final(self).max_books == old(self).max_books,
            final(self).log == old(self).log,
            books_view(final(self).catalog@) == bounded(
                books_view(old(self).catalog@).push(old(self).pending@[old(self).next as int]@),
                old(self).max_books as nat,
            ),
            books_view(r@) == books_view(final(self).catalog@),
            final(self).state == if final(self).next == final(self).pending@.len() {
                RunState::Completed
            } else {
                RunState::Delivering
            },
    {
        let ghost pv = books_view(self.pending@);
        let ghost k = self.next as int;
        let mut cat = copy_books(&self.catalog);
        let ghost before = cat@;
        cat.push(self.pending[self.next].duplicate());
        assert(books_view(cat@) =~= books_view(before).push(pv[k]));
        let limited = Book::limit(cat, self.max_books);
        proof {
            lemma_view_bounded(cat@, self.max_books as nat);
            assert(pv.take(k + 1) =~= pv.take(k).push(pv[k]));
            if k == 0 {
                assert(self.known@.push(pv[k]) =~= self.known@ + pv.take(k + 1));
            } else {
                lemma_bounded_push(self.known@ + pv.take(k), pv[k], self.max_books as nat);
                assert((self.known@ + pv.take(k)).push(pv[k]) =~= self.known@ + pv.take(k + 1));
            }
        }
        self.catalog = limited;
        let total = self.pending.len();
        assert(self.next < total);
        self.next = self.next + 1;
        if self.next == self.pending.len() {
            self.state = RunState::Completed;
        }
        copy_books(&self.catalog)
    }

    /// Ends the run after a failed delivery or save; nothing else changes.
    pub fn abort(&mut self)
        requires
            old(self).wf(),
        ensures
            final(self).wf(),
            final(self).state == RunState::Aborted,
            final(self).catalog == old(self).catalog,
            final(self).pending == old(self).pending,
            final(self).next == old(self).next,
            final(self).known == old(self).known,
            final(self).max_books == old(self).max_books,
            final(self).log == old(self).log,
    {
        self.state = RunState::Aborted;
    }
}

/// A completed run leaves the catalog holding the stored items followed by the
/// new ones, bounded, exactly as if all new items had been appended at once.
pub proof fn lemma_completed_run(run: UpdateRun)
    requires
        run.wf(),
        run.state == RunState::Completed,
    ensures
        books_view(run.catalog@) == catalog_after(
            run.known@,
            books_view(run.pending@),
            run.max_books as nat,
        ),
{
    assert(books_view(run.pending@).take(run.pending@.len() as int) =~= books_view(run.pending@));
}

} // verus!
