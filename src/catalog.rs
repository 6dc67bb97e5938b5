//! Deduplication of extracted items against the stored catalog, and the
//! catalog that a run leaves behind.
use vstd::prelude::*;
use crate::book::{bounded, books_view, same_item, Book, BookView};

verus! {

/// Whether `cat` holds an item equal to `b` under item identity.
pub open spec fn known_in(cat: Seq<BookView>, b: BookView) -> bool {
    exists|j: int| 0 <= j < cat.len() && same_item(#[trigger] cat[j], b)
}

/// The candidates that `cat` does not know, in their order.
pub open spec fn new_items(c: Seq<BookView>, cat: Seq<BookView>) -> Seq<BookView>
    decreases c.len(),
{
    if c.len() == 0 {
        Seq::empty()
    } else {
        let rest = new_items(c.drop_last(), cat);
        if known_in(cat, c.last()) {
            rest
        } else {
            rest.push(c.last())
        }
    }
}

/// The catalog after `delivered` items were appended one by one, each time
/// keeping the last `max` items; unchanged when nothing was delivered.
pub open spec fn catalog_after(known: Seq<BookView>, delivered: Seq<BookView>, max: nat) -> Seq<
    BookView,
> {
    if delivered.len() == 0 {
        known
    } else {
        bounded(known + delivered, max)
    }
}

/// Whether `books` holds an item equal to `b`.
pub fn contains_book(books: &Vec<Book>, b: &Book) -> (r: bool)
    ensures
        r == known_in(books_view(books@), b@),
{
    let mut j: usize = 0;
    while j < books.len()
        invariant
            j <= books@.len(),
            forall|k: int| 0 <= k < j ==> !same_item(#[trigger] books_view(books@)[k], b@),
        decreases books@.len() - j,
    {
        if books[j] == *b {
            assert(same_item(books_view(books@)[j as int], b@));
            return true;
        }
        j = j + 1;
    }
    false
}

/// The candidates not already in `known`, in their order; neither input is
/// changed.
pub fn filter_new(candidates: &Vec<Book>, known: &Vec<Book>) -> (r: Vec<Book>)
    ensures
        books_view(r@) == new_items(books_view(candidates@), books_view(known@)),
{
    let ghost cv = books_view(candidates@);
    let mut out: Vec<Book> = Vec::new();
    let mut i: usize = 0;
    while i < candidates.len()
        invariant
            i <= candidates@.len(),
            cv == books_view(candidates@),
            books_view(out@) == new_items(cv.take(i as int), books_view(known@)),
        decreases candidates@.len() - i,
    {
        assert(cv.take(i + 1).drop_last() =~= cv.take(i as int));
        assert(cv.take(i + 1).last() == candidates@[i as int]@);
        if !contains_book(known, &candidates[i]) {
            let ghost before = out@;
            out.push(candidates[i].duplicate());
            assert(books_view(out@) =~= books_view(before).push(candidates@[i as int]@));
        }
        i = i + 1;
    }
    assert(cv.take(candidates@.len() as int) =~= cv);
    out
}

/// A copy of `books`, item by item.
pub fn copy_books(books: &Vec<Book>) -> (r: Vec<Book>)
    ensures
        books_view(r@) == books_view(books@),
{
    let mut out: Vec<Book> = Vec::new();
    let mut i: usize = 0;
    while i < books.len()
        invariant
            i <= books@.len(),
            books_view(out@) == books_view(books@).take(i as int),
        decreases books@.len() - i,
    {
        let ghost before = out@;
        out.push(books[i].duplicate());
        assert(books_view(out@) =~= books_view(before).push(books@[i as int]@));
        assert(books_view(out@) =~= books_view(books@).take(i + 1));
        i = i + 1;
    }
    assert(books_view(books@).take(books@.len() as int) =~= books_view(books@));
    out
}

pub proof fn lemma_view_bounded(s: Seq<Book>, max: nat)
    ensures
        books_view(bounded(s, max)) == bounded(books_view(s), max),
{
    assert(books_view(bounded(s, max)) =~= bounded(books_view(s), max));
}

/// Keeping the last `max` items after each append is the same as keeping them
/// once at the end.
pub proof fn lemma_bounded_push<T>(s: Seq<T>, x: T, max: nat)
    ensures
        bounded(bounded(s, max).push(x), max) == bounded(s.push(x), max),
{
    assert(bounded(bounded(s, max).push(x), max) =~= bounded(s.push(x), max));
}

proof fn lemma_new_items_cover(c: Seq<BookView>, cat: Seq<BookView>)
    ensures
        forall|i: int|
            0 <= i < c.len() ==> known_in(cat, #[trigger] c[i]) || exists|j: int|
                0 <= j < new_items(c, cat).len() && new_items(c, cat)[j] == c[i],
    decreases c.len(),
{
    if c.len() > 0 {
        lemma_new_items_cover(c.drop_last(), cat);
        assert forall|i: int| 0 <= i < c.len() implies known_in(cat, #[trigger] c[i]) || exists|
            j: int,
        | 0 <= j < new_items(c, cat).len() && new_items(c, cat)[j] == c[i] by {
            let rest = new_items(c.drop_last(), cat);
            if i < c.len() - 1 {
                assert(c.drop_last()[i] == c[i]);
                if !known_in(cat, c[i]) {
                    let j = choose|j: int| 0 <= j < rest.len() && rest[j] == c.drop_last()[i];
                    assert(new_items(c, cat)[j] == c[i]);
                }
            } else if !known_in(cat, c[i]) {
                assert(new_items(c, cat)[rest.len() as int] == c[i]);
            }
        }
    }
}

proof fn lemma_new_items_none(c: Seq<BookView>, cat: Seq<BookView>)
    requires
        forall|i: int| 0 <= i < c.len() ==> known_in(cat, #[trigger] c[i]),
    ensures
        new_items(c, cat).len() == 0,
    decreases c.len(),
{
    if c.len() > 0 {
        assert forall|i: int| 0 <= i < c.drop_last().len() implies known_in(
            cat,
            #[trigger] c.drop_last()[i],
        ) by {
            assert(c.drop_last()[i] == c[i]);
        }
        lemma_new_items_none(c.drop_last(), cat);
        assert(known_in(cat, c[c.len() - 1]));
    }
}

proof fn lemma_new_items_fresh(c: Seq<BookView>)
    ensures
        new_items(c, Seq::empty()) == c,
    decreases c.len(),
{
    if c.len() > 0 {
        lemma_new_items_fresh(c.drop_last());
        assert(c.drop_last().push(c.last()) =~= c);
    }
}

/// Running again on the same page delivers nothing, provided the first run
/// kept what the page shows: at most `max` new items, and each page item that
/// was already known matched among the known items the bound keeps beside them.
pub proof fn lemma_rerun_delivers_nothing(extracted: Seq<BookView>, known: Seq<BookView>, max: nat)
    requires
        new_items(extracted, known).len() <= max,
        forall|i: int|
            0 <= i < extracted.len() && known_in(known, #[trigger] extracted[i]) ==> known_in(
                bounded(known, (max - new_items(extracted, known).len()) as nat),
                extracted[i],
            ),
    ensures
        new_items(extracted, catalog_after(known, new_items(extracted, known), max)).len() == 0,
{
    let fresh = new_items(extracted, known);
    let kept = bounded(known, (max - fresh.len()) as nat);
    let after = catalog_after(known, fresh, max);
    lemma_new_items_cover(extracted, known);
    if fresh.len() > 0 {
        assert(after =~= kept + fresh);
    }
    assert forall|i: int| 0 <= i < extracted.len() implies known_in(
        after,
        #[trigger] extracted[i],
    ) by {
        if known_in(known, extracted[i]) {
            if fresh.len() > 0 {
                let j = choose|j: int| 0 <= j < kept.len() && same_item(#[trigger] kept[j], extracted[i]);
                assert(after[j] == kept[j]);
            }
        } else {
            let j = choose|j: int| 0 <= j < fresh.len() && fresh[j] == extracted[i];
            assert(after[kept.len() + j] == extracted[i]);
        }
    }
    lemma_new_items_none(extracted, after);
}

/// Two items that differ only in their path are the same item: one in the
/// catalog keeps the other from being delivered.
pub proof fn lemma_path_not_identity(a: BookView, b: BookView)
    requires
        a.title == b.title,
        a.author == b.author,
        a.narrator == b.narrator,
        a.runtime == b.runtime,
        a.date == b.date,
    ensures
        same_item(a, b),
        new_items(seq![b], seq![a]).len() == 0,
{
    assert(seq![b].drop_last() =~= Seq::<BookView>::empty());
    assert(same_item(seq![a][0], b));
    assert(known_in(seq![a], b));
    assert(new_items(Seq::<BookView>::empty(), seq![a]).len() == 0);
}

/// With an empty catalog and room for every item, the run leaves the catalog
/// holding the extracted items in their order, oldest first.
pub proof fn lemma_fresh_run_order(extracted: Seq<BookView>, max: nat)
    requires
        extracted.len() <= max,
    ensures
        catalog_after(Seq::empty(), new_items(extracted, Seq::empty()), max) == extracted,
{
    lemma_new_items_fresh(extracted);
    assert(Seq::<BookView>::empty() + extracted =~= extracted);
}

/// A full catalog that takes one more item loses exactly its oldest one.
pub proof fn lemma_bound_evicts_oldest<T>(cat: Seq<T>, item: T, max: nat)
    requires
        cat.len() == max,
        max >= 1,
    ensures
        bounded(cat.push(item), max) == cat.subrange(1, max as int).push(item),
        bounded(cat.push(item), max).len() == max,
{
    assert(bounded(cat.push(item), max) =~= cat.subrange(1, max as int).push(item));
}

} // verus!
