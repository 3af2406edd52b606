//! Which pages a request means: a selector, and its resolution against the
//! number of pages that the document has.

use vstd::prelude::*;

verus! {

/// Specifies which pages to render
#[derive(Debug, Clone)]
pub enum Pages {
    /// Every page of the document.
    All,
    /// The pages from the first bound to the second, both included.
    Range(u32, u32),
    /// The listed pages, in the order of the list.
    Specific(Vec<u32>),
}

/// Pages are numbered from one; a document of `page_count` pages has the
/// pages `1` to `page_count`.
pub open spec fn in_document(page: u32, page_count: u32) -> bool {
    1 <= page <= page_count
}

/// The test that keeps the pages of a document of `page_count` pages.
pub open spec fn within(page_count: u32) -> spec_fn(u32) -> bool {
    |page: u32| in_document(page, page_count)
}

/// The numbers from `first` to `last`, both included, in ascending order;
/// empty where `first` is above `last`.
pub open spec fn consecutive(first: int, last: int) -> Seq<u32> {
    if first <= last {
        Seq::new((last - first + 1) as nat, |i: int| (first + i) as u32)
    } else {
        Seq::empty()
    }
}

/// The larger of a bound and the first page.
pub open spec fn clip_low(low: u32) -> int {
    if low < 1 {
        1
    } else {
        low as int
    }
}

/// The smaller of a bound and the last page.
pub open spec fn clip_high(high: u32, page_count: u32) -> int {
    if high > page_count {
        page_count as int
    } else {
        high as int
    }
}

impl Pages {
    /// The pages that the selector means in a document of `page_count`
    /// pages, in the order in which they are to be produced.
    pub open spec fn resolved(&self, page_count: u32) -> Seq<u32> {
        match self {
            Pages::All => consecutive(1, page_count as int),
            Pages::Range(low, high) => consecutive(clip_low(*low), clip_high(*high, page_count)),
            Pages::Specific(list) => list@.filter(within(page_count)),
        }
    }

    /// Resolves the selector against a document of `page_count` pages.
    ///
    /// A range is clipped to the document and a list loses the entries that
    /// lie outside it; neither is an error, and the result may be empty. A
    /// list keeps its order and its repetitions.
    pub fn resolve(&self, page_count: u32) -> (out: Vec<u32>)
        ensures
            out@ == self.resolved(page_count),
            forall|i: int| 0 <= i < out@.len() ==> in_document(#[trigger] out@[i], page_count),
    {
        let out = match self {
            Pages::All => ascending(1, page_count),
            Pages::Range(low, high) => {
                let first: u32 = if *low < 1 {
                    1
                } else {
                    *low
                };
                let last: u32 = if *high > page_count {
                    page_count
                } else {
                    *high
                };
                ascending(first, last)
            },
            Pages::Specific(list) => keep_within(list, page_count),
        };
        proof {
            lemma_resolved_in_document(*self, page_count);
        }
        out
    }
}

/// The pages from `first` to `last`.
fn ascending(first: u32, last: u32) -> (out: Vec<u32>)
    requires
        1 <= first,
    ensures
        out@ == consecutive(first as int, last as int),
{
    let mut out: Vec<u32> = Vec::new();
    if first > last {
        return out;
    }
    let count: u32 = last - first + 1;
    let mut i: u32 = 0;
    while i < count
        invariant
            1 <= first <= last,
            count == last - first + 1,
            i <= count,
            out@ == Seq::new(i as nat, |k: int| (first + k) as u32),
        decreases count - i,
    {
        out.push(first + i);
        i += 1;
        assert(out@ =~= Seq::new(i as nat, |k: int| (first + k) as u32));
    }
    out
}

/// The entries of `list` that are pages of the document.
fn keep_within(list: &Vec<u32>, page_count: u32) -> (out: Vec<u32>)
    ensures
        out@ == list@.filter(within(page_count)),
{
    let mut out: Vec<u32> = Vec::new();
    let mut i: usize = 0;
    proof {
        reveal(Seq::filter);
        assert(list@.take(0) =~= Seq::<u32>::empty());
    }
    while i < list.len()
        invariant
            i <= list@.len(),
            out@ == list@.take(i as int).filter(within(page_count)),
        decreases list@.len() - i,
    {
        let page: u32 = list[i];
        proof {
            reveal(Seq::filter);
            assert(list@.take(i + 1).drop_last() =~= list@.take(i as int));
        }
        if 1 <= page && page <= page_count {
            out.push(page);
        }
        i += 1;
    }
    proof {
        assert(list@.take(i as int) =~= list@);
    }
    out
}

/// Whatever the selector, no resolved page lies outside the document: page
/// zero, in particular, is never produced.
pub proof fn lemma_resolved_in_document(pages: Pages, page_count: u32)
    ensures
        forall|i: int|
            0 <= i < pages.resolved(page_count).len() ==> in_document(
                #[trigger] pages.resolved(page_count)[i],
                page_count,
            ),
{
    match pages {
        Pages::All => {},
        Pages::Range(low, high) => {},
        Pages::Specific(list) => {
            broadcast use Seq::lemma_filter_pred;

        },
    }
}

/// A range that lies within the document resolves to itself: every page
/// from `low` to `high`, in ascending order, and nothing else.
pub proof fn lemma_range_within_document(low: u32, high: u32, page_count: u32)
    requires
        1 <= low <= high <= page_count,
    ensures
        Pages::Range(low, high).resolved(page_count).len() == high - low + 1,
        forall|i: int|
            0 <= i <= high - low ==> #[trigger] Pages::Range(low, high).resolved(page_count)[i]
                == low + i,
{
}

/// A range resolves to its intersection with the document, in ascending
/// order: a page is produced exactly if it lies between the bounds and in
/// the document, and each page is produced once.
pub proof fn lemma_range_is_clipped(low: u32, high: u32, page_count: u32)
    ensures
        forall|page: u32| #[trigger]
            Pages::Range(low, high).resolved(page_count).contains(page) <==> low <= page <= high
                && in_document(page, page_count),
        forall|i: int, j: int|
            0 <= i < j < Pages::Range(low, high).resolved(page_count).len() ==> Pages::Range(
                low,
                high,
            ).resolved(page_count)[i] < Pages::Range(low, high).resolved(page_count)[j],
{
    let out = Pages::Range(low, high).resolved(page_count);
    let first = clip_low(low);
    assert forall|page: u32|
        low <= page <= high && in_document(page, page_count) implies out.contains(page) by {
        assert(out[page - first] == page);
    }
}

/// A range that has no page in common with the document resolves to
/// nothing.
pub proof fn lemma_range_outside_is_empty(low: u32, high: u32, page_count: u32)
    requires
        high < 1 || low > page_count || low > high,
    ensures
        Pages::Range(low, high).resolved(page_count) == Seq::<u32>::empty(),
{
}

/// All pages are the pages from one to the page count, in ascending order.
pub proof fn lemma_all_pages(page_count: u32)
    ensures
        Pages::All.resolved(page_count).len() == page_count,
        forall|i: int|
            0 <= i < page_count ==> #[trigger] Pages::All.resolved(page_count)[i] == i + 1,
{
}

/// A list whose entries all lie in the document resolves to itself, with
/// its order and its repetitions.
pub proof fn lemma_list_within_document(list: Vec<u32>, page_count: u32)
    requires
        forall|i: int| 0 <= i < list@.len() ==> in_document(#[trigger] list@[i], page_count),
    ensures
        Pages::Specific(list).resolved(page_count) == list@,
{
    lemma_filter_keeps_all(list@, page_count);
}

/// Filtering keeps a sequence whose entries all pass.
proof fn lemma_filter_keeps_all(list: Seq<u32>, page_count: u32)
    requires
        forall|i: int| 0 <= i < list.len() ==> in_document(#[trigger] list[i], page_count),
    ensures
        list.filter(within(page_count)) == list,
    decreases list.len(),
{
    reveal(Seq::filter);
    if list.len() > 0 {
        lemma_filter_keeps_all(list.drop_last(), page_count);
        assert(list.drop_last().push(list.last()) =~= list);
    }
}

/// A list resolves to its entries that lie in the document, and to nothing
/// that the list does not hold.
pub proof fn lemma_list_is_filtered(list: Vec<u32>, page_count: u32)
    ensures
        forall|page: u32| #[trigger]
            Pages::Specific(list).resolved(page_count).contains(page) <==> list@.contains(page)
                && in_document(page, page_count),
{
    let kept = list@.filter(within(page_count));
    assert forall|page: u32| #[trigger] kept.contains(page) <==> list@.contains(page)
        && in_document(page, page_count) by {
        if kept.contains(page) {
            list@.lemma_filter_contains_rev(within(page_count), page);
            let i = choose|i: int| 0 <= i < kept.len() && kept[i] == page;
            list@.lemma_filter_pred(within(page_count), i);
        }
        if list@.contains(page) && in_document(page, page_count) {
            let i = choose|i: int| 0 <= i < list@.len() && list@[i] == page;
            list@.lemma_filter_contains(within(page_count), i);
        }
    }
}

} // verus!
