use vstd::prelude::*;

verus! {

/// The window that page `page` of size `size` cuts out of `s`: skip
/// `page * size` elements, then take up to `size`.
pub open spec fn page_of<T>(s: Seq<T>, page: int, size: int) -> Seq<T>
    recommends
        page >= 0,
        size >= 0,
{
    let start = if page * size <= s.len() {
        page * size
    } else {
        s.len() as int
    };
    let end = if page * size + size <= s.len() {
        page * size + size
    } else {
        s.len() as int
    };
    s.subrange(start, end)
}

/// Paging law: a page never holds more than `size` records.
pub proof fn lemma_page_len<T>(s: Seq<T>, page: int, size: int)
    requires
        page >= 0,
        size >= 0,
    ensures
        page_of(s, page, size).len() <= size,
{
    assert(page * size >= 0) by (nonlinear_arith)
        requires
            page >= 0,
            size >= 0,
    ;
}

/// The concatenation of pages `0 .. k` of size `size`, in order.
pub open spec fn pages_concat<T>(s: Seq<T>, size: int, k: int) -> Seq<T>
    decreases k,
{
    if k <= 0 {
        Seq::empty()
    } else {
        pages_concat(s, size, k - 1) + page_of(s, k - 1, size)
    }
}

/// Paging law: the first `k` pages of size `size`, concatenated, are
/// exactly the first `k * size` records — no duplicates, no omissions.
pub proof fn lemma_pages_concat<T>(s: Seq<T>, size: int, k: int)
    requires
        size >= 1,
        k >= 0,
    ensures
        pages_concat(s, size, k) == s.take(
            if k * size <= s.len() {
                k * size
            } else {
                s.len() as int
            },
        ),
    decreases k,
{
    if k == 0 {
        assert(pages_concat(s, size, 0) =~= s.take(0));
    } else {
        lemma_pages_concat(s, size, k - 1);
        assert((k - 1) * size + size == k * size) by (nonlinear_arith);
        assert((k - 1) * size >= 0 && k * size >= 0) by (nonlinear_arith)
            requires
                size >= 1,
                k >= 1,
        ;
        let a = if (k - 1) * size <= s.len() {
            (k - 1) * size
        } else {
            s.len() as int
        };
        let b = if k * size <= s.len() {
            k * size
        } else {
            s.len() as int
        };
        assert(pages_concat(s, size, k) =~= s.take(b));
    }
}

/// Paging law: once `k * size` reaches the length of `s`, the pages
/// `0 .. k` reproduce `s` in full.
pub proof fn lemma_pages_cover<T>(s: Seq<T>, size: int, k: int)
    requires
        size >= 1,
        k >= 0,
        k * size >= s.len(),
    ensures
        pages_concat(s, size, k) == s,
{
    lemma_pages_concat(s, size, k);
    assert(s.take(s.len() as int) =~= s);
}

/// Cut the requested page out of the vector.
pub fn page_slice<T>(v: Vec<T>, page: usize, size: usize) -> (out: Vec<T>)
    ensures
        out@ == page_of(v@, page as int, size as int),
        out@.len() <= size,
{
    let ghost orig = v@;
    let len = v.len();
    let start = match page.checked_mul(size) {
        Some(st) => if st > len {
            len
        } else {
            st
        },
        None => len,
    };
    let take_n = if size > len - start {
        len - start
    } else {
        size
    };

    let mut v = v;
    let mut dropped: usize = 0;
    while dropped < start
        invariant
            dropped <= start,
            start <= orig.len(),
            v@ == orig.subrange(dropped as int, orig.len() as int),
        decreases start - dropped,
    {
        let ghost before = v@;
        v.remove(0);
        dropped = dropped + 1;
        proof {
            assert(before.remove(0) =~= orig.subrange(dropped as int, orig.len() as int));
        }
    }
    v.truncate(take_n);
    proof {
        assert(v@ =~= page_of(orig, page as int, size as int));
        lemma_page_len(orig, page as int, size as int);
    }
    v
}

} // verus!
