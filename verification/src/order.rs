use vstd::prelude::*;

use crate::entities::Company;
use crate::entities::Feedback;

verus! {

/// A record that listings put in order: descending by a timestamp, with
/// ties broken by ascending identifier, so the order is deterministic.
pub trait Ranked: Sized {
    /// The timestamp the listing sorts by, descending.
    spec fn rank(&self) -> u64;

    /// The identifier that breaks ties, ascending.
    spec fn tie(&self) -> usize;

    /// Does `self` come strictly before `other` in listing order?
    fn comes_before(&self, other: &Self) -> (r: bool)
        ensures
            r == (self.rank() > other.rank() || (self.rank() == other.rank() && self.tie()
                < other.tie())),
    ;
}

/// Strict listing order: `a` lands strictly before `b`.
pub open spec fn precedes<T: Ranked>(a: T, b: T) -> bool {
    a.rank() > b.rank() || (a.rank() == b.rank() && a.tie() < b.tie())
}

/// Non-strict listing order.
pub open spec fn precedes_eq<T: Ranked>(a: T, b: T) -> bool {
    a.rank() > b.rank() || (a.rank() == b.rank() && a.tie() <= b.tie())
}

/// The sequence is in listing order.
pub open spec fn sorted_desc<T: Ranked>(s: Seq<T>) -> bool {
    forall|i: int, j: int| 0 <= i < j < s.len() ==> precedes_eq(#[trigger] s[i], #[trigger] s[j])
}

impl Ranked for Feedback {
    /// Feedback listings sort by creation time.
    open spec fn rank(&self) -> u64 {
        self.create_at
    }

    open spec fn tie(&self) -> usize {
        self.id
    }

    fn comes_before(&self, other: &Self) -> (r: bool) {
        self.create_at > other.create_at || (self.create_at == other.create_at && self.id
            < other.id)
    }
}

impl Ranked for Company {
    /// Company listings sort by last-update time.
    open spec fn rank(&self) -> u64 {
        self.update_at
    }

    open spec fn tie(&self) -> usize {
        self.id
    }

    fn comes_before(&self, other: &Self) -> (r: bool) {
        self.update_at > other.update_at || (self.update_at == other.update_at && self.id
            < other.id)
    }
}

/// Where a record lands when inserted into a sequence in listing order:
/// directly before the first element it strictly precedes.
pub open spec fn insert_desc<T: Ranked>(s: Seq<T>, x: T) -> Seq<T>
    decreases s.len(),
{
    if s.len() == 0 {
        seq![x]
    } else if precedes(x, s[0]) {
        seq![x] + s
    } else {
        seq![s[0]] + insert_desc(s.drop_first(), x)
    }
}

/// Insertion sort into listing order, taking the input left to right, so
/// that records the order does not separate keep their relative position.
pub open spec fn sort_desc<T: Ranked>(s: Seq<T>) -> Seq<T>
    decreases s.len(),
{
    if s.len() == 0 {
        Seq::empty()
    } else {
        insert_desc(sort_desc(s.drop_last()), s.last())
    }
}

/// The insertion point that a left-to-right scan finds — the first index
/// whose element the new record strictly precedes — is where
/// [`insert_desc`] puts the record.
proof fn lemma_insert_desc_at<T: Ranked>(s: Seq<T>, x: T, pos: int)
    requires
        0 <= pos <= s.len(),
        forall|k: int| 0 <= k < pos ==> !precedes(x, #[trigger] s[k]),
        pos < s.len() ==> precedes(x, s[pos]),
    ensures
        insert_desc(s, x) == s.insert(pos, x),
    decreases s.len(),
{
    if s.len() == 0 {
        assert(insert_desc(s, x) =~= s.insert(0, x));
    } else if pos == 0 {
        assert(insert_desc(s, x) =~= s.insert(0, x));
    } else {
        assert(!precedes(x, s[0]));
        assert forall|k: int| 0 <= k < pos - 1 implies !precedes(x, #[trigger] s.drop_first()[k]) by {
            assert(s.drop_first()[k] == s[k + 1]);
        }
        if pos - 1 < s.drop_first().len() {
            assert(s.drop_first()[pos - 1] == s[pos]);
        }
        lemma_insert_desc_at(s.drop_first(), x, pos - 1);
        assert(seq![s[0]] + s.drop_first().insert(pos - 1, x) =~= s.insert(pos, x));
    }
}

/// One insertion step: the result is one longer, holds the same records
/// with the same multiplicities, and stays in listing order.
pub proof fn lemma_insert_desc_ensures<T: Ranked>(s: Seq<T>, x: T)
    ensures
        insert_desc(s, x).len() == s.len() + 1,
        insert_desc(s, x).to_multiset() == s.to_multiset().insert(x),
        sorted_desc(s) ==> sorted_desc(insert_desc(s, x)),
    decreases s.len(),
{
    broadcast use vstd::seq_lib::group_to_multiset_ensures;

    if s.len() == 0 {
        assert(insert_desc(s, x) =~= Seq::<T>::empty().push(x));
        assert(s.to_multiset() =~= Seq::<T>::empty().to_multiset());
    } else if precedes(x, s[0]) {
        let out = seq![x] + s;
        assert(out =~= (seq![x] + s.drop_last()).push(s.last()));
        lemma_multiset_push_front(s, x);
        assert forall|i: int, j: int|
            0 <= i < j < out.len() && sorted_desc(s) implies precedes_eq(out[i], out[j]) by {
            if i == 0 {
                assert(precedes_eq(x, s[0]));
                if j > 1 {
                    assert(precedes_eq(s[0], s[j - 1]));
                }
            } else {
                assert(precedes_eq(s[i - 1], s[j - 1]));
            }
        }
    } else {
        let rest = insert_desc(s.drop_first(), x);
        let out = seq![s[0]] + rest;
        lemma_insert_desc_ensures(s.drop_first(), x);
        lemma_multiset_push_front(s, x);
        assert(s =~= seq![s[0]] + s.drop_first());
        lemma_multiset_cons(s[0], s.drop_first());
        lemma_multiset_cons(s[0], rest);
        assert(out.to_multiset() =~= s.to_multiset().insert(x));
        if sorted_desc(s) {
            assert forall|i: int, j: int| 0 <= i < j < s.drop_first().len() implies precedes_eq(
                #[trigger] s.drop_first()[i],
                #[trigger] s.drop_first()[j],
            ) by {
                assert(s.drop_first()[i] == s[i + 1]);
                assert(s.drop_first()[j] == s[j + 1]);
            }
            assert(sorted_desc(rest));
            assert forall|i: int, j: int| 0 <= i < j < out.len() implies precedes_eq(
                out[i],
                out[j],
            ) by {
                if i == 0 {
                    lemma_insert_desc_head(s.drop_first(), x, s[0]);
                    assert(precedes_eq(s[0], rest[j - 1]));
                } else {
                    assert(precedes_eq(rest[i - 1], rest[j - 1]));
                }
            }
        }
    }
}

/// Every record of an insertion result that the head of the original
/// sequence reaches in listing order is still reached after inserting a
/// record that does not precede the head.
proof fn lemma_insert_desc_head<T: Ranked>(s: Seq<T>, x: T, h: T)
    requires
        !precedes(x, h),
        forall|k: int| 0 <= k < s.len() ==> precedes_eq(h, #[trigger] s[k]),
    ensures
        forall|k: int| 0 <= k < insert_desc(s, x).len() ==> precedes_eq(
            h,
            #[trigger] insert_desc(s, x)[k],
        ),
    decreases s.len(),
{
    if s.len() == 0 {
        assert(insert_desc(s, x) =~= seq![x]);
        assert(precedes_eq(h, x));
    } else if precedes(x, s[0]) {
        let out = seq![x] + s;
        assert forall|k: int| 0 <= k < out.len() implies precedes_eq(h, #[trigger] out[k]) by {
            if k == 0 {
                assert(out[k] == x);
            } else {
                assert(out[k] == s[k - 1]);
            }
        }
    } else {
        assert forall|k: int| 0 <= k < s.drop_first().len() implies precedes_eq(
            h,
            #[trigger] s.drop_first()[k],
        ) by {
            assert(s.drop_first()[k] == s[k + 1]);
        }
        lemma_insert_desc_head(s.drop_first(), x, h);
        let out = seq![s[0]] + insert_desc(s.drop_first(), x);
        assert forall|k: int| 0 <= k < out.len() implies precedes_eq(h, #[trigger] out[k]) by {
            if k == 0 {
                assert(out[k] == s[0]);
            } else {
                assert(out[k] == insert_desc(s.drop_first(), x)[k - 1]);
            }
        }
    }
}

/// Prepending a record inserts it into the multiset.
proof fn lemma_multiset_cons<T>(h: T, s: Seq<T>)
    ensures
        (seq![h] + s).to_multiset() == s.to_multiset().insert(h),
    decreases s.len(),
{
    broadcast use vstd::seq_lib::group_to_multiset_ensures;

    if s.len() == 0 {
        assert(seq![h] + s =~= Seq::<T>::empty().push(h));
        assert(s.to_multiset() =~= Seq::<T>::empty().to_multiset());
    } else {
        assert(seq![h] + s =~= (seq![h] + s.drop_last()).push(s.last()));
        lemma_multiset_cons(h, s.drop_last());
        assert(s =~= s.drop_last().push(s.last()));
        assert((seq![h] + s).to_multiset() =~= s.to_multiset().insert(h));
    }
}

/// Helper: prepending `x` to `s` equals inserting `x` into `s`'s multiset.
proof fn lemma_multiset_push_front<T>(s: Seq<T>, x: T)
    ensures
        (seq![x] + s).to_multiset() == s.to_multiset().insert(x),
{
    lemma_multiset_cons(x, s);
}

/// Listing-sort yields a permutation of its input, in listing order.
pub proof fn lemma_sort_desc_ensures<T: Ranked>(s: Seq<T>)
    ensures
        sort_desc(s).len() == s.len(),
        sort_desc(s).to_multiset() == s.to_multiset(),
        sorted_desc(sort_desc(s)),
    decreases s.len(),
{
    broadcast use vstd::seq_lib::group_to_multiset_ensures;

    if s.len() == 0 {
    } else {
        lemma_sort_desc_ensures(s.drop_last());
        lemma_insert_desc_ensures(sort_desc(s.drop_last()), s.last());
        assert(s =~= s.drop_last().push(s.last()));
        assert(sort_desc(s).to_multiset() =~= s.to_multiset());
    }
}

/// Sort the records into listing order by insertion.
pub fn sort_ranked<T: Ranked>(v: Vec<T>) -> (out: Vec<T>)
    ensures
        out@ == sort_desc(v@),
{
    let ghost orig = v@;
    let mut v = v;
    let mut out: Vec<T> = Vec::new();
    let ghost mut done: Seq<T> = Seq::empty();
    while v.len() > 0
        invariant
            orig == done + v@,
            out@ == sort_desc(done),
        decreases v.len(),
    {
        let ghost v_before = v@;
        let x = v.remove(0);
        let ghost xs = x;

        let mut pos: usize = 0;
        while pos < out.len()
            invariant
                xs == x,
                pos <= out.len(),
                forall|k: int| 0 <= k < pos ==> !precedes(xs, #[trigger] out@[k]),
            ensures
                pos <= out.len(),
                forall|k: int| 0 <= k < pos ==> !precedes(xs, #[trigger] out@[k]),
                pos < out.len() ==> precedes(xs, out@[pos as int]),
            decreases out.len() - pos,
        {
            if x.comes_before(&out[pos]) {
                break;
            }
            pos = pos + 1;
        }

        proof {
            lemma_insert_desc_at(out@, xs, pos as int);
            assert(done.push(xs).drop_last() =~= done);
            assert(sort_desc(done.push(xs)) == insert_desc(sort_desc(done), xs));
        }
        out.insert(pos, x);
        proof {
            done = done.push(xs);
            assert(done + v@ =~= orig);
        }
    }
    proof {
        assert(done =~= orig);
    }
    out
}

} // verus!
