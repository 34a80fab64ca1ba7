//! Ordering and pagination: the merged items are sorted by recency with a
//! stable descending sort, then the skip/count window is cut out.

use vstd::prelude::*;
use crate::data::FeedItem;

verus! {

/// Descending order by publication date: no later element is more recent.
pub open spec fn sorted_desc(s: Seq<FeedItem>) -> bool {
    forall|i: int, j: int| 0 <= i < j < s.len() ==> s[i].pub_date >= s[j].pub_date
}

/// Strictly descending order by publication date.
pub open spec fn strictly_desc(s: Seq<FeedItem>) -> bool {
    forall|i: int, j: int| 0 <= i < j < s.len() ==> s[i].pub_date > s[j].pub_date
}

/// No two elements share a publication date.
pub open spec fn dates_distinct(s: Seq<FeedItem>) -> bool {
    forall|i: int, j: int| 0 <= i < j < s.len() ==> s[i].pub_date != s[j].pub_date
}

/// Some element of `s` carries the date `d`.
pub open spec fn has_date(s: Seq<FeedItem>, d: i64) -> bool {
    exists|i: int| 0 <= i < s.len() && s[i].pub_date == d
}

/// Stable descending insertion: `x` goes in front of the first element that
/// is not more recent, so on equal dates earlier input stays in front.
pub open spec fn insert_desc(s: Seq<FeedItem>, x: FeedItem) -> Seq<FeedItem>
    decreases s.len(),
{
    if s.len() == 0 {
        seq![x]
    } else if s[0].pub_date <= x.pub_date {
        seq![x] + s
    } else {
        seq![s[0]] + insert_desc(s.drop_first(), x)
    }
}

/// Stable insertion sort by publication date, most recent first: elements
/// with equal dates keep their input order.
pub open spec fn sort_desc(s: Seq<FeedItem>) -> Seq<FeedItem>
    decreases s.len(),
{
    if s.len() == 0 {
        Seq::empty()
    } else {
        insert_desc(sort_desc(s.drop_first()), s[0])
    }
}

/// The pagination window over an already ordered sequence: keep the first
/// `count + skip` elements (all of them where fewer exist), then drop the
/// first `skip` of those. Dropping more than is available yields an empty
/// page, never an error.
pub open spec fn page(s: Seq<FeedItem>, count: int, skip: int) -> Seq<FeedItem> {
    let keep = if count + skip <= s.len() {
        count + skip
    } else {
        s.len() as int
    };
    if skip >= keep {
        Seq::empty()
    } else {
        s.subrange(skip, keep)
    }
}

proof fn lemma_insert_desc_len(s: Seq<FeedItem>, x: FeedItem)
    ensures
        insert_desc(s, x).len() == s.len() + 1,
    decreases s.len(),
{
    if s.len() > 0 && s[0].pub_date > x.pub_date {
        lemma_insert_desc_len(s.drop_first(), x);
    }
}

/// Inserting at the first position whose element is not more recent than
/// `x` is exactly what `insert_desc` does.
proof fn lemma_insert_desc_at(s: Seq<FeedItem>, x: FeedItem, i: int)
    requires
        0 <= i <= s.len(),
        forall|j: int| 0 <= j < i ==> s[j].pub_date > x.pub_date,
        i < s.len() ==> s[i].pub_date <= x.pub_date,
    ensures
        insert_desc(s, x) == s.insert(i, x),
    decreases i,
{
    if i == 0 {
        if s.len() == 0 {
            assert(insert_desc(s, x) =~= s.insert(0, x));
        } else {
            assert(s[0].pub_date <= x.pub_date);
            assert(insert_desc(s, x) =~= s.insert(0, x));
        }
    } else {
        assert(s[0].pub_date > x.pub_date);
        let rest = s.drop_first();
        assert forall|j: int| 0 <= j < i - 1 implies rest[j].pub_date > x.pub_date by {
            assert(rest[j] == s[j + 1]);
        }
        lemma_insert_desc_at(rest, x, i - 1);
        assert(seq![s[0]] + rest.insert(i - 1, x) =~= s.insert(i, x));
    }
}

/// The position at which `insert_desc` puts `x`: everything before it is
/// more recent than `x`, and the element at it (where one exists) is not.
proof fn lemma_insert_desc_pos(s: Seq<FeedItem>, x: FeedItem) -> (i: int)
    ensures
        0 <= i <= s.len(),
        insert_desc(s, x) == s.insert(i, x),
        forall|j: int| 0 <= j < i ==> s[j].pub_date > x.pub_date,
        i < s.len() ==> s[i].pub_date <= x.pub_date,
    decreases s.len(),
{
    if s.len() == 0 {
        assert(insert_desc(s, x) =~= s.insert(0, x));
        0
    } else if s[0].pub_date <= x.pub_date {
        assert(insert_desc(s, x) =~= s.insert(0, x));
        0
    } else {
        let rest = s.drop_first();
        let i0 = lemma_insert_desc_pos(rest, x);
        assert(seq![s[0]] + rest.insert(i0, x) =~= s.insert(i0 + 1, x));
        assert forall|j: int| 0 <= j < i0 + 1 implies s[j].pub_date > x.pub_date by {
            if j > 0 {
                assert(s[j] == rest[j - 1]);
            }
        }
        if i0 + 1 < s.len() {
            assert(s[i0 + 1] == rest[i0]);
        }
        i0 + 1
    }
}

/// A helper that names a witness: the date at index `m` is present.
proof fn lemma_has_date_witness(s: Seq<FeedItem>, m: int)
    requires
        0 <= m < s.len(),
    ensures
        has_date(s, s[m].pub_date),
{
    assert(0 <= m < s.len() && s[m].pub_date == s[m].pub_date);
}

/// Inserting into a descending sequence keeps it descending, and the dates
/// present afterwards are exactly those present before plus `x`'s.
proof fn lemma_insert_desc_props(s: Seq<FeedItem>, x: FeedItem)
    requires
        sorted_desc(s),
    ensures
        insert_desc(s, x).len() == s.len() + 1,
        sorted_desc(insert_desc(s, x)),
        forall|d: i64| has_date(insert_desc(s, x), d) <==> has_date(s, d) || d == x.pub_date,
        dates_distinct(s) && !has_date(s, x.pub_date) ==> dates_distinct(insert_desc(s, x)),
{
    lemma_insert_desc_len(s, x);
    let i = lemma_insert_desc_pos(s, x);
    let r = insert_desc(s, x);
    s.insert_ensures(i, x);
    assert forall|k: int| 0 <= k < r.len() implies r[k] == (if k < i {
        s[k]
    } else if k == i {
        x
    } else {
        s[k - 1]
    }) by {
        if k > i {
            assert(s.insert(i, x)[(k - 1) + 1] == s[k - 1]);
        }
    }
    assert forall|p: int, q: int| 0 <= p < q < r.len() implies r[p].pub_date >= r[q].pub_date by {
        if p < i && q == i {
            assert(s[p].pub_date > x.pub_date);
        } else if p == i && q > i {
            assert(i < s.len());
            assert(s[i].pub_date <= x.pub_date);
            if q - 1 > i {
                assert(s[i].pub_date >= s[q - 1].pub_date);
            }
        }
    }
    assert forall|d: i64| has_date(r, d) <==> has_date(s, d) || d == x.pub_date by {
        if has_date(r, d) {
            let k = choose|k: int| 0 <= k < r.len() && r[k].pub_date == d;
            if k < i {
                lemma_has_date_witness(s, k);
            } else if k > i {
                lemma_has_date_witness(s, k - 1);
            }
        }
        if has_date(s, d) {
            let m = choose|m: int| 0 <= m < s.len() && s[m].pub_date == d;
            if m < i {
                lemma_has_date_witness(r, m);
            } else {
                lemma_has_date_witness(r, m + 1);
            }
        }
        if d == x.pub_date {
            lemma_has_date_witness(r, i);
        }
    }
    if dates_distinct(s) && !has_date(s, x.pub_date) {
        assert forall|p: int, q: int| 0 <= p < q < r.len() implies r[p].pub_date
            != r[q].pub_date by {
            if p == i && q > i {
                if s[q - 1].pub_date == x.pub_date {
                    lemma_has_date_witness(s, q - 1);
                }
            } else if p < i && q == i {
                if s[p].pub_date == x.pub_date {
                    lemma_has_date_witness(s, p);
                }
            }
        }
    }
}

/// The sorted sequence is descending, has the input's length, and carries
/// exactly the input's dates; distinct input dates stay distinct.
pub proof fn lemma_sort_desc_props(s: Seq<FeedItem>)
    ensures
        sort_desc(s).len() == s.len(),
        sorted_desc(sort_desc(s)),
        forall|d: i64| has_date(sort_desc(s), d) <==> has_date(s, d),
        dates_distinct(s) ==> dates_distinct(sort_desc(s)),
    decreases s.len(),
{
    if s.len() == 0 {
    } else {
        let rest = s.drop_first();
        assert(forall|k: int| 0 <= k < rest.len() ==> rest[k] == s[k + 1]);
        lemma_sort_desc_props(rest);
        let sr = sort_desc(rest);
        lemma_insert_desc_props(sr, s[0]);
        let r = insert_desc(sr, s[0]);
        assert(r == sort_desc(s));
        assert forall|d: i64| has_date(s, d) <==> has_date(rest, d) || d == s[0].pub_date by {
            if has_date(s, d) {
                let m = choose|m: int| 0 <= m < s.len() && s[m].pub_date == d;
                if m > 0 {
                    lemma_has_date_witness(rest, m - 1);
                }
            }
            if has_date(rest, d) {
                let m = choose|m: int| 0 <= m < rest.len() && rest[m].pub_date == d;
                lemma_has_date_witness(s, m + 1);
            }
            if d == s[0].pub_date {
                lemma_has_date_witness(s, 0);
            }
        }
        if dates_distinct(s) {
            assert forall|p: int, q: int| 0 <= p < q < rest.len() implies rest[p].pub_date
                != rest[q].pub_date by {
                assert(rest[p] == s[p + 1] && rest[q] == s[q + 1]);
            }
            assert(!has_date(rest, s[0].pub_date)) by {
                if has_date(rest, s[0].pub_date) {
                    let m = choose|m: int|
                        0 <= m < rest.len() && rest[m].pub_date == s[0].pub_date;
                    assert(s[m + 1].pub_date == s[0].pub_date);
                }
            }
            assert(!has_date(sr, s[0].pub_date));
        }
    }
}

/// For items whose publication dates are pairwise distinct, every page cut
/// from the sorted sequence is strictly descending by date.
pub proof fn lemma_page_strictly_descending(s: Seq<FeedItem>, count: int, skip: int)
    requires
        dates_distinct(s),
        count >= 0,
        skip >= 0,
    ensures
        strictly_desc(page(sort_desc(s), count, skip)),
{
    lemma_sort_desc_props(s);
    let t = sort_desc(s);
    assert(strictly_desc(t));
    let p = page(t, count, skip);
    assert forall|i: int, j: int| 0 <= i < j < p.len() implies p[i].pub_date > p[j].pub_date by {
        assert(p[i] == t[skip + i] && p[j] == t[skip + j]);
    }
}

/// Finds where `insert_desc` puts an item of date `date`: the index of the
/// first element that is not more recent.
fn find_pos(items: &Vec<FeedItem>, date: i64) -> (i: usize)
    ensures
        0 <= i <= items@.len(),
        forall|j: int| 0 <= j < i ==> items@[j].pub_date > date,
        i < items@.len() ==> items@[i as int].pub_date <= date,
{
    let mut i: usize = 0;
    while i < items.len()
        invariant
            i <= items@.len(),
            forall|j: int| 0 <= j < i ==> items@[j].pub_date > date,
        decreases items@.len() - i,
    {
        if items[i].pub_date <= date {
            return i;
        }
        i = i + 1;
    }
    i
}

fn insert_by_date(items: &mut Vec<FeedItem>, x: FeedItem)
    ensures
        final(items)@ == insert_desc(old(items)@, x),
{
    let i = find_pos(items, x.pub_date);
    proof {
        lemma_insert_desc_at(items@, x, i as int);
    }
    items.insert(i, x);
}

/// Sorts the items by publication date, most recent first, with the stable
/// insertion order that `sort_desc` describes.
pub fn sort_by_date_desc(items: Vec<FeedItem>) -> (r: Vec<FeedItem>)
    ensures
        r@ == sort_desc(items@),
{
    let ghost orig = items@;
    let mut rest = items;
    let mut out: Vec<FeedItem> = Vec::new();
    proof {
        assert(rest@ =~= orig.subrange(0, rest@.len() as int));
        assert(orig.subrange(orig.len() as int, orig.len() as int)
            =~= Seq::<FeedItem>::empty());
    }
    while rest.len() > 0
        invariant
            rest@.len() <= orig.len(),
            rest@ == orig.subrange(0, rest@.len() as int),
            out@ == sort_desc(orig.subrange(rest@.len() as int, orig.len() as int)),
        decreases rest@.len(),
    {
        let ghost k = rest@.len() as int;
        let ghost n = orig.len() as int;
        let x = rest.pop().unwrap();
        proof {
            assert(rest@ =~= orig.subrange(0, k - 1));
            assert(x == orig[k - 1]);
        }
        insert_by_date(&mut out, x);
        proof {
            let sub = orig.subrange(k - 1, n);
            assert(sub[0] == orig[k - 1]);
            assert(sub.drop_first() =~= orig.subrange(k, n));
            assert(sort_desc(sub) == insert_desc(sort_desc(sub.drop_first()), sub[0]));
        }
    }
    proof {
        assert(orig.subrange(0, orig.len() as int) =~= orig);
    }
    out
}

/// Cuts the skip/count window out of an ordered sequence: the first
/// `count + skip` items are kept and the first `skip` of those dropped.
/// The sum is taken in 64-bit arithmetic, so it cannot overflow.
pub fn paginate(items: Vec<FeedItem>, count: u32, skip: u32) -> (r: Vec<FeedItem>)
    ensures
        r@ == page(items@, count as int, skip as int),
{
    let mut items = items;
    let ghost orig = items@;
    let total: u64 = count as u64 + skip as u64;
    let len = items.len();
    let keep: usize = if total <= len as u64 {
        total as usize
    } else {
        len
    };
    items.truncate(keep);
    if skip as u64 >= keep as u64 {
        proof {
            assert(page(orig, count as int, skip as int) =~= Seq::<FeedItem>::empty());
        }
        Vec::new()
    } else {
        let r = items.split_off(skip as usize);
        proof {
            assert(orig.subrange(0, keep as int).subrange(skip as int, keep as int)
                =~= orig.subrange(skip as int, keep as int));
        }
        r
    }
}

} // verus!
