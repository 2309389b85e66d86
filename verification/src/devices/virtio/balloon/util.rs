//! Ranges of page frame numbers.

use vstd::prelude::*;

verus! {

/// Whether a range of pages, given by its first page and its length, holds a page.
pub open spec fn in_range(range: (u32, u32), page: int) -> bool {
    range.0 <= page < range.0 + range.1
}

/// Whether some range holds a page.
pub open spec fn covered(ranges: Seq<(u32, u32)>, page: int) -> bool {
    exists|i: int| 0 <= i < ranges.len() && in_range(#[trigger] ranges[i], page)
}

/// Whether ranges are not empty, in ascending order and apart from each other.
pub open spec fn ranges_apart(ranges: Seq<(u32, u32)>) -> bool {
    &&& forall|i: int| 0 <= i < ranges.len() ==> (#[trigger] ranges[i]).1 > 0
    &&& forall|i: int, j: int|
        0 <= i < j < ranges.len() ==> (#[trigger] ranges[i]).0 + ranges[i].1 < (
        #[trigger] ranges[j]).0
}

/// Whether a sequence is in ascending order.
pub open spec fn sorted(v: Seq<u32>) -> bool {
    forall|i: int, j: int| 0 <= i <= j < v.len() ==> #[trigger] v[i] <= #[trigger] v[j]
}

/// Whether one of the first `n` numbers is `page`.
pub open spec fn among(v: Seq<u32>, n: int, page: int) -> bool {
    exists|k: int| 0 <= k < n && #[trigger] v[k] == page
}

proof fn lemma_among_step(v: Seq<u32>, n: int, page: int)
    requires
        0 <= n < v.len(),
    ensures
        among(v, n + 1, page) <==> among(v, n, page) || v[n] == page,
{
    if among(v, n + 1, page) {
        let k = choose|k: int| 0 <= k < n + 1 && #[trigger] v[k] == page;
        if k < n {
            assert(among(v, n, page));
        }
    }
    if among(v, n, page) {
        let k = choose|k: int| 0 <= k < n && #[trigger] v[k] == page;
        assert(v[k] == page);
    }
}

// Puts a number into an ascending sequence.
fn insert_sorted(v: &mut Vec<u32>, x: u32)
    requires
        sorted(old(v)@),
    ensures
        sorted(final(v)@),
        final(v)@.len() == old(v)@.len() + 1,
        forall|y: u32| #[trigger] final(v)@.contains(y) <==> old(v)@.contains(y) || y == x,
{
    let ghost before = v@;
    let mut i: usize = v.len();
    while i > 0 && v[i - 1] > x
        invariant
            i <= v@.len(),
            v@ == before,
            forall|k: int| i <= k < v@.len() ==> #[trigger] v@[k] > x,
        decreases i,
    {
        i = i - 1;
    }
    v.insert(i, x);
    proof {
        assert(v@ =~= before.insert(i as int, x));
        assert forall|a: int, b: int| 0 <= a <= b < v@.len() implies #[trigger] v@[a]
            <= #[trigger] v@[b] by {
            let oa = if a < i {
                a
            } else {
                a - 1
            };
            let ob = if b < i {
                b
            } else {
                b - 1
            };
            if a != i && b != i {
                assert(before[oa] <= before[ob]);
            } else if a == i && b != i {
                assert(before[ob] > x);
            } else if a != i && b == i {
                assert(before[oa] <= before[i - 1]);
            }
        }
        assert forall|y: u32| #[trigger] v@.contains(y) <==> before.contains(y) || y == x by {
            if v@.contains(y) {
                let k = choose|k: int| 0 <= k < v@.len() && v@[k] == y;
                if k < i {
                    assert(before[k] == y);
                } else if k > i {
                    assert(before[k - 1] == y);
                }
            }
            if before.contains(y) {
                let k = choose|k: int| 0 <= k < before.len() && before[k] == y;
                if k < i {
                    assert(v@[k] == y);
                } else {
                    assert(v@[k + 1] == y);
                }
            }
            if y == x {
                assert(v@[i as int] == x);
            }
        }
    }
}

/// Joins page frame numbers to ranges of consecutive pages, without duplicates.
pub fn compact_page_frame_numbers(v: &Vec<u32>) -> (r: Vec<(u32, u32)>)
    requires
        v@.len() < u32::MAX,
    ensures
        ranges_apart(r@),
        forall|page: int| #[trigger] covered(r@, page) <==> among(v@, v@.len() as int, page),
{
    let mut ascending: Vec<u32> = Vec::new();
    let mut n: usize = 0;
    while n < v.len()
        invariant
            n <= v@.len(),
            ascending@.len() == n,
            sorted(ascending@),
            forall|y: u32| #[trigger] ascending@.contains(y) <==> v@.take(n as int).contains(y),
        decreases v.len() - n,
    {
        let ghost former = ascending@;
        let x: u32 = v[n];
        insert_sorted(&mut ascending, x);
        proof {
            let longer = v@.take(n + 1);
            assert(longer =~= v@.take(n as int).push(x));
            assert forall|y: u32| #[trigger] ascending@.contains(y) <==> longer.contains(y) by {
                if longer.contains(y) {
                    let k = choose|k: int| 0 <= k < longer.len() && longer[k] == y;
                    if k < n {
                        assert(v@.take(n as int)[k] == y);
                        assert(v@.take(n as int).contains(y));
                    }
                }
                if v@.take(n as int).contains(y) {
                    let k = choose|k: int| 0 <= k < n && v@.take(n as int)[k] == y;
                    assert(longer[k] == y);
                }
                if y == x {
                    assert(longer[n as int] == y);
                }
                assert(former.contains(y) <==> v@.take(n as int).contains(y));
            }
        }
        n = n + 1;
    }
    proof {
        assert(v@.take(n as int) =~= v@);
    }
    let mut result: Vec<(u32, u32)> = Vec::new();
    if ascending.len() == 0 {
        proof {
            assert forall|page: int| #[trigger]
                covered(result@, page) <==> among(v@, v@.len() as int, page) by {}
        }
        return result;
    }
    // The range that is being built.
    let mut first: u32 = ascending[0];
    let mut length: u32 = 1;
    let mut i: usize = 1;
    while i < ascending.len()
        invariant
            1 <= i <= ascending@.len(),
            ascending@.len() == v@.len(),
            v@.len() < u32::MAX,
            sorted(ascending@),
            1 <= length <= i,
            ascending@[i - 1] == first + length - 1,
            ranges_apart(result@),
            forall|k: int| 0 <= k < result@.len() ==> (#[trigger] result@[k]).0 + result@[k].1 < first,
            forall|page: int|
                #![trigger covered(result@, page)]
                covered(result@, page) || in_range((first, length), page) <==> among(
                    ascending@,
                    i as int,
                    page,
                ),
        decreases ascending.len() - i,
    {
        let page_frame_number: u32 = ascending[i];
        let ghost former = result@;
        let ghost range = (first, length);
        assert(ascending@[i - 1] <= ascending@[i as int]);
        if page_frame_number == ascending[i - 1] {
            // A duplicate adds nothing.
            proof {
                assert forall|page: int|
                    #![trigger covered(result@, page)]
                    covered(result@, page) || in_range(range, page) <==> among(ascending@, i + 1, page) by {
                    lemma_among_step(ascending@, i as int, page);
                }
            }
        } else if page_frame_number - first == length {
            length = length + 1;
            proof {
                assert forall|page: int|
                    #![trigger covered(result@, page)]
                    covered(result@, page) || in_range((first, length), page) <==> among(
                    ascending@,
                    i + 1,
                    page,
                ) by {
                    assert(covered(former, page) || in_range(range, page) <==> among(
                        ascending@,
                        i as int,
                        page,
                    ));
                    lemma_among_step(ascending@, i as int, page);
                }
            }
        } else {
            result.push((first, length));
            first = page_frame_number;
            length = 1;
            proof {
                assert forall|page: int|
                    #![trigger covered(result@, page)]
                    covered(result@, page) || in_range((first, length), page) <==> among(
                    ascending@,
                    i + 1,
                    page,
                ) by {
                    assert(covered(former, page) || in_range(range, page) <==> among(
                        ascending@,
                        i as int,
                        page,
                    ));
                    lemma_covered_push(former, range, page);
                    lemma_among_step(ascending@, i as int, page);
                }
                assert forall|k: int| 0 <= k < result@.len() implies (#[trigger] result@[k]).0
                    + result@[k].1 < first by {
                    if k < former.len() {
                        assert(former[k].0 + former[k].1 < range.0);
                    }
                }
            }
        }
        i = i + 1;
    }
    let ghost former = result@;
    result.push((first, length));
    proof {
        assert forall|page: int| #[trigger] covered(result@, page) <==> among(v@, v@.len() as int, page) by {
            lemma_covered_push(former, (first, length), page);
            assert(covered(former, page) || in_range((first, length), page) <==> among(
                ascending@,
                i as int,
                page,
            ));
            if covered(result@, page) {
                let k = choose|k: int| 0 <= k < i && #[trigger] ascending@[k] == page;
                assert(ascending@.contains(ascending@[k]));
                let m = choose|m: int| 0 <= m < v@.len() && v@[m] == ascending@[k];
                assert(v@[m] == page);
            }
            if among(v@, v@.len() as int, page) {
                let k = choose|k: int| 0 <= k < v@.len() && #[trigger] v@[k] == page;
                assert(v@.contains(v@[k]));
                assert(ascending@.contains(v@[k]));
                let m = choose|m: int| 0 <= m < ascending@.len() && ascending@[m] == v@[k];
                assert(ascending@[m] == page);
            }
        }
    }
    result
}

/// One more range holds its own pages and nothing else.
proof fn lemma_covered_push(ranges: Seq<(u32, u32)>, range: (u32, u32), page: int)
    ensures
        covered(ranges.push(range), page) <==> covered(ranges, page) || in_range(range, page),
{
    let longer = ranges.push(range);
    if covered(longer, page) {
        let k = choose|k: int| 0 <= k < longer.len() && in_range(#[trigger] longer[k], page);
        if k < ranges.len() {
            assert(in_range(ranges[k], page));
        }
    }
    if covered(ranges, page) {
        let k = choose|k: int| 0 <= k < ranges.len() && in_range(#[trigger] ranges[k], page);
        assert(in_range(longer[k], page));
    }
    if in_range(range, page) {
        assert(in_range(longer[ranges.len() as int], page));
    }
}

} // verus!
