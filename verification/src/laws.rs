//! Laws of the paginated scan: what a scan keeps, that it keeps the stored
//! order, and that resuming after the last identifier of a page yields
//! exactly the remainder, with no gap and no duplicate.

use vstd::prelude::*;

use crate::asset::Balance;
use crate::contract::{lemma_listing_add, listing, passes_filter, swap_error, take_up_to};
use crate::error::ContractError;
use crate::expiration::BlockInfo;
use crate::state::{
    contains_key, index_of_key, is_first_free_from, keys_sorted, lemma_key_index_unique, lookup,
    OTCInfo,
};

verus! {

/// A payer cannot take their own offer: once the payment kind matches the
/// ask kind, a swap by the offer's seller fails with `SelfTrade`, whatever
/// the payment holds.
pub proof fn lemma_self_trade_rejected(
    s: Seq<(u32, OTCInfo)>,
    block: BlockInfo,
    payer: Seq<char>,
    otc_id: u32,
    balance: Balance,
    native: bool,
)
    requires
        contains_key(s, otc_id),
        lookup(s, otc_id).ask_native == native,
        lookup(s, otc_id).seller@ == payer,
    ensures
        swap_error(s, block, payer, otc_id, balance, native) == Some(ContractError::SelfTrade),
{
}

/// Identifier allocation is deterministic: only one identifier is first
/// free in the probe order from a given start.
pub proof fn lemma_first_free_unique(s: Seq<(u32, OTCInfo)>, start: u32, r1: u32, r2: u32)
    requires
        is_first_free_from(s, start, r1),
        is_first_free_from(s, start, r2),
    ensures
        r1 == r2,
{
    if r1 != r2 {
        if r1 >= start && r2 >= start {
            if r1 < r2 {
                assert(contains_key(s, r1));
            } else {
                assert(contains_key(s, r2));
            }
        } else if r1 >= start && r2 < start {
            assert(contains_key(s, r1));
        } else if r2 >= start && r1 < start {
            assert(contains_key(s, r2));
        } else {
            if r1 < r2 {
                assert(contains_key(s, r1));
            } else {
                assert(contains_key(s, r2));
            }
        }
    }
}

/// A sorted entry sequence is pinned down by which identifiers it holds
/// and what each of them maps to.
pub proof fn lemma_sorted_eq(s1: Seq<(u32, OTCInfo)>, s2: Seq<(u32, OTCInfo)>)
    requires
        keys_sorted(s1),
        keys_sorted(s2),
        forall|k: u32| #[trigger] contains_key(s1, k) == contains_key(s2, k),
        forall|k: u32|
            #[trigger] contains_key(s1, k) ==> lookup(s1, k) == lookup(s2, k),
    ensures
        s1 == s2,
    decreases s1.len(),
{
    if s1.len() == 0 {
        if s2.len() > 0 {
            assert(contains_key(s2, s2[0].0));
            assert(contains_key(s1, s2[0].0));
            assert(false);
        }
        assert(s1 =~= s2);
    } else {
        assert(contains_key(s1, s1[0].0));
        assert(contains_key(s2, s1[0].0));
        assert(s2.len() > 0);
        let k1 = s1[0].0;
        let k2 = s2[0].0;
        // the heads carry each other's minimum, so they carry the same key
        let i2 = index_of_key(s2, k1);
        assert(0 <= i2 < s2.len() && s2[i2].0 == k1);
        assert(k2 <= k1) by {
            if i2 > 0 {
                assert(s2[0].0 < s2[i2].0);
            }
        }
        assert(contains_key(s2, k2));
        assert(contains_key(s1, k2));
        let i1 = index_of_key(s1, k2);
        assert(0 <= i1 < s1.len() && s1[i1].0 == k2);
        assert(k1 <= k2) by {
            if i1 > 0 {
                assert(s1[0].0 < s1[i1].0);
            }
        }
        assert(k1 == k2);
        lemma_key_index_unique(s1, 0, index_of_key(s1, k1));
        lemma_key_index_unique(s2, 0, index_of_key(s2, k1));
        assert(lookup(s1, k1) == s1[0].1);
        assert(lookup(s2, k1) == s2[0].1);
        assert(s1[0] == (s1[0].0, s1[0].1));
        assert(s2[0] == (s2[0].0, s2[0].1));
        assert(s1[0] == s2[0]);

        let t1 = s1.skip(1);
        let t2 = s2.skip(1);
        assert(keys_sorted(t1)) by {
            assert forall|i: int, j: int| 0 <= i < j < t1.len() implies (#[trigger] t1[i]).0 < (
            #[trigger] t1[j]).0 by {
                assert(t1[i] == s1[i + 1] && t1[j] == s1[j + 1]);
            }
        }
        assert(keys_sorted(t2)) by {
            assert forall|i: int, j: int| 0 <= i < j < t2.len() implies (#[trigger] t2[i]).0 < (
            #[trigger] t2[j]).0 by {
                assert(t2[i] == s2[i + 1] && t2[j] == s2[j + 1]);
            }
        }
        // an identifier lies in a tail exactly when it lies in the whole
        // sequence and is not the head's
        assert forall|k: u32| #[trigger] contains_key(t1, k) == (contains_key(s1, k) && k
            != k1) by {
            if contains_key(t1, k) {
                let j = index_of_key(t1, k);
                assert(t1[j] == s1[j + 1]);
                assert(contains_key(s1, k));
                if k == k1 {
                    lemma_key_index_unique(s1, j + 1, 0);
                    assert(false);
                }
            }
            if contains_key(s1, k) && k != k1 {
                let i = index_of_key(s1, k);
                assert(s1[i].0 == k);
                assert(i != 0);
                assert(t1[i - 1].0 == k);
                assert(contains_key(t1, k));
            }
        }
        assert forall|k: u32| #[trigger] contains_key(t2, k) == (contains_key(s2, k) && k
            != k1) by {
            if contains_key(t2, k) {
                let j = index_of_key(t2, k);
                assert(t2[j] == s2[j + 1]);
                assert(contains_key(s2, k));
                if k == k1 {
                    lemma_key_index_unique(s2, j + 1, 0);
                    assert(false);
                }
            }
            if contains_key(s2, k) && k != k1 {
                let i = index_of_key(s2, k);
                assert(s2[i].0 == k);
                assert(i != 0);
                assert(t2[i - 1].0 == k);
                assert(contains_key(t2, k));
            }
        }
        assert forall|k: u32| #[trigger] contains_key(t1, k) implies lookup(t1, k) == lookup(
            t2,
            k,
        ) by {
            let j1 = index_of_key(t1, k);
            assert(t1[j1] == s1[j1 + 1]);
            lemma_key_index_unique(s1, j1 + 1, index_of_key(s1, k));
            assert(lookup(s1, k) == t1[j1].1);
            assert(contains_key(t2, k));
            let j2 = index_of_key(t2, k);
            assert(t2[j2] == s2[j2 + 1]);
            lemma_key_index_unique(s2, j2 + 1, index_of_key(s2, k));
            assert(lookup(s2, k) == t2[j2].1);
            assert(contains_key(s1, k));
        }
        lemma_sorted_eq(t1, t2);
        assert(s1 =~= s2) by {
            assert(s1.len() == s2.len());
            assert forall|i: int| 0 <= i < s1.len() implies s1[i] == s2[i] by {
                if i > 0 {
                    assert(s1[i] == t1[i - 1] && s2[i] == t2[i - 1]);
                }
            }
        }
    }
}

/// What an inclusive scan past `y` holds: exactly the stored entries whose
/// identifier lies above `y`, mapped as the store maps them.
pub proof fn lemma_scan_projection(s: Seq<(u32, OTCInfo)>, block: BlockInfo, y: u32)
    requires
        keys_sorted(s),
    ensures
        forall|k: u32|
            #[trigger] contains_key(listing(s, block, true, Some(y)), k) == (k > y
                && contains_key(s, k)),
        forall|k: u32|
            k > y && #[trigger] contains_key(s, k) ==> lookup(listing(s, block, true, Some(y)), k)
                == lookup(s, k),
{
    let f = listing(s, block, true, Some(y));
    lemma_listing_membership(s, block, true, Some(y));
    lemma_listing_sorted(s, block, true, Some(y));
    assert forall|k: u32| contains_key(f, k) implies (k > y && contains_key(s, k)) by {
        let j = index_of_key(f, k);
        assert(0 <= j < f.len() && f[j].0 == k);
        assert(passes_filter(f[j], block, true, Some(y)));
        assert(s.contains(f[j]));
        let i = choose|i: int| 0 <= i < s.len() && s[i] == f[j];
        assert(s[i].0 == k);
    }
    assert forall|k: u32| k > y && contains_key(s, k) implies contains_key(f, k) by {
        let i = index_of_key(s, k);
        assert(0 <= i < s.len() && s[i].0 == k);
        assert(passes_filter(s[i], block, true, Some(y)));
        assert(f.contains(s[i]));
        let j = choose|j: int| 0 <= j < f.len() && f[j] == s[i];
        assert(f[j].0 == k);
    }
    assert forall|k: u32| k > y && contains_key(s, k) implies lookup(f, k) == lookup(s, k) by {
        assert(contains_key(f, k));
        let j = index_of_key(f, k);
        assert(0 <= j < f.len() && f[j].0 == k);
        assert(s.contains(f[j]));
        let i = choose|i: int| 0 <= i < s.len() && s[i] == f[j];
        assert(s[i].0 == k);
        lemma_key_index_unique(s, i, index_of_key(s, k));
        assert(lookup(s, k) == f[j].1);
    }
}

/// Pagination is stable under changes below the resume point: two sorted
/// stores that agree on every identifier above `y` — interleaved creates
/// and removals touched nothing above it — agree on any scan that resumes
/// after `y`.
pub proof fn lemma_pagination_frame_map(
    s1: Seq<(u32, OTCInfo)>,
    s2: Seq<(u32, OTCInfo)>,
    block: BlockInfo,
    include_expired: bool,
    y: u32,
)
    requires
        keys_sorted(s1),
        keys_sorted(s2),
        forall|k: u32| k > y ==> #[trigger] contains_key(s1, k) == contains_key(s2, k),
        forall|k: u32|
            k > y && #[trigger] contains_key(s1, k) ==> lookup(s1, k) == lookup(s2, k),
    ensures
        listing(s1, block, include_expired, Some(y)) == listing(
            s2,
            block,
            include_expired,
            Some(y),
        ),
{
    lemma_scan_projection(s1, block, y);
    lemma_scan_projection(s2, block, y);
    let f1 = listing(s1, block, true, Some(y));
    let f2 = listing(s2, block, true, Some(y));
    lemma_listing_sorted(s1, block, true, Some(y));
    lemma_listing_sorted(s2, block, true, Some(y));
    assert forall|k: u32| #[trigger] contains_key(f1, k) == contains_key(f2, k) by {
        assert(contains_key(f1, k) == (k > y && contains_key(s1, k)));
        assert(contains_key(f2, k) == (k > y && contains_key(s2, k)));
    }
    assert forall|k: u32| #[trigger] contains_key(f1, k) implies lookup(f1, k) == lookup(
        f2,
        k,
    ) by {
        assert(k > y && contains_key(s1, k));
    }
    lemma_sorted_eq(f1, f2);
    lemma_pagination_frame(s1, s2, block, include_expired, y);
}

/// What a scan holds: every returned entry passed the filter and comes from
/// the store, and every stored entry that passes the filter is returned.
pub proof fn lemma_listing_membership(
    s: Seq<(u32, OTCInfo)>,
    block: BlockInfo,
    include_expired: bool,
    start_after: Option<u32>,
)
    ensures
        forall|j: int|
            0 <= j < listing(s, block, include_expired, start_after).len() ==> passes_filter(
                #[trigger] listing(s, block, include_expired, start_after)[j],
                block,
                include_expired,
                start_after,
            ),
        forall|j: int|
            0 <= j < listing(s, block, include_expired, start_after).len() ==> s.contains(
                #[trigger] listing(s, block, include_expired, start_after)[j],
            ),
        forall|i: int|
            0 <= i < s.len() && passes_filter(#[trigger] s[i], block, include_expired, start_after)
                ==> listing(s, block, include_expired, start_after).contains(s[i]),
    decreases s.len(),
{
    reveal(Seq::filter);
    let out = listing(s, block, include_expired, start_after);
    if s.len() > 0 {
        let d = s.drop_last();
        lemma_listing_membership(d, block, include_expired, start_after);
        let sub = listing(d, block, include_expired, start_after);
        assert forall|j: int| 0 <= j < out.len() implies passes_filter(
            out[j],
            block,
            include_expired,
            start_after,
        ) && s.contains(out[j]) by {
            if j < sub.len() {
                assert(out[j] == sub[j]);
                let i = choose|i: int| 0 <= i < d.len() && d[i] == sub[j];
                assert(s[i] == out[j]);
            } else {
                assert(out[j] == s.last());
                assert(s[s.len() - 1] == out[j]);
            }
        }
        assert forall|i: int|
            0 <= i < s.len() && passes_filter(
                s[i],
                block,
                include_expired,
                start_after,
            ) implies out.contains(s[i]) by {
            if i == s.len() - 1 {
                assert(out[out.len() - 1] == s[i]);
            } else {
                assert(d[i] == s[i]);
                assert(sub.contains(d[i]));
                let j = choose|j: int| 0 <= j < sub.len() && sub[j] == d[i];
                assert(out[j] == s[i]);
            }
        }
    }
}

/// A scan keeps the stored order: its identifiers are strictly ascending.
pub proof fn lemma_listing_sorted(
    s: Seq<(u32, OTCInfo)>,
    block: BlockInfo,
    include_expired: bool,
    start_after: Option<u32>,
)
    requires
        keys_sorted(s),
    ensures
        keys_sorted(listing(s, block, include_expired, start_after)),
    decreases s.len(),
{
    reveal(Seq::filter);
    let out = listing(s, block, include_expired, start_after);
    if s.len() > 0 {
        let d = s.drop_last();
        assert(keys_sorted(d)) by {
            assert forall|i: int, j: int| 0 <= i < j < d.len() implies (#[trigger] d[i]).0 < (
            #[trigger] d[j]).0 by {
                assert(d[i] == s[i] && d[j] == s[j]);
            }
        }
        lemma_listing_sorted(d, block, include_expired, start_after);
        lemma_listing_membership(d, block, include_expired, start_after);
        let sub = listing(d, block, include_expired, start_after);
        if passes_filter(s.last(), block, include_expired, start_after) {
            assert forall|i: int, j: int| 0 <= i < j < out.len() implies (#[trigger] out[i]).0 < (
            #[trigger] out[j]).0 by {
                if j < sub.len() {
                    assert(out[i] == sub[i] && out[j] == sub[j]);
                } else {
                    assert(out[j] == s.last());
                    assert(out[i] == sub[i]);
                    assert(d.contains(sub[i]));
                    let k = choose|k: int| 0 <= k < d.len() && d[k] == sub[i];
                    assert(s[k] == sub[i]);
                    assert(s[k].0 < s[s.len() - 1].0);
                }
            }
        }
    }
}

/// A scan of entries that all fail the filter is empty.
pub proof fn lemma_listing_empty(
    s: Seq<(u32, OTCInfo)>,
    block: BlockInfo,
    include_expired: bool,
    start_after: Option<u32>,
)
    requires
        forall|i: int|
            0 <= i < s.len() ==> !passes_filter(
                #[trigger] s[i],
                block,
                include_expired,
                start_after,
            ),
    ensures
        listing(s, block, include_expired, start_after) == Seq::<(u32, OTCInfo)>::empty(),
    decreases s.len(),
{
    reveal(Seq::filter);
    if s.len() > 0 {
        let d = s.drop_last();
        assert(forall|i: int|
            0 <= i < d.len() ==> !passes_filter(
                #[trigger] d[i],
                block,
                include_expired,
                start_after,
            )) by {
            assert(forall|i: int| 0 <= i < d.len() ==> d[i] == #[trigger] s[i]);
        }
        lemma_listing_empty(d, block, include_expired, start_after);
        assert(!passes_filter(s[s.len() - 1], block, include_expired, start_after));
    } else {
        assert(listing(s, block, include_expired, start_after) =~= Seq::<(u32, OTCInfo)>::empty());
    }
}

/// A scan of entries that all pass the filter returns them unchanged.
pub proof fn lemma_listing_all(
    s: Seq<(u32, OTCInfo)>,
    block: BlockInfo,
    include_expired: bool,
    start_after: Option<u32>,
)
    requires
        forall|i: int|
            0 <= i < s.len() ==> passes_filter(
                #[trigger] s[i],
                block,
                include_expired,
                start_after,
            ),
    ensures
        listing(s, block, include_expired, start_after) == s,
    decreases s.len(),
{
    reveal(Seq::filter);
    if s.len() > 0 {
        let d = s.drop_last();
        assert(forall|i: int|
            0 <= i < d.len() ==> passes_filter(
                #[trigger] d[i],
                block,
                include_expired,
                start_after,
            )) by {
            assert(forall|i: int| 0 <= i < d.len() ==> d[i] == #[trigger] s[i]);
        }
        lemma_listing_all(d, block, include_expired, start_after);
        assert(passes_filter(s[s.len() - 1], block, include_expired, start_after));
        assert(d.push(s.last()) =~= s);
    } else {
        assert(listing(s, block, include_expired, start_after) =~= s);
    }
}

/// Scanning past a later cursor commutes with scanning past an earlier
/// one: the scan after `y` equals the scan after `y` applied to the scan
/// after the earlier cursor.
pub proof fn lemma_listing_restrict(
    s: Seq<(u32, OTCInfo)>,
    block: BlockInfo,
    include_expired: bool,
    start_after: Option<u32>,
    y: u32,
)
    requires
        start_after matches Some(c) ==> c <= y,
    ensures
        listing(s, block, include_expired, Some(y)) == listing(
            listing(s, block, include_expired, start_after),
            block,
            include_expired,
            Some(y),
        ),
    decreases s.len(),
{
    reveal(Seq::filter);
    if s.len() == 0 {
        assert(listing(s, block, include_expired, Some(y)) =~= Seq::<(u32, OTCInfo)>::empty());
        assert(listing(s, block, include_expired, start_after) =~= Seq::<
            (u32, OTCInfo),
        >::empty());
    } else {
        let d = s.drop_last();
        let last = s.last();
        lemma_listing_restrict(d, block, include_expired, start_after, y);
        let inner_d = listing(d, block, include_expired, start_after);
        if passes_filter(last, block, include_expired, start_after) {
            assert(listing(s, block, include_expired, start_after) == inner_d.push(last));
            assert((inner_d.push(last)).drop_last() =~= inner_d);
            assert((inner_d.push(last)).last() == last);
        } else {
            assert(listing(s, block, include_expired, start_after) == inner_d);
            // an entry past the later cursor also passes the earlier one
            assert(!passes_filter(last, block, include_expired, Some(y)));
        }
    }
}

/// Scanning past a cursor reads nothing but the entries past that cursor:
/// the expiration filter can be applied before or after cutting at the
/// cursor.
pub proof fn lemma_listing_split(
    s: Seq<(u32, OTCInfo)>,
    block: BlockInfo,
    include_expired: bool,
    y: u32,
)
    ensures
        listing(s, block, include_expired, Some(y)) == listing(
            listing(s, block, true, Some(y)),
            block,
            include_expired,
            Some(y),
        ),
    decreases s.len(),
{
    reveal(Seq::filter);
    if s.len() == 0 {
        assert(listing(s, block, include_expired, Some(y)) =~= Seq::<(u32, OTCInfo)>::empty());
        assert(listing(s, block, true, Some(y)) =~= Seq::<(u32, OTCInfo)>::empty());
    } else {
        let d = s.drop_last();
        let last = s.last();
        lemma_listing_split(d, block, include_expired, y);
        let inner_d = listing(d, block, true, Some(y));
        if passes_filter(last, block, true, Some(y)) {
            assert(listing(s, block, true, Some(y)) == inner_d.push(last));
            assert((inner_d.push(last)).drop_last() =~= inner_d);
            assert((inner_d.push(last)).last() == last);
        } else {
            assert(listing(s, block, true, Some(y)) == inner_d);
            assert(!passes_filter(last, block, include_expired, Some(y)));
        }
    }
}

/// In a sorted, expiration-clean sequence whose entry at `m - 1` carries
/// identifier `y`, the scan past `y` is exactly the tail from `m` on.
pub proof fn lemma_restrict_skip(
    f: Seq<(u32, OTCInfo)>,
    block: BlockInfo,
    include_expired: bool,
    y: u32,
    m: int,
)
    requires
        keys_sorted(f),
        0 < m <= f.len(),
        f[m - 1].0 == y,
        forall|j: int|
            0 <= j < f.len() ==> include_expired || !(#[trigger] f[j]).1.expires.spec_is_expired(
                block,
            ),
    ensures
        listing(f, block, include_expired, Some(y)) == f.skip(m),
{
    assert(f =~= f.take(m) + f.skip(m));
    lemma_listing_add(f.take(m), f.skip(m), block, include_expired, Some(y));
    let head = f.take(m);
    let tail = f.skip(m);
    assert forall|i: int| 0 <= i < head.len() implies !passes_filter(
        #[trigger] head[i],
        block,
        include_expired,
        Some(y),
    ) by {
        assert(head[i] == f[i]);
        if i < m - 1 {
            assert(f[i].0 < f[m - 1].0);
        }
    }
    lemma_listing_empty(head, block, include_expired, Some(y));
    assert forall|i: int| 0 <= i < tail.len() implies passes_filter(
        #[trigger] tail[i],
        block,
        include_expired,
        Some(y),
    ) by {
        assert(tail[i] == f[i + m]);
        assert(f[m - 1].0 < f[i + m].0);
    }
    lemma_listing_all(tail, block, include_expired, Some(y));
    assert(listing(f, block, include_expired, Some(y)) =~= tail);
}

/// Pagination is stable: a page of a scan, resumed by scanning strictly
/// after the page's last identifier, continues with exactly the remaining
/// entries of the full scan — ascending, with no gap and no duplicate.
pub proof fn lemma_pagination_resume(
    s: Seq<(u32, OTCInfo)>,
    block: BlockInfo,
    include_expired: bool,
    start_after: Option<u32>,
    limit: nat,
)
    requires
        keys_sorted(s),
        take_up_to(listing(s, block, include_expired, start_after), limit).len() > 0,
    ensures
        ({
            let full = listing(s, block, include_expired, start_after);
            let page = take_up_to(full, limit);
            listing(s, block, include_expired, Some(page.last().0)) == full.skip(
                page.len() as int,
            )
        }),
{
    let full = listing(s, block, include_expired, start_after);
    let page = take_up_to(full, limit);
    let m = page.len() as int;
    let y = page.last().0;
    assert(page.last() == full[m - 1]);
    lemma_listing_sorted(s, block, include_expired, start_after);
    lemma_listing_membership(s, block, include_expired, start_after);
    assert(passes_filter(full[m - 1], block, include_expired, start_after));
    lemma_listing_restrict(s, block, include_expired, start_after, y);
    lemma_restrict_skip(full, block, include_expired, y, m);
}

/// A scan that resumes after identifier `y` depends only on the entries
/// above `y`: interleaved creates and removals that do not touch
/// identifiers at or below `y` leave it as it would have been.
pub proof fn lemma_pagination_frame(
    s1: Seq<(u32, OTCInfo)>,
    s2: Seq<(u32, OTCInfo)>,
    block: BlockInfo,
    include_expired: bool,
    y: u32,
)
    requires
        listing(s1, block, true, Some(y)) == listing(s2, block, true, Some(y)),
    ensures
        listing(s1, block, include_expired, Some(y)) == listing(
            s2,
            block,
            include_expired,
            Some(y),
        ),
{
    lemma_listing_split(s1, block, include_expired, y);
    lemma_listing_split(s2, block, include_expired, y);
}

/// Expiration filtering: a scan without expired entries returns no elapsed
/// offer and every non-elapsed offer past the cursor, while a scan with
/// them returns every offer past the cursor, elapsed or not.
pub proof fn lemma_expiration_filtering(
    s: Seq<(u32, OTCInfo)>,
    block: BlockInfo,
    start_after: Option<u32>,
)
    ensures
        forall|j: int|
            0 <= j < listing(s, block, false, start_after).len() ==> !(#[trigger] listing(
                s,
                block,
                false,
                start_after,
            )[j]).1.expires.spec_is_expired(block),
        forall|i: int|
            0 <= i < s.len() && passes_filter(#[trigger] s[i], block, false, start_after)
                ==> listing(s, block, false, start_after).contains(s[i]),
        forall|i: int|
            0 <= i < s.len() && passes_filter(#[trigger] s[i], block, true, start_after)
                ==> listing(s, block, true, start_after).contains(s[i]),
{
    lemma_listing_membership(s, block, false, start_after);
    lemma_listing_membership(s, block, true, start_after);
}

} // verus!
