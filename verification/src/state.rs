//! Persistent records of the escrow: the singleton config, the offer record,
//! and the ordered offer store keyed by a 32-bit identifier.

use vstd::prelude::*;

use crate::expiration::Expiration;

verus! {

/// The singleton global config: the deployer's address, the active flag
/// (when false, no new offer can be created), and the allocation cursor the
/// next identifier search starts from.
#[derive(Debug)]
pub struct State {
    pub admin: String,
    pub index: u32,
    pub active: bool,
}

/// Optional free-form information about the offer's creator. The escrow
/// passes it through without interpreting it.
#[derive(Debug, PartialEq, Eq)]
pub struct UserInfo {
    pub user: String,
    pub account_type: Option<String>,
}

/// One open escrow: who deposited, what is held, what is asked in return,
/// and until when the offer stands.
///
/// Each leg is a kind flag plus an amount, with the denomination set for a
/// native leg and the token contract address set for a tokenized leg.
#[derive(Debug)]
pub struct OTCInfo {
    pub seller: String,
    pub sell_native: bool,
    pub sell_amount: u128,
    pub sell_denom: Option<String>,
    pub sell_address: Option<String>,
    pub ask_native: bool,
    pub ask_amount: u128,
    pub ask_denom: Option<String>,
    pub ask_address: Option<String>,
    pub expires: Expiration,
    pub user_info: Option<UserInfo>,
    pub description: Option<String>,
}

impl OTCInfo {
    /// Each leg resolves to exactly one denomination or one token contract:
    /// a native leg carries a denomination and no contract address, a
    /// tokenized leg a contract address and no denomination.
    pub open spec fn wf(self) -> bool {
        &&& self.sell_native ==> self.sell_denom is Some && self.sell_address is None
        &&& !self.sell_native ==> self.sell_address is Some && self.sell_denom is None
        &&& self.ask_native ==> self.ask_denom is Some && self.ask_address is None
        &&& !self.ask_native ==> self.ask_address is Some && self.ask_denom is None
    }
}

fn clone_opt_string(s: &Option<String>) -> (r: Option<String>)
    ensures
        r == *s,
{
    match s {
        Some(v) => Some(v.clone()),
        None => None,
    }
}

impl Clone for UserInfo {
    fn clone(&self) -> (r: Self)
        ensures
            r == *self,
    {
        UserInfo { user: self.user.clone(), account_type: clone_opt_string(&self.account_type) }
    }
}

fn clone_opt_user_info(u: &Option<UserInfo>) -> (r: Option<UserInfo>)
    ensures
        r == *u,
{
    match u {
        Some(v) => Some(v.clone()),
        None => None,
    }
}

impl Clone for OTCInfo {
    fn clone(&self) -> (r: Self)
        ensures
            r == *self,
    {
        OTCInfo {
            seller: self.seller.clone(),
            sell_native: self.sell_native,
            sell_amount: self.sell_amount,
            sell_denom: clone_opt_string(&self.sell_denom),
            sell_address: clone_opt_string(&self.sell_address),
            ask_native: self.ask_native,
            ask_amount: self.ask_amount,
            ask_denom: clone_opt_string(&self.ask_denom),
            ask_address: clone_opt_string(&self.ask_address),
            expires: self.expires,
            user_info: clone_opt_user_info(&self.user_info),
            description: clone_opt_string(&self.description),
        }
    }
}

/// The keys of the entry sequence are strictly increasing: each identifier
/// occurs at most once and iteration order is ascending identifier.
pub open spec fn keys_sorted(s: Seq<(u32, OTCInfo)>) -> bool {
    forall|i: int, j: int| 0 <= i < j < s.len() ==> (#[trigger] s[i]).0 < (#[trigger] s[j]).0
}

/// Whether some entry carries the identifier.
pub open spec fn contains_key(s: Seq<(u32, OTCInfo)>, id: u32) -> bool {
    exists|i: int| 0 <= i < s.len() && (#[trigger] s[i]).0 == id
}

/// The index of the entry carrying the identifier (meaningful when present).
pub open spec fn index_of_key(s: Seq<(u32, OTCInfo)>, id: u32) -> int {
    choose|i: int| 0 <= i < s.len() && (#[trigger] s[i]).0 == id
}

/// The offer stored under the identifier (meaningful when present).
pub open spec fn lookup(s: Seq<(u32, OTCInfo)>, id: u32) -> OTCInfo {
    s[index_of_key(s, id)].1
}

/// In a sorted entry sequence an identifier pins down its index.
pub proof fn lemma_key_index_unique(s: Seq<(u32, OTCInfo)>, i: int, j: int)
    requires
        keys_sorted(s),
        0 <= i < s.len(),
        0 <= j < s.len(),
        s[i].0 == s[j].0,
    ensures
        i == j,
{
}

/// The identifier a linear probe starting at `start` finds: `r` is free, and
/// every identifier the probe visits before `r` — counting upward from
/// `start` and wrapping past the end of the 32-bit range to zero — is
/// occupied.
pub open spec fn is_first_free_from(s: Seq<(u32, OTCInfo)>, start: u32, r: u32) -> bool {
    &&& !contains_key(s, r)
    &&& r >= start ==> forall|k: u32| start <= k < r ==> contains_key(s, k)
    &&& r < start ==> {
        &&& forall|k: u32| k >= start ==> contains_key(s, k)
        &&& forall|k: u32| k < r ==> contains_key(s, k)
    }
}

/// The ordered offer store: an ascending mapping from 32-bit identifier to
/// offer record, supporting point lookup, insert, delete, identifier
/// allocation, and an ascending scan.
#[derive(Debug)]
pub struct OtcStore {
    entries: Vec<(u32, OTCInfo)>,
}

impl View for OtcStore {
    type V = Seq<(u32, OTCInfo)>;

    closed spec fn view(&self) -> Seq<(u32, OTCInfo)> {
        self.entries@
    }
}

impl OtcStore {
    /// Keys strictly ascending, every stored offer well-formed.
    pub open spec fn wf(self) -> bool {
        &&& keys_sorted(self@)
        &&& forall|i: int| 0 <= i < self@.len() ==> (#[trigger] self@[i]).1.wf()
    }

    /// An empty store.
    pub fn new() -> (r: Self)
        ensures
            r@ == Seq::<(u32, OTCInfo)>::empty(),
            r.wf(),
    {
        OtcStore { entries: Vec::new() }
    }

    pub fn len(&self) -> (r: usize)
        ensures
            r == self@.len(),
    {
        self.entries.len()
    }

    /// The entry at a scan position.
    pub fn get_at(&self, i: usize) -> (r: &(u32, OTCInfo))
        requires
            i < self@.len(),
        ensures
            *r == self@[i as int],
    {
        &self.entries[i]
    }

    /// Whether an offer is stored under the identifier.
    pub fn has(&self, id: u32) -> (r: bool)
        ensures
            r == contains_key(self@, id),
    {
        let mut i: usize = 0;
        while i < self.entries.len()
            invariant
                i <= self@.len(),
                forall|j: int| 0 <= j < i ==> (#[trigger] self@[j]).0 != id,
            decreases self@.len() - i,
        {
            if self.entries[i].0 == id {
                return true;
            }
            i += 1;
        }
        false
    }

    /// Point lookup.
    pub fn get(&self, id: u32) -> (r: Option<&OTCInfo>)
        requires
            self.wf(),
        ensures
            match r {
                Some(otc) => contains_key(self@, id) && *otc == lookup(self@, id),
                None => !contains_key(self@, id),
            },
    {
        let mut i: usize = 0;
        while i < self.entries.len()
            invariant
                self.wf(),
                i <= self@.len(),
                forall|j: int| 0 <= j < i ==> (#[trigger] self@[j]).0 != id,
            decreases self@.len() - i,
        {
            if self.entries[i].0 == id {
                proof {
                    lemma_key_index_unique(self@, i as int, index_of_key(self@, id));
                }
                return Some(&self.entries[i].1);
            }
            i += 1;
        }
        None
    }

    /// Point insert or overwrite, keeping the ascending order.
    pub fn save(&mut self, id: u32, otc: OTCInfo)
        requires
            old(self).wf(),
            otc.wf(),
        ensures
            final(self).wf(),
            contains_key(final(self)@, id),
            lookup(final(self)@, id) == otc,
            forall|k: u32|
                k != id ==> #[trigger] contains_key(final(self)@, k) == contains_key(
                    old(self)@,
                    k,
                ),
            forall|k: u32|
                k != id && contains_key(old(self)@, k) ==> #[trigger] lookup(final(self)@, k)
                    == lookup(old(self)@, k),
            final(self)@.len() == old(self)@.len() + (if contains_key(old(self)@, id) {
                0int
            } else {
                1int
            }),
    {
        let ghost s0 = self@;
        let mut pos: usize = 0;
        while pos < self.entries.len() && self.entries[pos].0 < id
            invariant
                self@ == s0,
                pos <= self@.len(),
                forall|j: int| 0 <= j < pos ==> (#[trigger] self@[j]).0 < id,
            decreases self@.len() - pos,
        {
            pos += 1;
        }
        proof {
            // every entry at or after pos has a key at least id
            assert forall|j: int| pos <= j < s0.len() implies (#[trigger] s0[j]).0 >= id by {
                if j > pos {
                    assert(s0[pos as int].0 < s0[j].0);
                }
            }
        }
        if pos < self.entries.len() && self.entries[pos].0 == id {
            self.entries[pos] = (id, otc);
            proof {
                let s1 = self@;
                assert(s1 == s0.update(pos as int, (id, otc)));
                assert(contains_key(s1, id) && s1[pos as int].0 == id);
                lemma_key_index_unique(s1, pos as int, index_of_key(s1, id));
                lemma_key_index_unique(s0, pos as int, index_of_key(s0, id));
                assert forall|k: u32| k != id implies #[trigger] contains_key(s1, k)
                    == contains_key(s0, k) by {
                    assert forall|i: int| 0 <= i < s0.len() && s0[i].0 == k implies contains_key(
                        s1,
                        k,
                    ) by {
                        assert(s1[i].0 == k);
                    }
                    assert forall|i: int| 0 <= i < s1.len() && s1[i].0 == k implies contains_key(
                        s0,
                        k,
                    ) by {
                        assert(s0[i].0 == k);
                    }
                }
                assert forall|k: u32| k != id && contains_key(s0, k) implies #[trigger] lookup(
                    s1,
                    k,
                ) == lookup(s0, k) by {
                    let i = index_of_key(s0, k);
                    assert(s1[i].0 == k);
                    lemma_key_index_unique(s1, i, index_of_key(s1, k));
                }
            }
        } else {
            proof {
                assert forall|j: int| pos <= j < s0.len() implies (#[trigger] s0[j]).0 > id by {
                    if j > pos {
                        assert(s0[pos as int].0 < s0[j].0);
                    }
                }
                assert(!contains_key(s0, id));
            }
            self.entries.insert(pos, (id, otc));
            proof {
                let s1 = self@;
                assert(s1 == s0.insert(pos as int, (id, otc)));
                // sortedness of the result
                assert forall|i: int, j: int| 0 <= i < j < s1.len() implies (#[trigger] s1[i]).0 < (
                #[trigger] s1[j]).0 by {
                    if i < pos {
                        assert(s1[i] == s0[i]);
                    }
                    if j < pos {
                        assert(s1[j] == s0[j]);
                    }
                    if i > pos {
                        assert(s1[i] == s0[i - 1]);
                    }
                    if j > pos {
                        assert(s1[j] == s0[j - 1]);
                    }
                }
                assert(s1[pos as int].0 == id);
                lemma_key_index_unique(s1, pos as int, index_of_key(s1, id));
                assert forall|k: u32| k != id implies #[trigger] contains_key(s1, k)
                    == contains_key(s0, k) by {
                    assert forall|i: int| 0 <= i < s0.len() && s0[i].0 == k implies contains_key(
                        s1,
                        k,
                    ) by {
                        if i < pos {
                            assert(s1[i].0 == k);
                        } else {
                            assert(s1[i + 1].0 == k);
                        }
                    }
                    assert forall|i: int| 0 <= i < s1.len() && s1[i].0 == k implies contains_key(
                        s0,
                        k,
                    ) by {
                        if i < pos {
                            assert(s0[i].0 == k);
                        } else {
                            assert(s0[i - 1].0 == k);
                        }
                    }
                }
                assert forall|k: u32| k != id && contains_key(s0, k) implies #[trigger] lookup(
                    s1,
                    k,
                ) == lookup(s0, k) by {
                    let i = index_of_key(s0, k);
                    if i < pos {
                        assert(s1[i].0 == k);
                        lemma_key_index_unique(s1, i, index_of_key(s1, k));
                    } else {
                        assert(s1[i + 1].0 == k);
                        lemma_key_index_unique(s1, i + 1, index_of_key(s1, k));
                    }
                }
            }
        }
    }

    /// The next free identifier found by a linear probe from `start`: each
    /// occupied identifier is passed over, counting upward and wrapping past
    /// the end of the 32-bit range to zero. The probe sequence covers the
    /// whole range, so it finds a free identifier whenever the store holds
    /// fewer than 2^32 offers. Guarantees only first-free-from-`start`, not
    /// the globally lowest free identifier.
    pub fn allocate(&self, start: u32) -> (r: u32)
        requires
            self.wf(),
            self@.len() < 0x1_0000_0000,
        ensures
            is_first_free_from(self@, start, r),
    {
        let len = self.entries.len();
        // the first index whose key is at least start
        let mut idx: usize = 0;
        while idx < len && self.entries[idx].0 < start
            invariant
                self.wf(),
                len == self@.len(),
                idx <= len,
                forall|j: int| 0 <= j < idx ==> (#[trigger] self@[j]).0 < start,
            decreases len - idx,
        {
            idx += 1;
        }
        // walk the run of consecutively occupied identifiers start, start + 1, ...
        let mut i = idx;
        let mut cand: u64 = start as u64;
        while i < len && cand <= 0xffff_ffffu64 && self.entries[i].0 as u64 == cand
            invariant
                self.wf(),
                len == self@.len(),
                idx <= i <= len,
                i - idx == cand - start,
                forall|j: int| 0 <= j < idx ==> (#[trigger] self@[j]).0 < start,
                forall|j: int| idx <= j < i ==> (#[trigger] self@[j]).0 == start + (j - idx),
            decreases len - i,
        {
            cand += 1;
            i += 1;
        }
        if cand <= 0xffff_ffff {
            proof {
                assert forall|j: int| 0 <= j < len implies (#[trigger] self@[j]).0 != cand by {
                    if idx <= j < i {
                        assert(self@[j].0 == start + (j - idx));
                    } else if j >= i {
                        // the run stopped at i, so the key there exceeds cand
                        if i > idx {
                            assert(self@[i - 1].0 == start + (i - 1 - idx));
                            assert(self@[i as int].0 > self@[i - 1].0);
                        }
                        if j > i {
                            assert(self@[j].0 > self@[i as int].0);
                        }
                    }
                }
                assert forall|k: u32| start <= k < cand implies contains_key(self@, k) by {
                    let j = idx + (k - start);
                    assert(self@[j].0 == k);
                }
            }
            return cand as u32;
        }
        proof {
            // the probe wrapped: everything from start to the end of the
            // range is occupied, and those entries run to the end of the store
            assert(i == len) by {
                if i < len {
                    assert(self@[i - 1].0 == start + (i - 1 - idx));
                    assert(self@[i as int].0 > self@[i - 1].0);
                }
            }
            assert forall|k: u32| k >= start implies contains_key(self@, k) by {
                let j = idx + (k - start);
                assert(self@[j].0 == k);
            }
        }
        // probe again from the bottom of the range; since fewer than 2^32
        // offers are stored, a free identifier lies below start
        let mut i2: usize = 0;
        while i2 < len && self.entries[i2].0 as u64 == i2 as u64
            invariant
                self.wf(),
                len == self@.len(),
                i2 <= len,
                len - idx == 0x1_0000_0000 - start,
                forall|j: int| idx <= j < len ==> (#[trigger] self@[j]).0 == start + (j - idx),
                forall|j: int| 0 <= j < i2 ==> (#[trigger] self@[j]).0 == j,
            decreases len - i2,
        {
            i2 += 1;
        }
        proof {
            assert(i2 < len) by {
                if i2 == len {
                    assert(self@[len - 1].0 == start + (len - 1 - idx));
                    assert(self@[len - 1].0 == len - 1);
                }
            }
            assert forall|j: int| 0 <= j < len implies (#[trigger] self@[j]).0 != i2 by {
                if j > i2 {
                    assert(self@[j].0 > self@[i2 as int].0);
                    if i2 > 0 {
                        assert(self@[i2 as int].0 > self@[i2 - 1].0);
                    }
                } else if j == i2 {
                    if i2 > 0 {
                        assert(self@[i2 - 1].0 == i2 - 1);
                    }
                }
            }
            assert(i2 < start) by {
                if i2 >= start {
                    let j = idx + (i2 - start);
                    assert(self@[j].0 == i2);
                }
            }
            assert forall|k: u32| k < i2 implies contains_key(self@, k) by {
                assert(self@[k as int].0 == k);
            }
        }
        i2 as u32
    }

    /// Point delete.
    pub fn remove(&mut self, id: u32)
        requires
            old(self).wf(),
            contains_key(old(self)@, id),
        ensures
            final(self).wf(),
            !contains_key(final(self)@, id),
            forall|k: u32|
                k != id ==> #[trigger] contains_key(final(self)@, k) == contains_key(
                    old(self)@,
                    k,
                ),
            forall|k: u32|
                k != id && contains_key(old(self)@, k) ==> #[trigger] lookup(final(self)@, k)
                    == lookup(old(self)@, k),
            final(self)@.len() == old(self)@.len() - 1,
    {
        let ghost s0 = self@;
        let mut pos: usize = 0;
        while pos < self.entries.len() && self.entries[pos].0 != id
            invariant
                self@ == s0,
                pos <= self@.len(),
                forall|j: int| 0 <= j < pos ==> (#[trigger] self@[j]).0 != id,
            decreases self@.len() - pos,
        {
            pos += 1;
        }
        proof {
            let w = index_of_key(s0, id);
            assert(pos < s0.len() && s0[pos as int].0 == id) by {
                if pos == s0.len() {
                    assert(s0[w].0 == id);
                }
            }
        }
        self.entries.remove(pos);
        proof {
            let s1 = self@;
            assert(s1 == s0.remove(pos as int));
            assert forall|i: int, j: int| 0 <= i < j < s1.len() implies (#[trigger] s1[i]).0 < (
            #[trigger] s1[j]).0 by {
                if i < pos {
                    assert(s1[i] == s0[i]);
                }
                if j < pos {
                    assert(s1[j] == s0[j]);
                }
                if i >= pos {
                    assert(s1[i] == s0[i + 1]);
                }
                if j >= pos {
                    assert(s1[j] == s0[j + 1]);
                }
            }
            assert forall|i: int| 0 <= i < s1.len() implies !((#[trigger] s1[i]).0 == id) by {
                if i < pos {
                    assert(s1[i] == s0[i]);
                    if s0[i].0 == id {
                        lemma_key_index_unique(s0, i, pos as int);
                    }
                } else {
                    assert(s1[i] == s0[i + 1]);
                    if s0[i + 1].0 == id {
                        lemma_key_index_unique(s0, i + 1, pos as int);
                    }
                }
            }
            assert forall|k: u32| k != id implies #[trigger] contains_key(s1, k) == contains_key(
                s0,
                k,
            ) by {
                assert forall|i: int| 0 <= i < s0.len() && s0[i].0 == k implies contains_key(
                    s1,
                    k,
                ) by {
                    if i < pos {
                        assert(s1[i].0 == k);
                    } else {
                        assert(i != pos);
                        assert(s1[i - 1].0 == k);
                    }
                }
                assert forall|i: int| 0 <= i < s1.len() && s1[i].0 == k implies contains_key(
                    s0,
                    k,
                ) by {
                    if i < pos {
                        assert(s0[i].0 == k);
                    } else {
                        assert(s0[i + 1].0 == k);
                    }
                }
            }
            assert forall|k: u32| k != id && contains_key(s0, k) implies #[trigger] lookup(s1, k)
                == lookup(s0, k) by {
                let i = index_of_key(s0, k);
                if i < pos {
                    assert(s1[i].0 == k);
                    lemma_key_index_unique(s1, i, index_of_key(s1, k));
                } else {
                    assert(i != pos);
                    assert(s1[i - 1].0 == k);
                    lemma_key_index_unique(s1, i - 1, index_of_key(s1, k));
                }
            }
        }
    }
}

} // verus!
