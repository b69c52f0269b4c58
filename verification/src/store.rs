//! The keyed store that models the host ledger's persistent accounts.
//!
//! Each table is a vector of entries with pairwise distinct keys, viewed as
//! a finite map from key to record. Operations state their effect on the
//! map view, so the ledger's contracts never mention vector indices.

use vstd::map::*;
use vstd::prelude::*;

use crate::addr::{addr_eq, Address};
use crate::records::{BalanceEntry, EscrowRec, EscrowRecord, VaultRec, VaultState};

verus! {

/// The map described by a sequence of vault records keyed by custody address.
pub open spec fn vmap(s: Seq<VaultState>) -> Map<Seq<u8>, VaultRec> {
    Map::new(
        |k: Seq<u8>| exists|i: int| 0 <= i < s.len() && s[i].addr@ == k,
        |k: Seq<u8>| s[choose|i: int| 0 <= i < s.len() && s[i].addr@ == k]@,
    )
}

/// Pairwise distinct custody addresses.
pub open spec fn vunique(s: Seq<VaultState>) -> bool {
    forall|i: int, j: int| 0 <= i < j < s.len() ==> s[i].addr@ != s[j].addr@
}

pub proof fn lemma_vmap_at(s: Seq<VaultState>, i: int)
    requires
        vunique(s),
        0 <= i < s.len(),
    ensures
        vmap(s).contains_key(s[i].addr@),
        vmap(s)[s[i].addr@] == s[i]@,
{
    let k = s[i].addr@;
    assert(vmap(s).contains_key(k));
    let j = choose|j: int| 0 <= j < s.len() && s[j].addr@ == k;
    assert(s[j].addr@ == k);
    assert(j == i);
}

pub proof fn lemma_vmap_push(s: Seq<VaultState>, r: VaultState)
    requires
        vunique(s),
        !vmap(s).contains_key(r.addr@),
    ensures
        vunique(s.push(r)),
        vmap(s.push(r)) == vmap(s).insert(r.addr@, r@),
{
    let t = s.push(r);
    assert forall|i: int| 0 <= i < s.len() implies s[i].addr@ != r.addr@ by {
        if s[i].addr@ == r.addr@ {
            assert(vmap(s).contains_key(r.addr@));
        }
    }
    assert(vunique(t));
    assert forall|k: Seq<u8>| #[trigger] vmap(t).contains_key(k)
        == vmap(s).insert(r.addr@, r@).contains_key(k) by {
        if k == r.addr@ {
            assert(t[s.len() as int].addr@ == k);
        } else {
            if vmap(t).contains_key(k) {
                let i = choose|i: int| 0 <= i < t.len() && t[i].addr@ == k;
                assert(i < s.len() && s[i].addr@ == k);
            }
            if vmap(s).contains_key(k) {
                let i = choose|i: int| 0 <= i < s.len() && s[i].addr@ == k;
                assert(t[i].addr@ == k);
            }
        }
    }
    assert forall|k: Seq<u8>| vmap(t).contains_key(k) implies #[trigger] vmap(t)[k]
        == vmap(s).insert(r.addr@, r@)[k] by {
        let i = choose|i: int| 0 <= i < t.len() && t[i].addr@ == k;
        if k == r.addr@ {
            if i < s.len() {
                assert(s[i].addr@ == k);
                assert(vmap(s).contains_key(k));
            }
            assert(i == s.len());
            assert(vmap(t)[k] == r@);
        } else {
            assert(i < s.len());
            lemma_vmap_at(s, i);
            let j = choose|j: int| 0 <= j < s.len() && s[j].addr@ == k;
            assert(j == i);
        }
    }
    assert(vmap(t) =~= vmap(s).insert(r.addr@, r@));
}

/// The map described by a sequence of escrow records keyed by custody address.
pub open spec fn emap(s: Seq<EscrowRecord>) -> Map<Seq<u8>, EscrowRec> {
    Map::new(
        |k: Seq<u8>| exists|i: int| 0 <= i < s.len() && s[i].addr@ == k,
        |k: Seq<u8>| s[choose|i: int| 0 <= i < s.len() && s[i].addr@ == k]@,
    )
}

/// Pairwise distinct custody addresses.
pub open spec fn eunique(s: Seq<EscrowRecord>) -> bool {
    forall|i: int, j: int| 0 <= i < j < s.len() ==> s[i].addr@ != s[j].addr@
}

pub proof fn lemma_emap_at(s: Seq<EscrowRecord>, i: int)
    requires
        eunique(s),
        0 <= i < s.len(),
    ensures
        emap(s).contains_key(s[i].addr@),
        emap(s)[s[i].addr@] == s[i]@,
{
    let k = s[i].addr@;
    assert(emap(s).contains_key(k));
    let j = choose|j: int| 0 <= j < s.len() && s[j].addr@ == k;
    assert(s[j].addr@ == k);
    assert(j == i);
}

pub proof fn lemma_emap_push(s: Seq<EscrowRecord>, r: EscrowRecord)
    requires
        eunique(s),
        !emap(s).contains_key(r.addr@),
    ensures
        eunique(s.push(r)),
        emap(s.push(r)) == emap(s).insert(r.addr@, r@),
{
    let t = s.push(r);
    assert forall|i: int| 0 <= i < s.len() implies s[i].addr@ != r.addr@ by {
        if s[i].addr@ == r.addr@ {
            assert(emap(s).contains_key(r.addr@));
        }
    }
    assert(eunique(t));
    assert forall|k: Seq<u8>| #[trigger] emap(t).contains_key(k)
        == emap(s).insert(r.addr@, r@).contains_key(k) by {
        if k == r.addr@ {
            assert(t[s.len() as int].addr@ == k);
        } else {
            if emap(t).contains_key(k) {
                let i = choose|i: int| 0 <= i < t.len() && t[i].addr@ == k;
                assert(i < s.len() && s[i].addr@ == k);
            }
            if emap(s).contains_key(k) {
                let i = choose|i: int| 0 <= i < s.len() && s[i].addr@ == k;
                assert(t[i].addr@ == k);
            }
        }
    }
    assert forall|k: Seq<u8>| emap(t).contains_key(k) implies #[trigger] emap(t)[k]
        == emap(s).insert(r.addr@, r@)[k] by {
        let i = choose|i: int| 0 <= i < t.len() && t[i].addr@ == k;
        if k == r.addr@ {
            if i < s.len() {
                assert(s[i].addr@ == k);
                assert(emap(s).contains_key(k));
            }
            assert(i == s.len());
            assert(emap(t)[k] == r@);
        } else {
            assert(i < s.len());
            lemma_emap_at(s, i);
            let j = choose|j: int| 0 <= j < s.len() && s[j].addr@ == k;
            assert(j == i);
        }
    }
    assert(emap(t) =~= emap(s).insert(r.addr@, r@));
}

pub proof fn lemma_emap_remove(s: Seq<EscrowRecord>, i: int)
    requires
        eunique(s),
        0 <= i < s.len(),
    ensures
        eunique(s.remove(i)),
        emap(s.remove(i)) == emap(s).remove(s[i].addr@),
{
    let t = s.remove(i);
    let k0 = s[i].addr@;
    assert forall|a: int, b: int| 0 <= a < b < t.len() implies t[a].addr@ != t[b].addr@ by {
        let a0 = if a < i { a } else { a + 1 };
        let b0 = if b < i { b } else { b + 1 };
        assert(t[a] == s[a0] && t[b] == s[b0]);
    }
    assert forall|k: Seq<u8>| #[trigger] emap(t).contains_key(k)
        == emap(s).remove(k0).contains_key(k) by {
        if emap(t).contains_key(k) {
            let a = choose|a: int| 0 <= a < t.len() && t[a].addr@ == k;
            let a0 = if a < i { a } else { a + 1 };
            assert(s[a0].addr@ == k);
            assert(a0 != i);
            assert(k != k0);
        }
        if k != k0 && emap(s).contains_key(k) {
            let a = choose|a: int| 0 <= a < s.len() && s[a].addr@ == k;
            assert(a != i);
            let a1 = if a < i { a } else { a - 1 };
            assert(t[a1] == s[a]);
            assert(t[a1].addr@ == k);
        }
    }
    assert forall|k: Seq<u8>| emap(t).contains_key(k) implies #[trigger] emap(t)[k]
        == emap(s).remove(k0)[k] by {
        let a = choose|a: int| 0 <= a < t.len() && t[a].addr@ == k;
        let a0 = if a < i { a } else { a + 1 };
        assert(t[a] == s[a0] && s[a0].addr@ == k);
        assert(emap(t)[k] == t[a]@);
        lemma_emap_at(s, a0);
    }
    assert(emap(t) =~= emap(s).remove(k0));
}

/// The table of vault records, keyed by derived custody address.
pub struct VaultTable {
    pub entries: Vec<VaultState>,
}

impl View for VaultTable {
    type V = Map<Seq<u8>, VaultRec>;

    open spec fn view(&self) -> Map<Seq<u8>, VaultRec> {
        vmap(self.entries@)
    }
}

impl VaultTable {
    pub open spec fn wf(&self) -> bool {
        vunique(self.entries@) && (forall|i: int|
            0 <= i < self.entries@.len() ==> (#[trigger] self.entries@[i]).wf())
    }

    pub fn new() -> (r: VaultTable)
        ensures
            r.wf(),
            r@ == Map::<Seq<u8>, VaultRec>::empty(),
    {
        let r = VaultTable { entries: Vec::new() };
        proof {
            assert(r@ =~= Map::<Seq<u8>, VaultRec>::empty());
        }
        r
    }

    /// The index of the record whose custody address is `addr`, if any.
    pub fn find(&self, addr: &Address) -> (r: Option<usize>)
        requires
            self.wf(),
        ensures
            (match r {
                Some(i) => i < self.entries@.len() && self.entries@[i as int].addr@ == addr@
                    && self@.contains_key(addr@) && self@[addr@] == self.entries@[i as int]@,
                None => !self@.contains_key(addr@),
            }),
    {
        let mut i: usize = 0;
        while i < self.entries.len()
            invariant
                self.wf(),
                i <= self.entries@.len(),
                forall|j: int| 0 <= j < i ==> self.entries@[j].addr@ != addr@,
            decreases self.entries@.len() - i,
        {
            if addr_eq(&self.entries[i].addr, addr) {
                proof {
                    lemma_vmap_at(self.entries@, i as int);
                }
                return Some(i);
            }
            i = i + 1;
        }
        None
    }

    /// Adds a record under a fresh custody address.
    pub fn push_new(&mut self, rec: VaultState)
        requires
            old(self).wf(),
            rec.wf(),
            !old(self)@.contains_key(rec.addr@),
        ensures
            final(self).wf(),
            final(self)@ == old(self)@.insert(rec.addr@, rec@),
    {
        proof {
            lemma_vmap_push(self.entries@, rec);
        }
        self.entries.push(rec);
    }
}

/// The table of pending escrow records, keyed by derived custody address.
pub struct EscrowTable {
    pub entries: Vec<EscrowRecord>,
}

impl View for EscrowTable {
    type V = Map<Seq<u8>, EscrowRec>;

    open spec fn view(&self) -> Map<Seq<u8>, EscrowRec> {
        emap(self.entries@)
    }
}

impl EscrowTable {
    pub open spec fn wf(&self) -> bool {
        eunique(self.entries@) && (forall|i: int|
            0 <= i < self.entries@.len() ==> (#[trigger] self.entries@[i]).wf())
    }

    pub fn new() -> (r: EscrowTable)
        ensures
            r.wf(),
            r@ == Map::<Seq<u8>, EscrowRec>::empty(),
    {
        let r = EscrowTable { entries: Vec::new() };
        proof {
            assert(r@ =~= Map::<Seq<u8>, EscrowRec>::empty());
        }
        r
    }

    /// The index of the record whose custody address is `addr`, if any.
    pub fn find(&self, addr: &Address) -> (r: Option<usize>)
        requires
            self.wf(),
        ensures
            (match r {
                Some(i) => i < self.entries@.len() && self.entries@[i as int].addr@ == addr@
                    && self@.contains_key(addr@) && self@[addr@] == self.entries@[i as int]@,
                None => !self@.contains_key(addr@),
            }),
    {
        let mut i: usize = 0;
        while i < self.entries.len()
            invariant
                self.wf(),
                i <= self.entries@.len(),
                forall|j: int| 0 <= j < i ==> self.entries@[j].addr@ != addr@,
            decreases self.entries@.len() - i,
        {
            if addr_eq(&self.entries[i].addr, addr) {
                proof {
                    lemma_emap_at(self.entries@, i as int);
                }
                return Some(i);
            }
            i = i + 1;
        }
        None
    }

    /// Adds a record under a fresh custody address.
    pub fn push_new(&mut self, rec: EscrowRecord)
        requires
            old(self).wf(),
            rec.wf(),
            !old(self)@.contains_key(rec.addr@),
        ensures
            final(self).wf(),
            final(self)@ == old(self)@.insert(rec.addr@, rec@),
    {
        proof {
            lemma_emap_push(self.entries@, rec);
        }
        self.entries.push(rec);
    }

    /// Deletes the settled or refunded record at index `i`.
    pub fn remove_at(&mut self, i: usize)
        requires
            old(self).wf(),
            i < old(self).entries@.len(),
        ensures
            final(self).wf(),
            final(self)@ == old(self)@.remove(old(self).entries@[i as int].addr@),
    {
        proof {
            lemma_emap_remove(self.entries@, i as int);
        }
        self.entries.remove(i);
    }
}

/// The map described by a sequence of balances keyed by holder and asset.
pub open spec fn bmap(s: Seq<BalanceEntry>) -> Map<(Seq<u8>, Seq<u8>), u64> {
    Map::new(
        |k: (Seq<u8>, Seq<u8>)| exists|i: int| 0 <= i < s.len() && s[i].key() == k,
        |k: (Seq<u8>, Seq<u8>)| s[choose|i: int| 0 <= i < s.len() && s[i].key() == k].amount,
    )
}

/// Pairwise distinct holder-and-asset keys.
pub open spec fn bunique(s: Seq<BalanceEntry>) -> bool {
    forall|i: int, j: int| 0 <= i < j < s.len() ==> s[i].key() != s[j].key()
}

pub proof fn lemma_bmap_at(s: Seq<BalanceEntry>, i: int)
    requires
        bunique(s),
        0 <= i < s.len(),
    ensures
        bmap(s).contains_key(s[i].key()),
        bmap(s)[s[i].key()] == s[i].amount,
{
    let k = s[i].key();
    assert(bmap(s).contains_key(k));
    let j = choose|j: int| 0 <= j < s.len() && s[j].key() == k;
    assert(s[j].key() == k);
    assert(j == i);
}

pub proof fn lemma_bmap_push(s: Seq<BalanceEntry>, r: BalanceEntry)
    requires
        bunique(s),
        !bmap(s).contains_key(r.key()),
    ensures
        bunique(s.push(r)),
        bmap(s.push(r)) == bmap(s).insert(r.key(), r.amount),
{
    let t = s.push(r);
    assert forall|i: int| 0 <= i < s.len() implies s[i].key() != r.key() by {
        if s[i].key() == r.key() {
            assert(bmap(s).contains_key(r.key()));
        }
    }
    assert(bunique(t));
    assert forall|k: (Seq<u8>, Seq<u8>)| #[trigger] bmap(t).contains_key(k)
        == bmap(s).insert(r.key(), r.amount).contains_key(k) by {
        if k == r.key() {
            assert(t[s.len() as int].key() == k);
        } else {
            if bmap(t).contains_key(k) {
                let i = choose|i: int| 0 <= i < t.len() && t[i].key() == k;
                assert(i < s.len() && s[i].key() == k);
            }
            if bmap(s).contains_key(k) {
                let i = choose|i: int| 0 <= i < s.len() && s[i].key() == k;
                assert(t[i].key() == k);
            }
        }
    }
    assert forall|k: (Seq<u8>, Seq<u8>)| bmap(t).contains_key(k) implies #[trigger] bmap(t)[k]
        == bmap(s).insert(r.key(), r.amount)[k] by {
        let i = choose|i: int| 0 <= i < t.len() && t[i].key() == k;
        if k == r.key() {
            if i < s.len() {
                assert(s[i].key() == k);
                assert(bmap(s).contains_key(k));
            }
            assert(i == s.len());
            assert(bmap(t)[k] == r.amount);
        } else {
            assert(i < s.len());
            lemma_bmap_at(s, i);
            let j = choose|j: int| 0 <= j < s.len() && s[j].key() == k;
            assert(j == i);
        }
    }
    assert(bmap(t) =~= bmap(s).insert(r.key(), r.amount));
}

pub proof fn lemma_bmap_update(s: Seq<BalanceEntry>, i: int, r: BalanceEntry)
    requires
        bunique(s),
        0 <= i < s.len(),
        r.key() == s[i].key(),
    ensures
        bunique(s.update(i, r)),
        bmap(s.update(i, r)) == bmap(s).insert(r.key(), r.amount),
{
    let t = s.update(i, r);
    assert forall|a: int, b: int| 0 <= a < b < t.len() implies t[a].key() != t[b].key() by {
        assert(t[a].key() == s[a].key() && t[b].key() == s[b].key());
    }
    assert forall|k: (Seq<u8>, Seq<u8>)| #[trigger] bmap(t).contains_key(k)
        == bmap(s).insert(r.key(), r.amount).contains_key(k) by {
        if bmap(t).contains_key(k) {
            let a = choose|a: int| 0 <= a < t.len() && t[a].key() == k;
            assert(s[a].key() == k);
        }
        if bmap(s).contains_key(k) {
            let a = choose|a: int| 0 <= a < s.len() && s[a].key() == k;
            assert(t[a].key() == k);
        }
    }
    assert forall|k: (Seq<u8>, Seq<u8>)| bmap(t).contains_key(k) implies #[trigger] bmap(t)[k]
        == bmap(s).insert(r.key(), r.amount)[k] by {
        let a = choose|a: int| 0 <= a < t.len() && t[a].key() == k;
        if k == r.key() {
            assert(a == i);
            assert(bmap(t)[k] == r.amount);
        } else {
            assert(a != i);
            assert(t[a].amount == s[a].amount);
            lemma_bmap_at(s, a);
        }
    }
    assert(bmap(t) =~= bmap(s).insert(r.key(), r.amount));
}

/// The table of modeled balances, keyed by holder and asset.
pub struct BalanceTable {
    pub entries: Vec<BalanceEntry>,
}

impl View for BalanceTable {
    type V = Map<(Seq<u8>, Seq<u8>), u64>;

    open spec fn view(&self) -> Map<(Seq<u8>, Seq<u8>), u64> {
        bmap(self.entries@)
    }
}

impl BalanceTable {
    pub open spec fn wf(&self) -> bool {
        bunique(self.entries@) && (forall|i: int|
            0 <= i < self.entries@.len() ==> (#[trigger] self.entries@[i]).wf())
    }

    /// What `holder` has of `asset`; a key never written holds zero.
    pub open spec fn spec_get(&self, h: Seq<u8>, a: Seq<u8>) -> u64 {
        if self@.contains_key((h, a)) {
            self@[(h, a)]
        } else {
            0
        }
    }

    pub fn new() -> (r: BalanceTable)
        ensures
            r.wf(),
            r@ == Map::<(Seq<u8>, Seq<u8>), u64>::empty(),
    {
        let r = BalanceTable { entries: Vec::new() };
        proof {
            assert(r@ =~= Map::<(Seq<u8>, Seq<u8>), u64>::empty());
        }
        r
    }

    fn find(&self, holder: &Address, asset: &Address) -> (r: Option<usize>)
        requires
            self.wf(),
        ensures
            (match r {
                Some(i) => i < self.entries@.len()
                    && self.entries@[i as int].key() == (holder@, asset@)
                    && self@.contains_key((holder@, asset@))
                    && self@[(holder@, asset@)] == self.entries@[i as int].amount,
                None => !self@.contains_key((holder@, asset@)),
            }),
    {
        let mut i: usize = 0;
        while i < self.entries.len()
            invariant
                self.wf(),
                i <= self.entries@.len(),
                forall|j: int| 0 <= j < i ==> self.entries@[j].key() != (holder@, asset@),
            decreases self.entries@.len() - i,
        {
            if addr_eq(&self.entries[i].holder, holder) && addr_eq(&self.entries[i].asset, asset) {
                proof {
                    lemma_bmap_at(self.entries@, i as int);
                }
                return Some(i);
            }
            i = i + 1;
        }
        None
    }

    /// What `holder` has of `asset` on the modeled ledger.
    pub fn get(&self, holder: &Address, asset: &Address) -> (r: u64)
        requires
            self.wf(),
        ensures
            r == self.spec_get(holder@, asset@),
    {
        match self.find(holder, asset) {
            Some(i) => self.entries[i].amount,
            None => 0,
        }
    }

    /// Sets what `holder` has of `asset`.
    pub fn set(&mut self, holder: &Address, asset: &Address, amount: u64)
        requires
            old(self).wf(),
            holder.wf(),
            asset.wf(),
        ensures
            final(self).wf(),
            final(self)@ == old(self)@.insert((holder@, asset@), amount),
    {
        match self.find(holder, asset) {
            Some(i) => {
                let entry = BalanceEntry { holder: holder.dup(), asset: asset.dup(), amount };
                proof {
                    lemma_bmap_update(self.entries@, i as int, entry);
                }
                self.entries.set(i, entry);
            },
            None => {
                let entry = BalanceEntry { holder: holder.dup(), asset: asset.dup(), amount };
                proof {
                    lemma_bmap_push(self.entries@, entry);
                }
                self.entries.push(entry);
            },
        }
    }
}

} // verus!
