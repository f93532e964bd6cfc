//! Resources, amounts, and storage ledgers.
use super::error::ModelError;
use super::id::ResourceId;
use crate::id_map::IdMap;
use vstd::prelude::*;

verus! {

/// A quantity of some resource.
#[derive(Debug, Clone, Copy, Hash, PartialEq, Eq, PartialOrd, Ord, Structural)]
pub struct Amount(pub u64);

#[derive(Debug, Clone, Hash, PartialEq, Eq)]
pub struct ResourceAmount {
    pub resource: ResourceId,
    pub amount: Amount,
}

/// The stocks that a storage holds, keyed by resource, and the capacity
/// that bounds their total, if any.
#[derive(Debug, Clone, PartialEq, Eq)]
pub struct ResourceLedger {
    pub contents: IdMap<Amount>,
    pub capacity: Option<Amount>,
}

/// The sum of the amounts.
pub open spec fn seq_total(s: Seq<Amount>) -> nat
    decreases s.len(),
{
    if s.len() == 0 {
        0
    } else {
        seq_total(s.drop_last()) + s.last().0 as nat
    }
}

/// The amount of `k` in `m`, zero without an entry.
pub open spec fn amount_in(m: Map<Seq<char>, Amount>, k: Seq<char>) -> u64 {
    if m.contains_key(k) {
        m[k].0
    } else {
        0
    }
}

/// The contents after `a` more of `k` came in.
pub open spec fn added(m: Map<Seq<char>, Amount>, k: Seq<char>, a: u64) -> Map<Seq<char>, Amount> {
    m.insert(k, Amount((amount_in(m, k) + a) as u64))
}

/// The contents after `a` of `k` went out; an entry that drops to zero goes.
pub open spec fn taken(m: Map<Seq<char>, Amount>, k: Seq<char>, a: u64) -> Map<Seq<char>, Amount> {
    if amount_in(m, k) == a {
        m.remove(k)
    } else {
        m.insert(k, Amount((amount_in(m, k) - a) as u64))
    }
}

proof fn lemma_total_update(s: Seq<Amount>, i: int, v: Amount)
    requires
        0 <= i < s.len(),
    ensures
        seq_total(s.update(i, v)) == seq_total(s) - s[i].0 + v.0,
    decreases s.len(),
{
    let t = s.update(i, v);
    if i == s.len() - 1 {
        assert(t.drop_last() =~= s.drop_last());
    } else {
        assert(t.drop_last() =~= s.drop_last().update(i, v));
        lemma_total_update(s.drop_last(), i, v);
    }
}

proof fn lemma_total_push(s: Seq<Amount>, v: Amount)
    ensures
        seq_total(s.push(v)) == seq_total(s) + v.0,
{
    assert(s.push(v).drop_last() =~= s);
}

proof fn lemma_total_remove(s: Seq<Amount>, i: int)
    requires
        0 <= i < s.len(),
    ensures
        seq_total(s.remove(i)) == seq_total(s) - s[i].0,
    decreases s.len(),
{
    let t = s.remove(i);
    if i == s.len() - 1 {
        assert(t =~= s.drop_last());
    } else {
        assert(t.drop_last() =~= s.drop_last().remove(i));
        lemma_total_remove(s.drop_last(), i);
    }
}

proof fn lemma_item_within_total(s: Seq<Amount>, i: int)
    requires
        0 <= i < s.len(),
    ensures
        s[i].0 <= seq_total(s),
    decreases s.len(),
{
    if i < s.len() - 1 {
        lemma_item_within_total(s.drop_last(), i);
    }
}

proof fn lemma_prefix_total(s: Seq<Amount>, i: int)
    requires
        0 <= i <= s.len(),
    ensures
        seq_total(s.take(i)) <= seq_total(s),
        i < s.len() ==> seq_total(s.take(i + 1)) == seq_total(s.take(i)) + s[i].0,
    decreases s.len(),
{
    if i < s.len() {
        assert(s.take(i + 1).drop_last() =~= s.take(i));
        lemma_prefix_total(s.drop_last(), i);
        assert(s.drop_last().take(i) =~= s.take(i));
    } else {
        assert(s.take(i) =~= s);
    }
}

/// Taking back what was just added restores the contents, unless the
/// resource had an entry holding zero, which the taking removes.
pub proof fn lemma_take_undoes_add(m: Map<Seq<char>, Amount>, k: Seq<char>, a: u64)
    requires
        a > 0,
        amount_in(m, k) + a <= u64::MAX,
        m.contains_key(k) ==> m[k].0 != 0,
    ensures
        taken(added(m, k, a), k, a) == m,
{
    let m2 = added(m, k, a);
    if m.contains_key(k) {
        assert(taken(m2, k, a) =~= m);
    } else {
        assert(taken(m2, k, a) =~= m);
    }
}

impl Default for ResourceLedger {
    fn default() -> (l: Self)
        ensures
            l.contents@ == Map::<Seq<char>, Amount>::empty(),
            l.capacity is None,
    {
        ResourceLedger::new()
    }
}

impl ResourceLedger {
    /// The total of all amounts held.
    pub open spec fn total(&self) -> nat {
        seq_total(self.contents.value_seq())
    }

    /// The amount of resource `k` held.
    pub open spec fn amount_of(&self, k: Seq<char>) -> u64 {
        amount_in(self.contents@, k)
    }

    /// An empty, unbounded ledger.
    pub fn new() -> (l: Self)
        ensures
            l.contents@ == Map::<Seq<char>, Amount>::empty(),
            l.total() == 0,
            l.capacity is None,
    {
        ResourceLedger { contents: IdMap::new(), capacity: None }
    }

    /// An empty ledger whose total may not pass `capacity`.
    pub fn with_capacity(capacity: u64) -> (l: Self)
        ensures
            l.contents@ == Map::<Seq<char>, Amount>::empty(),
            l.total() == 0,
            l.capacity == Some(Amount(capacity)),
    {
        ResourceLedger { contents: IdMap::new(), capacity: Some(Amount(capacity)) }
    }

    pub fn get_amount(&self, resource: &ResourceId) -> (a: Amount)
        ensures
            a.0 == self.amount_of(resource.0@),
    {
        match self.contents.get_value(&resource.0) {
            Some(a) => a,
            None => Amount(0),
        }
    }

    pub fn total_amount(&self) -> (a: Amount)
        requires
            self.total() <= u64::MAX,
        ensures
            a.0 == self.total(),
    {
        let ghost s = self.contents.value_seq();
        let n = self.contents.len();
        let mut total: u64 = 0;
        let mut i: usize = 0;
        while i < n
            invariant
                s == self.contents.value_seq(),
                n == s.len(),
                i <= n,
                seq_total(s) <= u64::MAX,
                total == seq_total(s.take(i as int)),
            decreases n - i,
        {
            proof {
                lemma_prefix_total(s, i as int);
                lemma_prefix_total(s, i + 1);
            }
            total = total + self.contents.value_at(i).0;
            i = i + 1;
        }
        proof {
            assert(s.take(n as int) =~= s);
        }
        Amount(total)
    }

    /// Puts `amount` more of `resource` in. A zero amount changes nothing; an
    /// amount that would take the total past the capacity is refused with the
    /// room that is left.
    pub fn add_amount(&mut self, resource: ResourceId, amount: Amount) -> (r: Result<
        (),
        ModelError,
    >)
        requires
            amount.0 > 0 ==> match old(self).capacity {
                Some(cap) => old(self).total() <= cap.0 && old(self).total() + amount.0
                    <= u64::MAX,
                None => old(self).amount_of(resource.0@) + amount.0 <= u64::MAX,
            },
        ensures
            amount.0 == 0 ==> r is Ok && *final(self) == *old(self),
            amount.0 > 0 ==> match old(self).capacity {
                Some(cap) => if old(self).total() + amount.0 > cap.0 {
                    r == Err::<(), ModelError>(
                        ModelError::CapacityExceeded {
                            resource,
                            attempted: amount.0,
                            available: (cap.0 - old(self).total()) as u64,
                        },
                    ) && *final(self) == *old(self)
                } else {
                    r is Ok
                },
                None => r is Ok,
            },
            r is Ok && amount.0 > 0 ==> {
                &&& final(self).contents@ == added(old(self).contents@, resource.0@, amount.0)
                &&& final(self).capacity == old(self).capacity
                &&& final(self).total() == old(self).total() + amount.0
            },
            r is Ok && amount.0 > 0 ==> (final(self).capacity matches Some(cap)
                ==> final(self).total() <= cap.0),
    {
        if amount.0 == 0 {
            return Ok(());
        }
        match self.capacity {
            Some(cap) => {
                let current_total = self.total_amount();
                if current_total.0 + amount.0 > cap.0 {
                    return Err(
                        ModelError::CapacityExceeded {
                            resource,
                            attempted: amount.0,
                            available: cap.0 - current_total.0,
                        },
                    );
                }
            },
            None => {},
        }
        let ghost s = self.contents.value_seq();
        let ghost k = resource.0@;
        let current = match self.contents.get_value(&resource.0) {
            Some(a) => {
                proof {
                    lemma_item_within_total(s, self.contents.slot(k));
                }
                a.0
            },
            None => 0,
        };
        let key = resource.0;
        self.contents.insert(key, Amount(current + amount.0));
        proof {
            if old(self).contents@.contains_key(k) {
                lemma_total_update(s, old(self).contents.slot(k), Amount((current + amount.0) as u64));
            } else {
                lemma_total_push(s, Amount((current + amount.0) as u64));
            }
        }
        Ok(())
    }

    /// Takes `amount` of `resource` out; an entry that drops to zero goes. A
    /// zero amount changes nothing; more than is held is refused with what is
    /// held.
    pub fn subtract_amount(&mut self, resource: &ResourceId, amount: Amount) -> (r: Result<
        (),
        ModelError,
    >)
        ensures
            amount.0 == 0 ==> r is Ok && *final(self) == *old(self),
            amount.0 > 0 && old(self).amount_of(resource.0@) < amount.0 ==> r == Err::<
                (),
                ModelError,
            >(
                ModelError::InsufficientResources {
                    resource: *resource,
                    requested: amount.0,
                    available: old(self).amount_of(resource.0@),
                },
            ) && *final(self) == *old(self),
            amount.0 > 0 && old(self).amount_of(resource.0@) >= amount.0 ==> {
                &&& r is Ok
                &&& final(self).contents@ == taken(old(self).contents@, resource.0@, amount.0)
                &&& final(self).capacity == old(self).capacity
                &&& final(self).total() == old(self).total() - amount.0
            },
    {
        if amount.0 == 0 {
            return Ok(());
        }
        let current = self.get_amount(resource);
        if current.0 < amount.0 {
            return Err(
                ModelError::InsufficientResources {
                    resource: resource.clone(),
                    requested: amount.0,
                    available: current.0,
                },
            );
        }
        let ghost s = self.contents.value_seq();
        let ghost k = resource.0@;
        match self.contents.get_value(&resource.0) {
            Some(val) => {
                let left = val.0 - amount.0;
                if left == 0 {
                    self.contents.remove(&resource.0);
                    proof {
                        lemma_total_remove(s, old(self).contents.slot(k));
                    }
                } else {
                    self.contents.insert(resource.0.clone(), Amount(left));
                    proof {
                        lemma_total_update(s, old(self).contents.slot(k), Amount(left));
                    }
                }
            },
            None => {},
        }
        Ok(())
    }
}

} // verus!
