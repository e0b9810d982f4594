use std::collections::BTreeMap;
use vstd::prelude::*;

use crate::accounts::Account;
use crate::events::Event;
use crate::session::SettlementSession;
use crate::vault::Vault;

verus! {

/// What the demonstration run leaves behind.
#[derive(Clone, Debug)]
pub struct DemoReport {
    pub accounts: BTreeMap<u64, Account>,
    pub vaults: BTreeMap<u64, Vault>,
    pub sessions: BTreeMap<u64, SettlementSession>,
    pub events: Vec<Event>,
}

/// The figures of a report that the console shows.
#[derive(Copy, Clone, Debug, PartialEq, Eq)]
pub struct DemoSummary {
    pub accounts: usize,
    pub tracked_balances: usize,
    pub vaults: usize,
    pub reserve_units: u128,
    pub sessions: usize,
    pub events: usize,
}

/// The sum of `f` over the values of `m` under `keys`, in that order.
pub open spec fn keyed_sum<V>(m: Map<u64, V>, keys: Seq<u64>, f: spec_fn(V) -> int) -> int
    decreases keys.len(),
{
    if keys.len() == 0 {
        0
    } else {
        keyed_sum(m, keys.drop_last(), f) + f(m[keys.last()])
    }
}

/// The sum of `f` over all values of a finite map.
pub open spec fn map_sum<V>(m: Map<u64, V>, f: spec_fn(V) -> int) -> int
    decreases m.dom().len(),
    when m.dom().finite()
{
    if m.dom().len() == 0 {
        0
    } else {
        let k = m.dom().choose();
        f(m[k]) + map_sum(m.remove(k), f)
    }
}

/// The number of balances an account tracks.
pub open spec fn balance_count() -> spec_fn(Account) -> int {
    |a: Account| a@.balances.len() as int
}

/// The reserve of a vault.
pub open spec fn reserve_units() -> spec_fn(Vault) -> int {
    |v: Vault| v.reserve.0 as int
}

pub(crate) proof fn lemma_map_sum_remove<V>(m: Map<u64, V>, f: spec_fn(V) -> int, k: u64)
    requires
        m.dom().finite(),
        m.contains_key(k),
    ensures
        map_sum(m, f) == f(m[k]) + map_sum(m.remove(k), f),
    decreases m.dom().len(),
{
    let c = m.dom().choose();
    if c != k {
        lemma_map_sum_remove(m.remove(c), f, k);
        lemma_map_sum_remove(m.remove(k), f, c);
        assert(m.remove(c).remove(k) =~= m.remove(k).remove(c));
    }
}

pub(crate) proof fn lemma_map_sum_empty<V>(m: Map<u64, V>, f: spec_fn(V) -> int)
    requires
        m.dom() == Set::<u64>::empty(),
    ensures
        map_sum(m, f) == 0,
{
}

proof fn lemma_keyed_sum_frame<V>(m: Map<u64, V>, m2: Map<u64, V>, keys: Seq<u64>, f: spec_fn(V) -> int)
    requires
        forall|i: int| 0 <= i < keys.len() ==> m2.contains_key(#[trigger] keys[i]) && m2[keys[i]]
            == m[keys[i]],
    ensures
        keyed_sum(m, keys, f) == keyed_sum(m2, keys, f),
    decreases keys.len(),
{
    if keys.len() > 0 {
        lemma_keyed_sum_frame(m, m2, keys.drop_last(), f);
        assert(keys.last() == keys[keys.len() - 1]);
    }
}

/// Summing in the order of any duplicate-free enumeration of the keys gives
/// the sum over the map.
proof fn lemma_keyed_sum_is_map_sum<V>(m: Map<u64, V>, keys: Seq<u64>, f: spec_fn(V) -> int)
    requires
        keys.no_duplicates(),
        keys.to_set() == m.dom(),
    ensures
        m.dom().finite(),
        keyed_sum(m, keys, f) == map_sum(m, f),
    decreases keys.len(),
{
    keys.lemma_cardinality_of_set();
    vstd::seq_lib::seq_to_set_is_finite(keys);
    if keys.len() == 0 {
        assert(m.dom() =~= Set::empty());
    } else {
        let k = keys.last();
        let rest = keys.drop_last();
        let m2 = m.remove(k);
        assert(keys =~= rest.push(k));
        assert(rest.no_duplicates());
        assert(!rest.contains(k)) by {
            if rest.contains(k) {
                let i = choose|i: int| 0 <= i < rest.len() && rest[i] == k;
                assert(keys[i] == keys[keys.len() - 1]);
            }
        }
        assert(rest.to_set() =~= m2.dom()) by {
            assert forall|x: u64| rest.to_set().contains(x) <==> m2.dom().contains(x) by {
                if rest.contains(x) {
                    let i = choose|i: int| 0 <= i < rest.len() && rest[i] == x;
                    assert(keys[i] == x);
                    assert(keys.contains(x));
                }
                if m2.dom().contains(x) {
                    assert(keys.to_set().contains(x));
                    let i = choose|i: int| 0 <= i < keys.len() && keys[i] == x;
                    assert(i != keys.len() - 1);
                    assert(rest[i] == x);
                }
            }
        }
        assert(keys.contains(k)) by {
            assert(keys[keys.len() - 1] == k);
        }
        lemma_keyed_sum_is_map_sum(m2, rest, f);
        lemma_keyed_sum_frame(m, m2, rest, f);
        lemma_map_sum_remove(m, f, k);
    }
}

proof fn lemma_keyed_sum_prefix<V>(m: Map<u64, V>, keys: Seq<u64>, f: spec_fn(V) -> int, i: int)
    requires
        0 <= i <= keys.len(),
        forall|v: V| #[trigger] f(v) >= 0,
    ensures
        keyed_sum(m, keys.take(i), f) <= keyed_sum(m, keys, f),
    decreases keys.len(),
{
    if i < keys.len() {
        assert(keys.drop_last().take(i) =~= keys.take(i));
        lemma_keyed_sum_prefix(m, keys.drop_last(), f, i);
    } else {
        assert(keys.take(i) =~= keys);
    }
}

proof fn lemma_keyed_sum_step<V>(m: Map<u64, V>, keys: Seq<u64>, f: spec_fn(V) -> int, i: int)
    requires
        0 <= i < keys.len(),
    ensures
        keyed_sum(m, keys.take(i + 1), f) == keyed_sum(m, keys.take(i), f) + f(m[keys[i]]),
{
    assert(keys.take(i + 1).drop_last() =~= keys.take(i));
}

impl DemoReport {
    /// Counts the accounts, the balances they track, the vaults, the sessions
    /// and the log entries, and adds up the reserves of all vaults.
    pub fn summary(&self) -> (summary: DemoSummary)
        requires
            map_sum(self.accounts@, balance_count()) <= usize::MAX,
            map_sum(self.vaults@, reserve_units()) <= u128::MAX,
        ensures
            summary.accounts == self.accounts@.len(),
            summary.tracked_balances == map_sum(self.accounts@, balance_count()),
            summary.vaults == self.vaults@.len(),
            summary.reserve_units == map_sum(self.vaults@, reserve_units()),
            summary.sessions == self.sessions@.len(),
            summary.events == self.events@.len(),
    {
        let mut tracked_balances: usize = 0;
        for k in it: self.accounts.keys()
            invariant
                it.seq().no_duplicates(),
                it.seq().unref().to_set() == self.accounts@.dom(),
                tracked_balances == keyed_sum(
                    self.accounts@,
                    it.seq().unref().take(it.index() as int),
                    balance_count(),
                ),
                it.index() == it.seq().len() ==> tracked_balances == map_sum(self.accounts@, balance_count()),
                map_sum(self.accounts@, balance_count()) <= usize::MAX,
        {
            let ghost keys = it.seq().unref();
            let ghost i = it.index() as int;
            proof {
                assert(keys.no_duplicates()) by {
                    assert forall|a: int, b: int| 0 <= a < b < keys.len() implies keys[a] != keys[b] by {
                        assert(it.seq()[a] != it.seq()[b]);
                    }
                }
                lemma_keyed_sum_step(self.accounts@, keys, balance_count(), i);
                assert forall|x| #[trigger] balance_count()(x) >= 0 by {}
                lemma_keyed_sum_prefix(self.accounts@, keys, balance_count(), i + 1);
                assert(keys.take(keys.len() as int) =~= keys);
                lemma_keyed_sum_is_map_sum(self.accounts@, keys, balance_count());
                assert(keys[i] == *k);
                assert(keys.contains(*k));
            }
            let n: usize = match self.accounts.get(k) {
                Some(account) => account.balances().len(),
                None => 0,
            };
            assert(n == balance_count()(self.accounts@[*k]));
            tracked_balances = tracked_balances + n;
        }
        let mut reserve_total: u128 = 0;
        for k in it: self.vaults.keys()
            invariant
                it.seq().no_duplicates(),
                it.seq().unref().to_set() == self.vaults@.dom(),
                reserve_total == keyed_sum(
                    self.vaults@,
                    it.seq().unref().take(it.index() as int),
                    reserve_units(),
                ),
                it.index() == it.seq().len() ==> reserve_total == map_sum(self.vaults@, reserve_units()),
                map_sum(self.vaults@, reserve_units()) <= u128::MAX,
        {
            let ghost keys = it.seq().unref();
            let ghost i = it.index() as int;
            proof {
                assert(keys.no_duplicates()) by {
                    assert forall|a: int, b: int| 0 <= a < b < keys.len() implies keys[a] != keys[b] by {
                        assert(it.seq()[a] != it.seq()[b]);
                    }
                }
                lemma_keyed_sum_step(self.vaults@, keys, reserve_units(), i);
                assert forall|x| #[trigger] reserve_units()(x) >= 0 by {}
                lemma_keyed_sum_prefix(self.vaults@, keys, reserve_units(), i + 1);
                assert(keys.take(keys.len() as int) =~= keys);
                lemma_keyed_sum_is_map_sum(self.vaults@, keys, reserve_units());
                assert(keys[i] == *k);
                assert(keys.contains(*k));
            }
            let r: u128 = match self.vaults.get(k) {
                Some(vault) => vault.reserve.0,
                None => 0,
            };
            assert(r == reserve_units()(self.vaults@[*k]));
            reserve_total = reserve_total + r;
        }
        DemoSummary {
            accounts: self.accounts.len(),
            tracked_balances,
            vaults: self.vaults.len(),
            reserve_units: reserve_total,
            sessions: self.sessions.len(),
            events: self.events.len(),
        }
    }
}

} // verus!
