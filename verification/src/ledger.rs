//! The ledger of balances: what each bidder holds in escrow on one listing.

use vstd::prelude::*;
use crate::identity::Identity;

verus! {

/// The escrow of one bidder on one listing.
#[derive(Clone, Copy, Debug)]
pub struct BalanceEntry {
    pub bidder: Identity,
    /// What the bidder may still get back or, while leading, will pay.
    pub escrowed_amount: u64,
    /// When the bidder last bid.
    pub time: i64,
}

/// Whether `bidder` has an entry.
pub open spec fn holds(ledger: Seq<BalanceEntry>, bidder: Identity) -> bool {
    exists|i: int| 0 <= i < ledger.len() && (#[trigger] ledger[i]).bidder == bidder
}

/// The place of the entry of `bidder`, if there is one.
pub open spec fn slot_of(ledger: Seq<BalanceEntry>, bidder: Identity) -> int {
    choose|i: int| 0 <= i < ledger.len() && (#[trigger] ledger[i]).bidder == bidder
}

/// No bidder has two entries.
pub open spec fn distinct(ledger: Seq<BalanceEntry>) -> bool {
    forall|i: int, j: int|
        0 <= i < j < ledger.len() ==> (#[trigger] ledger[i]).bidder != (#[trigger] ledger[j]).bidder
}

/// What `bidder` holds in escrow: nothing without an entry.
pub open spec fn balance(ledger: Seq<BalanceEntry>, bidder: Identity) -> u64 {
    if holds(ledger, bidder) {
        ledger[slot_of(ledger, bidder)].escrowed_amount
    } else {
        0
    }
}

/// When `bidder` last bid: zero without an entry.
pub open spec fn last_bid_time(ledger: Seq<BalanceEntry>, bidder: Identity) -> i64 {
    if holds(ledger, bidder) {
        ledger[slot_of(ledger, bidder)].time
    } else {
        0
    }
}

/// The sum of all balances.
pub open spec fn total(ledger: Seq<BalanceEntry>) -> int
    decreases ledger.len(),
{
    if ledger.len() == 0 {
        0
    } else {
        total(ledger.drop_last()) + ledger.last().escrowed_amount
    }
}

/// The largest balance: zero for an empty ledger.
pub open spec fn peak(ledger: Seq<BalanceEntry>) -> int
    decreases ledger.len(),
{
    if ledger.len() == 0 {
        0
    } else if peak(ledger.drop_last()) >= ledger.last().escrowed_amount {
        peak(ledger.drop_last())
    } else {
        ledger.last().escrowed_amount as int
    }
}

/// The ledger once `amount` is added to what `bidder` holds, at `time`.
pub open spec fn credited(ledger: Seq<BalanceEntry>, bidder: Identity, amount: u64, time: i64) -> Seq<
    BalanceEntry,
> {
    if holds(ledger, bidder) {
        let at = slot_of(ledger, bidder);
        ledger.update(
            at,
            BalanceEntry { bidder, escrowed_amount: (ledger[at].escrowed_amount + amount) as u64, time },
        )
    } else {
        ledger.push(BalanceEntry { bidder, escrowed_amount: amount, time })
    }
}

/// The ledger once what `bidder` holds is set to `amount`, at `time`.
pub open spec fn with_balance(ledger: Seq<BalanceEntry>, bidder: Identity, amount: u64, time: i64) -> Seq<
    BalanceEntry,
> {
    if holds(ledger, bidder) {
        ledger.update(slot_of(ledger, bidder), BalanceEntry { bidder, escrowed_amount: amount, time })
    } else {
        ledger.push(BalanceEntry { bidder, escrowed_amount: amount, time })
    }
}

/// The entry `entry` with nothing left in it.
pub open spec fn emptied(entry: BalanceEntry) -> BalanceEntry {
    BalanceEntry { escrowed_amount: 0, ..entry }
}

/// The ledger once the balance of `bidder` is set to zero.
pub open spec fn closed(ledger: Seq<BalanceEntry>, bidder: Identity) -> Seq<BalanceEntry> {
    if holds(ledger, bidder) {
        let at = slot_of(ledger, bidder);
        ledger.update(at, emptied(ledger[at]))
    } else {
        ledger
    }
}

/// The ledger once every balance is set to zero.
pub open spec fn all_closed(ledger: Seq<BalanceEntry>) -> Seq<BalanceEntry> {
    Seq::new(ledger.len(), |i: int| emptied(ledger[i]))
}

/// In a ledger without doubles, the entry of a bidder is where one finds it.
pub proof fn lemma_slot_unique(ledger: Seq<BalanceEntry>, bidder: Identity, i: int)
    requires
        distinct(ledger),
        0 <= i < ledger.len(),
        ledger[i].bidder == bidder,
    ensures
        holds(ledger, bidder),
        slot_of(ledger, bidder) == i,
{
    let at = slot_of(ledger, bidder);
    assert(0 <= at < ledger.len() && ledger[at].bidder == bidder);
    if at < i {
        assert(ledger[at].bidder != ledger[i].bidder);
    } else if i < at {
        assert(ledger[i].bidder != ledger[at].bidder);
    }
}

/// The sum is never negative and no balance exceeds it.
pub proof fn lemma_total_bounds(ledger: Seq<BalanceEntry>)
    ensures
        0 <= total(ledger),
        forall|i: int| 0 <= i < ledger.len() ==> (#[trigger] ledger[i]).escrowed_amount <= total(ledger),
    decreases ledger.len(),
{
    if ledger.len() > 0 {
        let front = ledger.drop_last();
        lemma_total_bounds(front);
        assert forall|i: int| 0 <= i < ledger.len() implies (#[trigger] ledger[i]).escrowed_amount
            <= total(ledger) by {
            if i < front.len() {
                assert(front[i] == ledger[i]);
            }
        }
    }
}

/// Appending an entry adds its balance to the sum.
pub proof fn lemma_total_push(ledger: Seq<BalanceEntry>, entry: BalanceEntry)
    ensures
        total(ledger.push(entry)) == total(ledger) + entry.escrowed_amount,
{
    assert(ledger.push(entry).drop_last() =~= ledger);
}

/// Replacing an entry changes the sum by the difference of the balances.
pub proof fn lemma_total_update(ledger: Seq<BalanceEntry>, i: int, entry: BalanceEntry)
    requires
        0 <= i < ledger.len(),
    ensures
        total(ledger.update(i, entry)) == total(ledger) - ledger[i].escrowed_amount
            + entry.escrowed_amount,
    decreases ledger.len(),
{
    let after = ledger.update(i, entry);
    if i == ledger.len() - 1 {
        assert(after.drop_last() =~= ledger.drop_last());
    } else {
        lemma_total_update(ledger.drop_last(), i, entry);
        assert(after.drop_last() =~= ledger.drop_last().update(i, entry));
    }
}

/// A ledger with every balance at zero sums to zero.
pub proof fn lemma_total_all_closed(ledger: Seq<BalanceEntry>)
    ensures
        total(all_closed(ledger)) == 0,
    decreases ledger.len(),
{
    if ledger.len() > 0 {
        lemma_total_all_closed(ledger.drop_last());
        assert(all_closed(ledger).drop_last() =~= all_closed(ledger.drop_last()));
    }
}

/// The largest balance bounds every balance, and some entry holds it unless
/// it is zero.
pub proof fn lemma_peak_bounds(ledger: Seq<BalanceEntry>)
    ensures
        0 <= peak(ledger),
        forall|i: int| 0 <= i < ledger.len() ==> (#[trigger] ledger[i]).escrowed_amount <= peak(ledger),
        peak(ledger) > 0 ==> exists|i: int|
            0 <= i < ledger.len() && (#[trigger] ledger[i]).escrowed_amount == peak(ledger),
    decreases ledger.len(),
{
    if ledger.len() > 0 {
        let front = ledger.drop_last();
        lemma_peak_bounds(front);
        assert forall|i: int| 0 <= i < ledger.len() implies (#[trigger] ledger[i]).escrowed_amount
            <= peak(ledger) by {
            if i < front.len() {
                assert(front[i] == ledger[i]);
            }
        }
        if peak(ledger) > 0 {
            if peak(front) >= ledger.last().escrowed_amount {
                let i = choose|i: int|
                    0 <= i < front.len() && (#[trigger] front[i]).escrowed_amount == peak(front);
                assert(ledger[i] == front[i]);
            } else {
                assert(ledger[ledger.len() - 1].escrowed_amount == peak(ledger));
            }
        }
    }
}

/// A bound on every balance that some entry reaches, or that is zero, is the
/// largest balance.
pub proof fn lemma_peak_is(ledger: Seq<BalanceEntry>, bound: int)
    requires
        forall|i: int| 0 <= i < ledger.len() ==> (#[trigger] ledger[i]).escrowed_amount <= bound,
        bound == 0 || exists|i: int|
            0 <= i < ledger.len() && (#[trigger] ledger[i]).escrowed_amount == bound,
    ensures
        peak(ledger) == bound,
{
    lemma_peak_bounds(ledger);
    if bound != 0 {
        let i = choose|i: int| 0 <= i < ledger.len() && (#[trigger] ledger[i]).escrowed_amount == bound;
        assert(ledger[i].escrowed_amount <= peak(ledger));
    }
    if peak(ledger) > 0 {
        let j = choose|j: int|
            0 <= j < ledger.len() && (#[trigger] ledger[j]).escrowed_amount == peak(ledger);
        assert(ledger[j].escrowed_amount <= bound);
    }
}

/// The balances of the bidders of one listing, one entry for each bidder, in
/// the order in which they first bid.
#[derive(Debug)]
pub struct Ledger {
    pub entries: Vec<BalanceEntry>,
}

impl View for Ledger {
    type V = Seq<BalanceEntry>;

    open spec fn view(&self) -> Seq<BalanceEntry> {
        self.entries@
    }
}

impl Ledger {
    /// No bidder has two entries.
    pub open spec fn wf(self) -> bool {
        distinct(self@)
    }

    /// A ledger without entries.
    pub fn new() -> (ledger: Ledger)
        ensures
            ledger@ == Seq::<BalanceEntry>::empty(),
            ledger.wf(),
    {
        Ledger { entries: Vec::new() }
    }

    /// Tells whether no bidder has two entries.
    pub fn is_distinct(&self) -> (ok: bool)
        ensures
            ok == self.wf(),
    {
        let mut j: usize = 0;
        while j < self.entries.len()
            invariant
                j <= self.entries.len(),
                forall|a: int, b: int|
                    0 <= a < b < j ==> (#[trigger] self@[a]).bidder != (#[trigger] self@[b]).bidder,
            decreases self.entries.len() - j,
        {
            let mut i: usize = 0;
            while i < j
                invariant
                    i <= j < self.entries.len(),
                    forall|a: int| 0 <= a < i ==> (#[trigger] self@[a]).bidder != self@[j as int].bidder,
                decreases j - i,
            {
                if self.entries[i].bidder == self.entries[j].bidder {
                    return false;
                }
                i = i + 1;
            }
            j = j + 1;
        }
        true
    }

    /// The sum of all balances.
    pub fn sum(&self) -> (sum: u128)
        ensures
            sum == total(self@),
    {
        let mut sum: u128 = 0;
        let mut i: usize = 0;
        assert(self@.take(0) =~= Seq::<BalanceEntry>::empty());
        while i < self.entries.len()
            invariant
                i <= self.entries.len(),
                sum == total(self@.take(i as int)),
                sum <= i * 0xFFFF_FFFF_FFFF_FFFF,
            decreases self.entries.len() - i,
        {
            assert(self@.take(i + 1).drop_last() =~= self@.take(i as int));
            assert(i * 0xFFFF_FFFF_FFFF_FFFF + 0xFFFF_FFFF_FFFF_FFFF <= 0xFFFF_FFFF_FFFF_FFFF
                * 0xFFFF_FFFF_FFFF_FFFF + 0xFFFF_FFFF_FFFF_FFFF) by (nonlinear_arith)
                requires
                    0 <= i <= 0xFFFF_FFFF_FFFF_FFFF,
            ;
            sum = sum + self.entries[i].escrowed_amount as u128;
            i = i + 1;
        }
        assert(self@.take(i as int) =~= self@);
        sum
    }

    /// The largest balance: zero for an empty ledger.
    pub fn largest(&self) -> (largest: u64)
        ensures
            largest == peak(self@),
    {
        let mut largest: u64 = 0;
        let mut i: usize = 0;
        assert(self@.take(0) =~= Seq::<BalanceEntry>::empty());
        while i < self.entries.len()
            invariant
                i <= self.entries.len(),
                largest == peak(self@.take(i as int)),
            decreases self.entries.len() - i,
        {
            assert(self@.take(i + 1).drop_last() =~= self@.take(i as int));
            if self.entries[i].escrowed_amount > largest {
                largest = self.entries[i].escrowed_amount;
            }
            i = i + 1;
        }
        assert(self@.take(i as int) =~= self@);
        largest
    }

    /// The place of the entry of `bidder`.
    pub fn find(&self, bidder: &Identity) -> (at: Option<usize>)
        requires
            self.wf(),
        ensures
            at is Some <==> holds(self@, *bidder),
            at is Some ==> at->0 == slot_of(self@, *bidder),
    {
        let mut i: usize = 0;
        while i < self.entries.len()
            invariant
                i <= self.entries.len(),
                self.wf(),
                forall|j: int| 0 <= j < i ==> (#[trigger] self@[j]).bidder != *bidder,
            decreases self.entries.len() - i,
        {
            if self.entries[i].bidder == *bidder {
                proof {
                    lemma_slot_unique(self@, *bidder, i as int);
                }
                return Some(i);
            }
            i = i + 1;
        }
        None
    }

    /// What `bidder` holds in escrow.
    pub fn get(&self, bidder: &Identity) -> (amount: u64)
        requires
            self.wf(),
        ensures
            amount == balance(self@, *bidder),
    {
        match self.find(bidder) {
            Some(at) => self.entries[at].escrowed_amount,
            None => 0,
        }
    }

    /// When `bidder` last bid.
    pub fn time_of(&self, bidder: &Identity) -> (time: i64)
        requires
            self.wf(),
        ensures
            time == last_bid_time(self@, *bidder),
    {
        match self.find(bidder) {
            Some(at) => self.entries[at].time,
            None => 0,
        }
    }

    /// Sets what `bidder` holds to `amount` and notes `time` as the moment of
    /// the bidder's last bid.
    pub fn set(&mut self, bidder: Identity, amount: u64, time: i64)
        requires
            old(self).wf(),
        ensures
            final(self)@ == with_balance(old(self)@, bidder, amount, time),
            final(self).wf(),
            total(final(self)@) == total(old(self)@) - balance(old(self)@, bidder) + amount,
            balance(final(self)@, bidder) == amount,
            last_bid_time(final(self)@, bidder) == time,
            forall|other: Identity|
                other != bidder ==> balance(final(self)@, other) == balance(old(self)@, other),
    {
        let ghost before = self@;
        match self.find(&bidder) {
            Some(at) => {
                self.entries[at] = BalanceEntry { bidder, escrowed_amount: amount, time };
                proof {
                    lemma_total_update(before, at as int, self@[at as int]);
                    lemma_same_bidders(before, self@);
                    lemma_slot_unique(self@, bidder, at as int);
                }
            },
            None => {
                self.entries.push(BalanceEntry { bidder, escrowed_amount: amount, time });
                proof {
                    lemma_total_push(before, self@[before.len() as int]);
                    assert forall|i: int, j: int| 0 <= i < j < self@.len() implies (
                    #[trigger] self@[i]).bidder != (#[trigger] self@[j]).bidder by {
                        if j == before.len() {
                            assert(self@[i] == before[i]);
                        } else {
                            assert(self@[i] == before[i] && self@[j] == before[j]);
                        }
                    }
                    lemma_slot_unique(self@, bidder, before.len() as int);
                }
            },
        }
        proof {
            let after = self@;
            assert forall|other: Identity| other != bidder implies balance(after, other) == balance(
                before,
                other,
            ) by {
                if holds(before, other) {
                    let k = slot_of(before, other);
                    assert(after[k] == before[k]);
                    lemma_slot_unique(after, other, k);
                }
                if holds(after, other) {
                    let k = slot_of(after, other);
                    assert(k < before.len());
                    assert(before[k] == after[k]);
                }
            }
        }
    }

    /// Adds `amount` to what `bidder` holds and notes `time` as the moment of
    /// the bidder's last bid.
    pub fn add(&mut self, bidder: Identity, amount: u64, time: i64)
        requires
            old(self).wf(),
            balance(old(self)@, bidder) + amount <= u64::MAX,
        ensures
            final(self)@ == credited(old(self)@, bidder, amount, time),
            final(self).wf(),
            total(final(self)@) == total(old(self)@) + amount,
            balance(final(self)@, bidder) == balance(old(self)@, bidder) + amount,
            forall|other: Identity|
                other != bidder ==> balance(final(self)@, other) == balance(old(self)@, other),
    {
        proof {
            lemma_credited(self@, bidder, amount, time);
        }
        match self.find(&bidder) {
            Some(at) => {
                let sum: u64 = self.entries[at].escrowed_amount + amount;
                self.entries[at] = BalanceEntry { bidder, escrowed_amount: sum, time };
            },
            None => {
                self.entries.push(BalanceEntry { bidder, escrowed_amount: amount, time });
            },
        }
    }

    /// Sets what `bidder` holds to zero and returns what was there.
    pub fn zero(&mut self, bidder: &Identity) -> (released: u64)
        requires
            old(self).wf(),
        ensures
            final(self)@ == closed(old(self)@, *bidder),
            final(self).wf(),
            released == balance(old(self)@, *bidder),
            total(final(self)@) == total(old(self)@) - released,
            balance(final(self)@, *bidder) == 0,
            forall|other: Identity|
                other != *bidder ==> balance(final(self)@, other) == balance(old(self)@, other),
    {
        proof {
            lemma_closed(self@, *bidder);
        }
        match self.find(bidder) {
            Some(at) => {
                let entry = self.entries[at];
                self.entries[at] = BalanceEntry { bidder: entry.bidder, escrowed_amount: 0, time: entry.time };
                entry.escrowed_amount
            },
            None => 0,
        }
    }

    /// Sets every balance to zero.
    pub fn zero_all(&mut self)
        requires
            old(self).wf(),
        ensures
            final(self)@ == all_closed(old(self)@),
            final(self).wf(),
            total(final(self)@) == 0,
    {
        let mut i: usize = 0;
        while i < self.entries.len()
            invariant
                i <= self.entries.len(),
                self.entries.len() == old(self).entries.len(),
                forall|j: int| 0 <= j < i ==> (#[trigger] self@[j]) == emptied(old(self)@[j]),
                forall|j: int| i <= j < self.entries.len() ==> (#[trigger] self@[j]) == old(self)@[j],
            decreases self.entries.len() - i,
        {
            let ghost before = self@;
            let entry = self.entries[i];
            assert(entry == old(self)@[i as int]);
            self.entries[i] = BalanceEntry { bidder: entry.bidder, escrowed_amount: 0, time: entry.time };
            assert(self@ == before.update(i as int, emptied(entry)));
            i = i + 1;
        }
        proof {
            assert(self@ =~= all_closed(old(self)@));
            lemma_total_all_closed(old(self)@);
            lemma_same_bidders(old(self)@, self@);
        }
    }
}

/// What crediting does to the sum, to the balances and to the ledger's shape.
pub proof fn lemma_credited(ledger: Seq<BalanceEntry>, bidder: Identity, amount: u64, time: i64)
    requires
        distinct(ledger),
        balance(ledger, bidder) + amount <= u64::MAX,
    ensures
        distinct(credited(ledger, bidder, amount, time)),
        total(credited(ledger, bidder, amount, time)) == total(ledger) + amount,
        holds(credited(ledger, bidder, amount, time), bidder),
        balance(credited(ledger, bidder, amount, time), bidder) == balance(ledger, bidder) + amount,
        last_bid_time(credited(ledger, bidder, amount, time), bidder) == time,
        forall|k: int|
            0 <= k < credited(ledger, bidder, amount, time).len() ==> {
                let entry = #[trigger] credited(ledger, bidder, amount, time)[k];
                ||| entry.bidder == bidder && entry.escrowed_amount == balance(ledger, bidder) + amount
                ||| k < ledger.len() && entry == ledger[k]
            },
        forall|other: Identity|
            other != bidder ==> holds(credited(ledger, bidder, amount, time), other) == holds(
                ledger,
                other,
            ) && balance(credited(ledger, bidder, amount, time), other) == balance(ledger, other)
                && last_bid_time(credited(ledger, bidder, amount, time), other) == last_bid_time(
                ledger,
                other,
            ),
{
    let after = credited(ledger, bidder, amount, time);
    if holds(ledger, bidder) {
        let at = slot_of(ledger, bidder);
        let entry = BalanceEntry { bidder, escrowed_amount: (ledger[at].escrowed_amount + amount) as u64, time };
        lemma_total_update(ledger, at, entry);
        lemma_same_bidders(ledger, after);
        lemma_slot_unique(after, bidder, at);
        assert forall|other: Identity| other != bidder implies balance(after, other) == balance(
            ledger,
            other,
        ) && last_bid_time(after, other) == last_bid_time(ledger, other) by {
            if holds(ledger, other) {
                let k = slot_of(ledger, other);
                assert(after[k] == ledger[k]);
                lemma_slot_unique(after, other, k);
            }
        }
    } else {
        let entry = BalanceEntry { bidder, escrowed_amount: amount, time };
        lemma_total_push(ledger, entry);
        assert forall|i: int, j: int| 0 <= i < j < after.len() implies (#[trigger] after[i]).bidder != (
        #[trigger] after[j]).bidder by {
            if j == ledger.len() {
                assert(after[i] == ledger[i]);
            } else {
                assert(after[i] == ledger[i] && after[j] == ledger[j]);
            }
        }
        lemma_slot_unique(after, bidder, ledger.len() as int);
        assert forall|other: Identity| other != bidder implies holds(after, other) == holds(
            ledger,
            other,
        ) && balance(after, other) == balance(ledger, other) && last_bid_time(after, other)
            == last_bid_time(ledger, other) by {
            if holds(ledger, other) {
                let k = slot_of(ledger, other);
                assert(after[k] == ledger[k]);
                lemma_slot_unique(after, other, k);
            }
            if holds(after, other) {
                let k = slot_of(after, other);
                assert(k < ledger.len());
                assert(ledger[k] == after[k]);
            }
        }
    }
}

/// What closing a balance does to the sum, to the balances and to the
/// ledger's shape.
pub proof fn lemma_closed(ledger: Seq<BalanceEntry>, bidder: Identity)
    requires
        distinct(ledger),
    ensures
        distinct(closed(ledger, bidder)),
        closed(ledger, bidder).len() == ledger.len(),
        forall|k: int|
            0 <= k < ledger.len() ==> (#[trigger] closed(ledger, bidder)[k]).escrowed_amount
                <= ledger[k].escrowed_amount,
        total(closed(ledger, bidder)) == total(ledger) - balance(ledger, bidder),
        balance(closed(ledger, bidder), bidder) == 0,
        forall|other: Identity|
            holds(closed(ledger, bidder), other) == holds(ledger, other) && last_bid_time(
                closed(ledger, bidder),
                other,
            ) == last_bid_time(ledger, other),
        forall|other: Identity|
            other != bidder ==> balance(closed(ledger, bidder), other) == balance(ledger, other),
{
    let after = closed(ledger, bidder);
    lemma_same_bidders(ledger, after);
    if holds(ledger, bidder) {
        let at = slot_of(ledger, bidder);
        lemma_total_update(ledger, at, emptied(ledger[at]));
        lemma_slot_unique(after, bidder, at);
    }
    assert forall|other: Identity|
        last_bid_time(after, other) == last_bid_time(ledger, other) && (other != bidder ==> balance(
            after,
            other,
        ) == balance(ledger, other)) by {
        if holds(ledger, other) {
            let k = slot_of(ledger, other);
            assert(after[k].bidder == ledger[k].bidder);
            lemma_slot_unique(after, other, k);
        }
    }
}

/// Two ledgers with the same bidders at the same places hold entries for the
/// same bidders, and one is without doubles if the other is.
pub proof fn lemma_same_bidders(before: Seq<BalanceEntry>, after: Seq<BalanceEntry>)
    requires
        before.len() == after.len(),
        forall|i: int| 0 <= i < before.len() ==> (#[trigger] after[i]).bidder == before[i].bidder,
    ensures
        distinct(before) ==> distinct(after),
        forall|who: Identity| holds(after, who) == holds(before, who),
{
    if distinct(before) {
        assert forall|i: int, j: int| 0 <= i < j < after.len() implies (#[trigger] after[i]).bidder != (
        #[trigger] after[j]).bidder by {
            assert(before[i].bidder != before[j].bidder);
        }
    }
    assert forall|who: Identity| holds(after, who) == holds(before, who) by {
        if holds(before, who) {
            let k = slot_of(before, who);
            assert(after[k].bidder == who);
        }
        if holds(after, who) {
            let k = slot_of(after, who);
            assert(before[k].bidder == who);
        }
    }
}

} // verus!
