//! The rolling cost series behind a cost plot, and its two trimming rules.
use vstd::prelude::*;
use vstd::arithmetic::div_mod::lemma_fundamental_div_mod_converse;

verus! {

/// How many of the oldest costs one compaction drops.
pub const CHUNK: usize = 100;

/// The cost recorded at each training tick, oldest first.
#[derive(Debug)]
pub struct CostHistory {
    /// Costs in fixed point, oldest first.
    pub costs: Vec<u64>,
    /// Training epochs seen so far.
    pub epochs: usize,
    /// Whether each tick may drop the oldest cost.
    pub expire: bool,
    /// A tick drops the oldest cost when the epoch count is a multiple of
    /// `expire_every + 1`.
    pub expire_every: usize,
}

/// The epoch count after `delta` more epochs, held at `usize::MAX`.
pub open spec fn epochs_after(epochs: nat, delta: nat) -> nat {
    if epochs + delta <= usize::MAX {
        epochs + delta
    } else {
        usize::MAX as nat
    }
}

/// A tick that ends at epoch `epoch` drops the oldest cost.
pub open spec fn trims_at(expire: bool, every: nat, epoch: nat) -> bool {
    expire && epoch % (every + 1) == 0
}

/// The series after `cost` is appended, with the oldest entry dropped when
/// `trim` holds and one is there.
pub open spec fn pushed(costs: Seq<u64>, cost: u64, trim: bool) -> Seq<u64> {
    let grown = costs.push(cost);
    if trim {
        grown.subrange(1, grown.len() as int)
    } else {
        grown
    }
}

/// The series after one compaction: over `2 * CHUNK` entries lose the
/// oldest `CHUNK`; fewer stay as they are.
pub open spec fn compacted(costs: Seq<u64>) -> Seq<u64> {
    if costs.len() > 2 * CHUNK {
        costs.subrange(CHUNK as int, costs.len() as int)
    } else {
        costs
    }
}

/// The series after one `push` of one epoch per cost in `costs`, starting
/// from `start` at epoch `epoch` (while the epoch count stays below
/// `usize::MAX`, where `push` holds it).
pub open spec fn replay(start: Seq<u64>, epoch: nat, expire: bool, every: nat, costs: Seq<u64>) -> Seq<u64>
    decreases costs.len(),
{
    if costs.len() == 0 {
        start
    } else {
        pushed(
            replay(start, epoch, expire, every, costs.drop_last()),
            costs.last(),
            trims_at(expire, every, epoch + costs.len()),
        )
    }
}

/// How many multiples of `d` lie in `(from, from + n]`; from zero, that is
/// `n / d`.
pub open spec fn multiples_between(from: nat, n: nat, d: nat) -> int
    recommends
        d > 0,
{
    (from + n) / d - from / d
}

impl CostHistory {
    /// An empty series at epoch zero, without expiration.
    pub fn new() -> (r: Self)
        ensures
            r.costs@.len() == 0,
            r.epochs == 0,
            !r.expire,
            r.expire_every == 0,
    {
        CostHistory { costs: Vec::new(), epochs: 0, expire: false, expire_every: 0 }
    }

    /// Turns the per-tick trim on or off; `every` sets its period.
    pub fn set_expiration(&mut self, expire: bool, every: usize)
        ensures
            final(self).costs@ == old(self).costs@,
            final(self).epochs == old(self).epochs,
            final(self).expire == expire,
            final(self).expire_every == every,
    {
        self.expire = expire;
        self.expire_every = every;
    }

    /// Records the cost of a tick that ran `epochs` epochs; the epoch count
    /// stops at `usize::MAX`.
    pub fn push(&mut self, cost: u64, epochs: usize)
        ensures
            final(self).epochs == epochs_after(old(self).epochs as nat, epochs as nat),
            final(self).expire == old(self).expire,
            final(self).expire_every == old(self).expire_every,
            final(self).costs@ == pushed(
                old(self).costs@,
                cost,
                trims_at(old(self).expire, old(self).expire_every as nat, final(self).epochs as nat),
            ),
    {
        self.costs.push(cost);
        self.epochs = if self.epochs <= usize::MAX - epochs {
            self.epochs + epochs
        } else {
            usize::MAX
        };
        let period: u128 = self.expire_every as u128 + 1;
        if self.expire && (self.epochs as u128) % period == 0 {
            self.costs.remove(0);
        }
    }

    /// Drops the oldest `CHUNK` costs once the series holds over
    /// `2 * CHUNK`.
    pub fn compact(&mut self)
        ensures
            final(self).costs@ == compacted(old(self).costs@),
            final(self).epochs == old(self).epochs,
            final(self).expire == old(self).expire,
            final(self).expire_every == old(self).expire_every,
    {
        if self.costs.len() > 2 * CHUNK {
            let rest = self.costs.split_off(CHUNK);
            self.costs = rest;
        }
    }

    /// Forgets every cost and goes back to epoch zero.
    pub fn clear(&mut self)
        ensures
            final(self).costs@.len() == 0,
            final(self).epochs == 0,
            final(self).expire == old(self).expire,
            final(self).expire_every == old(self).expire_every,
    {
        self.costs = Vec::new();
        self.epochs = 0;
    }
}

proof fn lemma_div_step(x: nat, d: nat)
    requires
        d > 0,
    ensures
        (x + 1) % d == 0 ==> (x + 1) / d == x / d + 1,
        (x + 1) % d != 0 ==> (x + 1) / d == x / d,
{
    let q = x / d;
    let r = x % d;
    assert(x == q * d + r) by {
        vstd::arithmetic::div_mod::lemma_fundamental_div_mod(x as int, d as int);
        assert(d * q == q * d) by (nonlinear_arith);
    }
    if r + 1 < d {
        lemma_fundamental_div_mod_converse((x + 1) as int, d as int, q as int, (r + 1) as int);
    } else {
        assert((q + 1) * d == q * d + d) by (nonlinear_arith);
        lemma_fundamental_div_mod_converse((x + 1) as int, d as int, (q + 1) as int, 0);
    }
}

/// With expiration on, ticks of one epoch each drop exactly one cost per
/// epoch count reached that is a multiple of the period (`every + 1`), and
/// the series keeps the newest entries, in order.
pub proof fn lemma_expiration_trims(start: Seq<u64>, epoch: nat, every: nat, costs: Seq<u64>)
    ensures
        0 <= multiples_between(epoch, costs.len(), every + 1) <= costs.len(),
        replay(start, epoch, true, every, costs).len() == start.len() + costs.len()
            - multiples_between(epoch, costs.len(), every + 1),
        replay(start, epoch, true, every, costs) == (start + costs).subrange(
            multiples_between(epoch, costs.len(), every + 1),
            (start.len() + costs.len()) as int,
        ),
    decreases costs.len(),
{
    let d = every + 1;
    let n = costs.len();
    if n == 0 {
        assert((start + costs) =~= start);
        assert(start.subrange(0, start.len() as int) =~= start);
    } else {
        let prev = costs.drop_last();
        lemma_expiration_trims(start, epoch, every, prev);
        lemma_div_step((epoch + n - 1) as nat, d);
        let t = multiples_between(epoch, (n - 1) as nat, d);
        let before = (start + prev).subrange(t, (start.len() + n - 1) as int);
        let grown = before.push(costs.last());
        assert(grown =~= (start + costs).subrange(t, (start.len() + n) as int)) by {
            assert(costs =~= prev.push(costs.last()));
        }
        if trims_at(true, every, epoch + n) {
            assert(grown.subrange(1, grown.len() as int) =~= (start + costs).subrange(
                t + 1,
                (start.len() + n) as int,
            ));
        }
    }
}

/// From epoch zero, `n` ticks of one epoch each with expiration on drop
/// exactly `n / (every + 1)` costs: the oldest ones.
pub proof fn lemma_expiration_from_start(start: Seq<u64>, every: nat, costs: Seq<u64>)
    ensures
        replay(start, 0, true, every, costs).len() == start.len() + costs.len() - costs.len() / (
        every + 1),
        replay(start, 0, true, every, costs) == (start + costs).subrange(
            (costs.len() / (every + 1)) as int,
            (start.len() + costs.len()) as int,
        ),
{
    lemma_expiration_trims(start, 0, every, costs);
    assert(0nat / (every + 1) == 0) by (nonlinear_arith);
}

} // verus!
