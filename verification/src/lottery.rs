//! The lottery of a slot: which of a stakeholder's coins wins, if any.
//!
//! A coin draws a ticket from the slot's seed and wins where the ticket is
//! below the coin's threshold, `sigma1 * value + sigma2 * value^2` in the
//! base field. Of several winners the one of the greatest value is named.

use crate::bytes::le_value;
use crate::coins::LeadCoin;
use crate::curve::{commitment_to_base, curve_coordinates, pedersen_commitment_base};
use crate::field::{base_modulus, Base, Scalar};
use crate::hash::{poseidon_hash, poseidon_pair};
use vstd::arithmetic::div_mod::{lemma_add_mod_noop, lemma_mul_mod_noop_left};
use vstd::prelude::*;

verus! {

/// The winning threshold of a stake under two coefficients, in the base
/// field: `sigma1 * value + sigma2 * value^2`.
pub open spec fn threshold(sigma1: nat, sigma2: nat, value: u64) -> nat {
    ((sigma1 * value + sigma2 * value * value) % (base_modulus() as int)) as nat
}

/// The lottery ticket that a coin draws: the hash of the coordinates of the
/// commitment to the slot's seed under the hash of the key tree's root and
/// the coin's nonce, if that commitment has coordinates.
pub open spec fn lottery_ticket(y_mu: Seq<u8>, root_sk: Seq<u8>, nonce: Seq<u8>) -> Option<
    Seq<u8>,
> {
    match curve_coordinates(commitment_to_base(y_mu, poseidon_hash(seq![root_sk, nonce]))) {
        Some((x, y)) => Some(poseidon_hash(seq![x, y])),
        None => None,
    }
}

impl LeadCoin {
    /// The coin's winning threshold.
    pub open spec fn target(self) -> nat {
        threshold(self.sigma1.value(), self.sigma2.value(), self.value)
    }

    /// The coin's lottery ticket, if it has one.
    pub open spec fn ticket(self) -> Option<Seq<u8>> {
        lottery_ticket(self.y_mu@, self.root_sk@, self.nonce@)
    }

    /// Whether the coin wins with the ticket `y`: the ticket is below the
    /// threshold.
    pub open spec fn wins_with(self, y: Seq<u8>) -> bool {
        le_value(y) < self.target()
    }

    /// The coin's winning threshold.
    pub fn threshold(&self) -> (t: Base)
        ensures
            t.value() == self.target(),
    {
        let val_base = Base::from_u64(self.value);
        let linear = self.sigma1.times(&val_base);
        let square = self.sigma2.times(&val_base).times(&val_base);
        let t = linear.plus(&square);
        proof {
            let p = base_modulus() as int;
            let s1 = self.sigma1.value() as int;
            let s2 = self.sigma2.value() as int;
            let v = self.value as int;
            lemma_mul_mod_noop_left(s2 * v, v, p);
            lemma_add_mod_noop(s1 * v, s2 * v * v, p);
        }
        t
    }

    /// The coin's lottery ticket, if it has one.
    pub fn draw_ticket(&self) -> (y: Option<Base>)
        ensures
            match y {
                Some(t) => self.ticket() == Some(t@),
                None => self.ticket() is None,
            },
    {
        let y_exp_hash = poseidon_pair(&self.root_sk, &self.nonce);
        let commit = pedersen_commitment_base(&self.y_mu, &Scalar::from_base(&y_exp_hash));
        match commit.coordinates() {
            Some((y_x, y_y)) => Some(poseidon_pair(&y_x, &y_y)),
            None => None,
        }
    }
}

/// Whether coin `i` wins with its ticket.
pub open spec fn wins(tickets: Seq<Seq<u8>>, coins: Seq<LeadCoin>, i: int) -> bool {
    coins[i].wins_with(tickets[i])
}

/// Whether `(won, idx)` is what the lottery of one slot gives for these
/// coins and tickets.
///
/// The slot is won where some coin wins. The index is then that of the
/// winning coin of the greatest value, the first of them where several have
/// it. Where no coin of a value above zero wins, the index is zero and means
/// nothing.
pub open spec fn is_lottery_result(
    tickets: Seq<Seq<u8>>,
    coins: Seq<LeadCoin>,
    won: bool,
    idx: int,
) -> bool {
    let staked = exists|i: int|
        0 <= i < coins.len() && #[trigger] wins(tickets, coins, i) && coins[i].value > 0;
    &&& won <==> exists|i: int| 0 <= i < coins.len() && #[trigger] wins(tickets, coins, i)
    &&& !staked ==> idx == 0
    &&& staked ==> {
        &&& 0 <= idx < coins.len()
        &&& wins(tickets, coins, idx)
        &&& forall|j: int|
            0 <= j < coins.len() && #[trigger] wins(tickets, coins, j) ==> coins[j].value
                <= coins[idx].value
        &&& forall|j: int|
            0 <= j < idx && #[trigger] wins(tickets, coins, j) ==> coins[j].value
                < coins[idx].value
    }
}

/// The lottery of a slot has one result.
pub proof fn lemma_lottery_result_unique(
    tickets: Seq<Seq<u8>>,
    coins: Seq<LeadCoin>,
    won_a: bool,
    idx_a: int,
    won_b: bool,
    idx_b: int,
)
    requires
        is_lottery_result(tickets, coins, won_a, idx_a),
        is_lottery_result(tickets, coins, won_b, idx_b),
    ensures
        won_a == won_b,
        idx_a == idx_b,
{
    let staked = exists|i: int|
        0 <= i < coins.len() && #[trigger] wins(tickets, coins, i) && coins[i].value > 0;
    if staked {
        if idx_a < idx_b {
            assert(coins[idx_a].value < coins[idx_b].value);
            assert(coins[idx_b].value <= coins[idx_a].value);
        } else if idx_b < idx_a {
            assert(coins[idx_b].value < coins[idx_a].value);
            assert(coins[idx_a].value <= coins[idx_b].value);
        }
    }
}

/// A lone coin wins the slot where its ticket is below its threshold, and
/// only there.
pub proof fn lemma_lone_coin(ticket: Seq<u8>, coin: LeadCoin, won: bool, idx: int)
    requires
        is_lottery_result(seq![ticket], seq![coin], won, idx),
    ensures
        won <==> le_value(ticket) < threshold(
            coin.sigma1.value(),
            coin.sigma2.value(),
            coin.value,
        ),
{
    let tickets = seq![ticket];
    let coins = seq![coin];
    if wins(tickets, coins, 0) {
    }
}

/// Of two coins that both win, the one of the greater value is named.
pub proof fn lemma_greater_winner(
    tickets: Seq<Seq<u8>>,
    coins: Seq<LeadCoin>,
    won: bool,
    idx: int,
)
    requires
        tickets.len() == 2,
        coins.len() == 2,
        wins(tickets, coins, 0),
        wins(tickets, coins, 1),
        coins[0].value != coins[1].value,
        is_lottery_result(tickets, coins, won, idx),
    ensures
        won,
        0 <= idx < 2,
        coins[idx].value > coins[1 - idx].value,
{
    if coins[0].value > 0 {
    }
    if coins[1].value > 0 {
    }
}

/// The encodings of a sequence of field elements.
pub open spec fn base_views(xs: Seq<Base>) -> Seq<Seq<u8>> {
    xs.map_values(|x: Base| x@)
}

/// The lottery of one slot, given each coin's ticket: whether a coin wins,
/// and which of the winners has the greatest stake.
pub fn select_leader(tickets: &Vec<Base>, coins: &Vec<LeadCoin>) -> (r: (bool, usize))
    requires
        tickets@.len() == coins@.len(),
    ensures
        is_lottery_result(base_views(tickets@), coins@, r.0, r.1 as int),
{
    let ghost ts = base_views(tickets@);
    let mut won = false;
    let mut highest_stake: u64 = 0;
    let mut highest_stake_idx: usize = 0;
    let mut k: usize = 0;
    while k < coins.len()
        invariant
            k <= coins.len(),
            tickets@.len() == coins@.len(),
            ts == base_views(tickets@),
            won <==> exists|i: int| 0 <= i < k && #[trigger] wins(ts, coins@, i),
            highest_stake == 0 ==> highest_stake_idx == 0,
            highest_stake == 0 ==> forall|j: int|
                0 <= j < k && #[trigger] wins(ts, coins@, j) ==> coins@[j].value == 0,
            highest_stake > 0 ==> {
                &&& highest_stake_idx < k
                &&& wins(ts, coins@, highest_stake_idx as int)
                &&& coins@[highest_stake_idx as int].value == highest_stake
                &&& forall|j: int|
                    0 <= j < k && #[trigger] wins(ts, coins@, j) ==> coins@[j].value
                        <= highest_stake
                &&& forall|j: int|
                    0 <= j < highest_stake_idx && #[trigger] wins(ts, coins@, j)
                        ==> coins@[j].value < highest_stake
            },
        decreases coins.len() - k,
    {
        let target = coins[k].threshold();
        let winning = tickets[k].is_below(&target);
        assert(ts[k as int] == tickets@[k as int]@);
        assert(winning == wins(ts, coins@, k as int));
        if winning {
            won = true;
            if coins[k].value > highest_stake {
                highest_stake = coins[k].value;
                highest_stake_idx = k;
            }
        }
        k += 1;
    }
    proof {
        let best = highest_stake_idx as int;
        if highest_stake > 0 {
            assert(wins(ts, coins@, best) && coins@[best].value > 0);
        }
    }
    (won, highest_stake_idx)
}

/// Whether each of the coins has a lottery ticket.
pub open spec fn tickets_defined(coins: Seq<LeadCoin>) -> bool {
    forall|j: int| 0 <= j < coins.len() ==> (#[trigger] coins[j]).ticket() is Some
}

/// The tickets of the coins.
pub open spec fn tickets_of(coins: Seq<LeadCoin>) -> Seq<Seq<u8>> {
    Seq::new(coins.len(), |j: int| coins[j].ticket()->0)
}

/// Tells whether one of the stakeholder's coins wins the lottery of a slot,
/// and which: among several winners the one of the greatest value.
///
/// `slot` is the slot's index in its epoch, `epoch_coins` the epoch's coins.
pub fn is_leader(slot: u64, epoch_coins: &Vec<Vec<LeadCoin>>) -> (r: (bool, usize))
    requires
        slot < epoch_coins@.len(),
        tickets_defined(epoch_coins@[slot as int]@),
    ensures
        is_lottery_result(
            tickets_of(epoch_coins@[slot as int]@),
            epoch_coins@[slot as int]@,
            r.0,
            r.1 as int,
        ),
{
    assert(slot < epoch_coins.len());
    let slot_usize = slot as usize;
    let competing_coins: &Vec<LeadCoin> = &epoch_coins[slot_usize];
    let mut tickets: Vec<Base> = Vec::new();
    let mut k: usize = 0;
    while k < competing_coins.len()
        invariant
            k <= competing_coins.len(),
            tickets_defined(competing_coins@),
            tickets@.len() == k,
            forall|j: int|
                0 <= j < k ==> Some((#[trigger] tickets@[j])@) == competing_coins@[j].ticket(),
        decreases competing_coins.len() - k,
    {
        match competing_coins[k].draw_ticket() {
            Some(y) => {
                tickets.push(y);
            },
            None => {
                assert(competing_coins@[k as int].ticket() is Some);
                assert(false);
            },
        }
        k += 1;
    }
    assert(base_views(tickets@) =~= tickets_of(competing_coins@));
    select_leader(&tickets, competing_coins)
}

/// The lottery of a slot as `is_leader` runs it, or nothing where the
/// epoch has no such slot or one of the slot's coins has no ticket.
pub fn try_is_leader(slot: u64, epoch_coins: &Vec<Vec<LeadCoin>>) -> (r: Option<(bool, usize)>)
    ensures
        r is Some <==> slot < epoch_coins@.len() && tickets_defined(epoch_coins@[slot as int]@),
        r matches Some((won, idx)) ==> is_lottery_result(
            tickets_of(epoch_coins@[slot as int]@),
            epoch_coins@[slot as int]@,
            won,
            idx as int,
        ),
{
    if slot >= epoch_coins.len() as u64 {
        return None;
    }
    let slot_usize = slot as usize;
    let competing_coins: &Vec<LeadCoin> = &epoch_coins[slot_usize];
    let mut k: usize = 0;
    while k < competing_coins.len()
        invariant
            k <= competing_coins.len(),
            slot < epoch_coins@.len(),
            competing_coins@ == epoch_coins@[slot as int]@,
            forall|j: int| 0 <= j < k ==> (#[trigger] competing_coins@[j]).ticket() is Some,
        decreases competing_coins.len() - k,
    {
        if competing_coins[k].draw_ticket().is_none() {
            assert(competing_coins@[k as int].ticket() is None);
            return None;
        }
        k += 1;
    }
    Some(is_leader(slot, epoch_coins))
}

} // verus!
