//! Tiered token issuance: mint to a destination, clamped at a hard cap, and
//! route a decaying fee to the reserve account.
//!
//! All arithmetic is integer division with truncation; the order of the
//! divisions is part of the behaviour and is reproduced exactly. Every
//! intermediate value is named by a spec function over the pre-state, so the
//! contract pins the minted amounts bit for bit.

use vstd::prelude::*;
use vstd::arithmetic::div_mod::lemma_div_is_ordered;
use vstd::arithmetic::div_mod::lemma_div_multiples_vanish;
use vstd::arithmetic::div_mod::lemma_div_nonincreasing;

use crate::AccountId;
use crate::Balance;
use crate::Error;
use crate::Event;
use crate::balances::Balances;
use crate::balances::lemma_value_le_sum;
use crate::pallet::Pallet;

verus! {

/// The reserve contribution for minting `minted` whole units while `remaining`
/// units are left before the cap, at fee rate `fee` over `denominator`:
/// `(remaining - minted) * minted / denominator * fee / denominator`.
pub open spec fn spec_reserve_contribution(
    remaining: int,
    minted: int,
    fee: int,
    denominator: int,
) -> int {
    (remaining - minted) * minted / denominator * fee / denominator
}

/// The truncation-sensitive fee formula shared by all issuance tiers.
pub fn reserve_contribution(
    remaining: Balance,
    minted: Balance,
    fee: Balance,
    denominator: Balance,
) -> (r: Balance)
    requires
        denominator >= 1,
        minted <= remaining,
        (remaining - minted) * (minted as int) <= Balance::MAX,
        (remaining - minted) * (minted as int) / (denominator as int) * (fee as int)
            <= Balance::MAX,
    ensures
        r == spec_reserve_contribution(
            remaining as int,
            minted as int,
            fee as int,
            denominator as int,
        ),
{
    (remaining - minted) * minted / denominator * fee / denominator
}

impl Pallet {
    /// The projected cumulative issuance in whole units, were the request
    /// minted in full.
    pub open spec fn issue_temtotal(self, b: Balances, amount: Balance) -> int {
        (b.issuance + amount) / self.config.base_unit as int
    }

    /// What the destination receives: the full request, or only the distance
    /// to the hard cap when the projection reaches it.
    pub open spec fn issue_dest_mint(self, b: Balances, amount: Balance) -> int {
        if self.issue_temtotal(b, amount) >= self.config.total_amount_cap {
            self.config.total_amount_cap - b.issuance
        } else {
            amount as int
        }
    }

    /// Cumulative issuance after the destination mint.
    pub open spec fn issue_post_issuance(self, b: Balances, amount: Balance) -> int {
        b.issuance + self.issue_dest_mint(b, amount)
    }

    /// The requested amount in whole units.
    pub open spec fn issue_units(self, amount: Balance) -> int {
        amount as int / self.config.base_unit as int
    }

    /// The reserve account's balance after the destination mint.
    pub open spec fn issue_reserve_balance(self, b: Balances, dest: AccountId, amount: Balance) -> int {
        b.spec_balance(self.config.reserve_account) + if dest == self.config.reserve_account {
            self.issue_dest_mint(b, amount)
        } else {
            0
        }
    }

    /// Whole units still mintable below the cap, on the post-mint state.
    pub open spec fn issue_remain(self, b: Balances, amount: Balance) -> int {
        self.config.total_amount_cap - self.issue_post_issuance(b, amount)
            / self.config.base_unit as int
    }

    /// Consumer issuance in whole units: everything in circulation after the
    /// destination mint that the reserve account does not hold.
    pub open spec fn issue_consumer(self, b: Balances, dest: AccountId, amount: Balance) -> int {
        self.issue_post_issuance(b, amount) / self.config.base_unit as int
            - self.issue_reserve_balance(b, dest, amount) / self.config.base_unit as int
    }

    /// Whether this issuance crosses the current fee tier boundary.
    pub open spec fn issue_crossing(self, b: Balances, dest: AccountId, amount: Balance) -> bool {
        &&& self.issue_consumer(b, dest, amount) < self.config.upper_tier_threshold
        &&& self.issue_consumer(b, dest, amount) < self.config.mid_tier_threshold
        &&& self.distance_count is Some
        &&& self.fee is Some
        &&& self.issue_consumer(b, dest, amount) >= self.distance_count.unwrap()
    }

    /// How `issue` decides: the decaying-fee tier needs the issuance counters
    /// initialized, and advancing the tier boundary must not overflow.
    pub open spec fn issue_outcome(self, b: Balances, dest: AccountId, amount: Balance) -> Result<
        (),
        Error,
    > {
        let consumer = self.issue_consumer(b, dest, amount);
        if consumer >= self.config.upper_tier_threshold {
            Ok(())
        } else if consumer >= self.config.mid_tier_threshold {
            Ok(())
        } else if self.distance_count is None || self.fee is None {
            Err(Error::NoneValue)
        } else if consumer >= self.distance_count.unwrap() && self.distance_count.unwrap()
            + self.config.distance > Balance::MAX {
            Err(Error::StorageOverflow)
        } else {
            Ok(())
        }
    }

    /// Units minted before the tier boundary when crossing it: the part of
    /// the request below the boundary, charged at the old fee.
    pub open spec fn issue_before_units(self, b: Balances, dest: AccountId, amount: Balance) -> int {
        self.issue_units(amount) - self.issue_consumer(b, dest, amount)
            % self.distance_count.unwrap() as int
    }

    /// Units minted past the tier boundary when crossing it, charged at the
    /// reduced fee.
    pub open spec fn issue_after_units(self, b: Balances, dest: AccountId, amount: Balance) -> int {
        self.issue_consumer(b, dest, amount) % self.distance_count.unwrap() as int
    }

    /// The reserve contribution for the portion below the boundary.
    pub open spec fn issue_before_contribution(
        self,
        b: Balances,
        dest: AccountId,
        amount: Balance,
    ) -> int {
        spec_reserve_contribution(
            self.issue_remain(b, amount),
            self.issue_before_units(b, dest, amount),
            self.fee.unwrap() as int,
            self.config.fee_denominator as int,
        )
    }

    /// The fee after one decay step: ninety percent of the current fee.
    pub open spec fn issue_after_fee(self) -> int {
        self.fee.unwrap() * 90 / 100
    }

    /// The reserve contribution for the portion past the boundary, at the
    /// reduced fee and with the first contribution already subtracted from
    /// the remaining room.
    pub open spec fn issue_after_contribution(
        self,
        b: Balances,
        dest: AccountId,
        amount: Balance,
    ) -> int {
        spec_reserve_contribution(
            self.issue_remain(b, amount) - self.issue_before_contribution(b, dest, amount),
            self.issue_after_units(b, dest, amount),
            self.issue_after_fee(),
            self.config.fee_denominator as int,
        )
    }

    /// What the reserve account receives, in raw units.
    pub open spec fn issue_reserve_mint(self, b: Balances, dest: AccountId, amount: Balance) -> int {
        let consumer = self.issue_consumer(b, dest, amount);
        let base = self.config.base_unit as int;
        if consumer >= self.config.upper_tier_threshold {
            0
        } else if consumer >= self.config.mid_tier_threshold {
            spec_reserve_contribution(
                self.issue_remain(b, amount),
                self.issue_units(amount),
                self.config.fixed_fee_rate as int,
                self.config.fee_denominator as int,
            ) * base
        } else if self.issue_crossing(b, dest, amount) {
            (self.issue_before_contribution(b, dest, amount) + self.issue_after_contribution(
                b,
                dest,
                amount,
            )) * base
        } else {
            spec_reserve_contribution(
                self.issue_remain(b, amount),
                self.issue_units(amount),
                self.fee.unwrap() as int,
                self.config.fee_denominator as int,
            ) * base
        }
    }

    /// The stored fee after the issuance: reduced by one decay step exactly
    /// when a tier boundary was crossed.
    pub open spec fn issue_new_fee(self, b: Balances, dest: AccountId, amount: Balance) -> Option<
        Balance,
    > {
        if self.issue_crossing(b, dest, amount) {
            Some(self.issue_after_fee() as Balance)
        } else {
            self.fee
        }
    }

    /// The tier boundary after the issuance: advanced by one tier width
    /// exactly when it was crossed.
    pub open spec fn issue_new_distance(
        self,
        b: Balances,
        dest: AccountId,
        amount: Balance,
    ) -> Option<Balance> {
        if self.issue_crossing(b, dest, amount) {
            Some((self.distance_count.unwrap() + self.config.distance) as Balance)
        } else {
            self.distance_count
        }
    }

    /// The machine limits under which the issuance arithmetic is defined: no
    /// intermediate sum, difference or product leaves the balance type. These
    /// mirror the computation step by step.
    pub open spec fn issue_fits(self, b: Balances, dest: AccountId, amount: Balance) -> bool {
        let cap = self.config.total_amount_cap as int;
        let fd = self.config.fee_denominator as int;
        let base = self.config.base_unit as int;
        let m = self.issue_units(amount);
        let remain = self.issue_remain(b, amount);
        let consumer = self.issue_consumer(b, dest, amount);
        let ti2 = self.issue_post_issuance(b, amount);
        &&& b.issuance + amount <= Balance::MAX
        &&& (self.issue_temtotal(b, amount) >= cap ==> b.issuance <= cap)
        &&& if consumer >= self.config.upper_tier_threshold {
            true
        } else if consumer >= self.config.mid_tier_threshold {
            let contribution = spec_reserve_contribution(
                remain,
                m,
                self.config.fixed_fee_rate as int,
                fd,
            );
            &&& m <= remain
            &&& (remain - m) * m <= Balance::MAX
            &&& (remain - m) * m / fd * (self.config.fixed_fee_rate as int) <= Balance::MAX
            &&& contribution * base <= Balance::MAX
            &&& ti2 + contribution * base <= Balance::MAX
        } else if self.distance_count is None || self.fee is None {
            true
        } else if consumer >= self.distance_count.unwrap() {
            let fee = self.fee.unwrap() as int;
            let before = self.issue_before_units(b, dest, amount);
            let after = self.issue_after_units(b, dest, amount);
            let before_c = self.issue_before_contribution(b, dest, amount);
            let after_c = self.issue_after_contribution(b, dest, amount);
            &&& after <= m
            &&& before <= remain
            &&& (remain - before) * before <= Balance::MAX
            &&& (remain - before) * before / fd * fee <= Balance::MAX
            &&& fee * 90 <= Balance::MAX
            &&& before_c + after <= remain
            &&& (remain - before_c - after) * after <= Balance::MAX
            &&& (remain - before_c - after) * after / fd * self.issue_after_fee() <= Balance::MAX
            &&& before_c * base <= Balance::MAX
            &&& after_c * base <= Balance::MAX
            &&& ti2 + before_c * base + after_c * base <= Balance::MAX
        } else {
            let fee = self.fee.unwrap() as int;
            let contribution = spec_reserve_contribution(remain, m, fee, fd);
            &&& m <= remain
            &&& (remain - m) * m <= Balance::MAX
            &&& (remain - m) * m / fd * fee <= Balance::MAX
            &&& contribution * base <= Balance::MAX
            &&& ti2 + contribution * base <= Balance::MAX
        }
    }

    /// Issue `user_amount` to `dest`, clamped so the projected issuance in
    /// whole units never passes the hard cap, and route the tier fee to the
    /// reserve account, evaluated on the post-mint state. On any error
    /// nothing changes; the fee never increases and the tier boundary never
    /// decreases.
    pub fn issue(&mut self, balances: &mut Balances, dest: AccountId, user_amount: Balance) -> (r:
        Result<(), Error>)
        requires
            old(self).wf(),
            old(balances).wf(),
            old(self).issue_fits(*old(balances), dest, user_amount),
        ensures
            final(self).wf(),
            final(balances).wf(),
            r == old(self).issue_outcome(*old(balances), dest, user_amount),
            r is Err ==> *final(self) == *old(self) && *final(balances) == *old(balances),
            r is Ok ==> ({
                let dest_mint = old(self).issue_dest_mint(*old(balances), user_amount);
                let reserve_mint = old(self).issue_reserve_mint(*old(balances), dest, user_amount);
                let reserve = old(self).config.reserve_account;
                &&& final(balances).issuance == old(balances).issuance + dest_mint + reserve_mint
                &&& (dest == reserve ==> final(balances).spec_balance(dest) == old(balances).spec_balance(dest) + dest_mint + reserve_mint)
                &&& (dest != reserve ==> final(balances).spec_balance(dest) == old(balances).spec_balance(dest) + dest_mint && final(balances).spec_balance(reserve) == old(balances).spec_balance(reserve) + reserve_mint)
                &&& forall|a: AccountId| a != dest && a != reserve ==> final(balances).spec_balance(a) == old(balances).spec_balance(a)
                &&& final(balances).min_balance == old(balances).min_balance
                &&& final(self).fee == old(self).issue_new_fee(*old(balances), dest, user_amount)
                &&& final(self).distance_count == old(self).issue_new_distance(
                    *old(balances),
                    dest,
                    user_amount,
                )
                &&& final(self).events@ == old(self).events@.push(Event::IssueToken)
                &&& final(self).config == old(self).config
                &&& final(self).lottery == old(self).lottery
                &&& final(self).lottery_index == old(self).lottery_index
                &&& final(self).participants@ == old(self).participants@
                &&& final(self).tickets_count == old(self).tickets_count
                &&& final(self).tickets@ == old(self).tickets@
                &&& final(self).call_indices@ == old(self).call_indices@
            }),
            r is Ok && old(self).fee is Some ==> final(self).fee is Some && final(self).fee.unwrap() <= old(self).fee.unwrap(),
            r is Ok && old(self).distance_count is Some ==> final(self).distance_count is Some
                && final(self).distance_count.unwrap() >= old(self).distance_count.unwrap(),
    {
        let c = self.config;
        let ti = balances.total_issuance();
        let temtotal = (ti + user_amount) / c.base_unit;
        let dest_amount: Balance = if temtotal >= c.total_amount_cap {
            c.total_amount_cap - ti
        } else {
            user_amount
        };
        let new_user_amount = user_amount / c.base_unit;
        let reserve_now = balances.free_balance(c.reserve_account);
        proof {
            lemma_value_le_sum(balances.accounts@, c.reserve_account);
        }
        let reserve_after: Balance = if dest == c.reserve_account {
            reserve_now + dest_amount
        } else {
            reserve_now
        };
        let ti2 = ti + dest_amount;
        let llc_total = reserve_after / c.base_unit;
        proof {
            lemma_div_nonincreasing(c.total_amount_cap as int, c.base_unit as int);
            lemma_div_is_ordered(reserve_after as int, ti2 as int, c.base_unit as int);
        }
        let remain = c.total_amount_cap - ti2 / c.base_unit;
        let consumer = ti2 / c.base_unit - llc_total;
        if consumer < c.upper_tier_threshold {
            if consumer >= c.mid_tier_threshold {
                let llcamount = reserve_contribution(
                    remain,
                    new_user_amount,
                    c.fixed_fee_rate,
                    c.fee_denominator,
                );
                balances.deposit_creating(dest, dest_amount);
                balances.deposit_creating(c.reserve_account, llcamount * c.base_unit);
            } else {
                let old_d = match self.distance_count {
                    Some(d) => d,
                    None => {
                        return Err(Error::NoneValue);
                    },
                };
                let fee = match self.fee {
                    Some(f) => f,
                    None => {
                        return Err(Error::NoneValue);
                    },
                };
                if consumer >= old_d {
                    // Crossing a tier boundary: split the request at the
                    // boundary, charge the old fee below it and the reduced
                    // fee above it, then advance the boundary and store the
                    // reduced fee.
                    let boundary = consumer % old_d;
                    let before_amount = new_user_amount - boundary;
                    let before_llc = reserve_contribution(
                        remain,
                        before_amount,
                        fee,
                        c.fee_denominator,
                    );
                    let after_fee = fee * 90 / 100;
                    let after_llc = reserve_contribution(
                        remain - before_llc,
                        boundary,
                        after_fee,
                        c.fee_denominator,
                    );
                    if old_d > Balance::MAX - c.distance {
                        return Err(Error::StorageOverflow);
                    }
                    balances.deposit_creating(dest, dest_amount);
                    balances.deposit_creating(c.reserve_account, before_llc * c.base_unit);
                    balances.deposit_creating(c.reserve_account, after_llc * c.base_unit);
                    self.distance_count = Some(old_d + c.distance);
                    self.fee = Some(after_fee);
                    proof {
                        lemma_div_is_ordered(fee as int * 90, fee as int * 100, 100);
                        lemma_div_multiples_vanish(fee as int, 100);
                        vstd::arithmetic::mul::lemma_mul_is_distributive_add_other_way(
                            c.base_unit as int,
                            before_llc as int,
                            after_llc as int,
                        );
                    }
                } else {
                    let llcamount = reserve_contribution(
                        remain,
                        new_user_amount,
                        fee,
                        c.fee_denominator,
                    );
                    balances.deposit_creating(dest, dest_amount);
                    balances.deposit_creating(c.reserve_account, llcamount * c.base_unit);
                }
            }
        } else {
            balances.deposit_creating(dest, dest_amount);
        }
        self.events.push(Event::IssueToken);
        Ok(())
    }
}

/// Issuance never mints the destination past the hard cap: in whole units,
/// cumulative issuance right after the destination mint never exceeds
/// `total_amount_cap`, however much was requested. (The reserve-fee
/// contributions are minted on top of this and are not clamped.)
pub proof fn lemma_issue_never_exceeds_cap(
    state: Pallet,
    b: Balances,
    dest: AccountId,
    amount: Balance,
)
    requires
        state.config.wf(),
        state.issue_temtotal(b, amount) >= state.config.total_amount_cap ==> b.issuance
            <= state.config.total_amount_cap,
    ensures
        state.issue_post_issuance(b, amount) / state.config.base_unit as int
            <= state.config.total_amount_cap,
{
    let cap = state.config.total_amount_cap as int;
    let base = state.config.base_unit as int;
    if state.issue_temtotal(b, amount) >= cap {
        assert(state.issue_post_issuance(b, amount) == cap);
        lemma_div_nonincreasing(cap, base);
    }
}

/// The fee decay is monotonic: one decay step never increases the fee.
pub proof fn lemma_fee_decay_monotonic(state: Pallet)
    requires
        state.fee is Some,
    ensures
        state.issue_after_fee() <= state.fee.unwrap(),
        state.issue_after_fee() >= 0,
{
    let fee = state.fee.unwrap() as int;
    lemma_div_is_ordered(fee * 90, fee * 100, 100);
    lemma_div_multiples_vanish(fee, 100);
    assert(fee * 90 >= 0) by (nonlinear_arith)
        requires
            fee >= 0,
    ;
    assert(fee * 90 / 100 >= 0) by {
        vstd::arithmetic::div_mod::lemma_div_pos_is_pos(fee * 90, 100);
    }
}

} // verus!
