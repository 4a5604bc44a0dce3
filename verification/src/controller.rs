//! The lottery life-cycle: configure, stop repeating, and the per-block
//! close-out hook that pays the pot to a randomly chosen winner.

use vstd::prelude::*;

use crate::AccountId;
use crate::Balance;
use crate::BlockNumber;
use crate::Error;
use crate::Event;
use crate::balances::Balances;
use crate::pallet::LotteryConfig;
use crate::pallet::Pallet;
use crate::pallet::saturating_add;
use crate::pallet::spec_saturating_add;
use crate::random::RandomSource;
use crate::selector::choose_ticket;
use crate::selector::spec_choose_ticket;

verus! {

impl Pallet {
    /// How `start_lottery` decides: it fails with `InProgress` while a
    /// lottery is active, and with `Overflow` when the generation counter
    /// would wrap.
    pub open spec fn start_lottery_outcome(self) -> Result<(), Error> {
        if self.lottery is Some {
            Err(Error::InProgress)
        } else if self.lottery_index == u32::MAX {
            Err(Error::Overflow)
        } else {
            Ok(())
        }
    }

    /// Start a lottery at the current height using the provided
    /// configuration, allocating a fresh generation index and making sure the
    /// pot account exists (it is provisioned with the existence threshold
    /// when its balance is zero). On any error nothing changes.
    pub fn start_lottery(
        &mut self,
        balances: &mut Balances,
        price: Balance,
        length: BlockNumber,
        delay: BlockNumber,
        repeat: bool,
        now: BlockNumber,
    ) -> (r: Result<(), Error>)
        requires
            old(self).wf(),
            old(balances).wf(),
            old(balances).spec_balance(old(self).config.pot_account) == 0
                ==> old(balances).issuance + old(balances).min_balance <= Balance::MAX,
        ensures
            final(self).wf(),
            final(balances).wf(),
            r == old(self).start_lottery_outcome(),
            r is Err ==> *final(self) == *old(self) && *final(balances) == *old(balances),
            r is Ok ==> {
                &&& final(self).lottery == Some(
                    LotteryConfig { price, start: now, length, delay, repeat },
                )
                &&& final(self).lottery_index == old(self).lottery_index + 1
                &&& final(self).events@ == old(self).events@.push(Event::LotteryStarted)
                &&& final(self).config == old(self).config
                &&& final(self).participants@ == old(self).participants@
                &&& final(self).tickets_count == old(self).tickets_count
                &&& final(self).tickets@ == old(self).tickets@
                &&& final(self).call_indices@ == old(self).call_indices@
                &&& final(self).distance_count == old(self).distance_count
                &&& final(self).fee == old(self).fee
            },
            r is Ok ==> ({
                let pot = old(self).config.pot_account;
                let was_empty = old(balances).spec_balance(pot) == 0;
                &&& was_empty ==> final(balances).spec_balance(pot) == old(balances).min_balance
                    && final(balances).issuance == old(balances).issuance + old(balances).min_balance
                &&& !was_empty ==> *final(balances) == *old(balances)
                &&& forall|a: AccountId| a != pot ==> final(balances).spec_balance(a) == old(balances).spec_balance(a)
                &&& final(balances).min_balance == old(balances).min_balance
            }),
    {
        if self.lottery.is_some() {
            return Err(Error::InProgress);
        }
        if self.lottery_index == u32::MAX {
            return Err(Error::Overflow);
        }
        let new_index = self.lottery_index + 1;
        self.lottery = Some(LotteryConfig { price, start: now, length, delay, repeat });
        self.lottery_index = new_index;
        // Make sure the pot exists.
        let lottery_account = self.config.pot_account;
        if balances.total_balance(lottery_account) == 0 {
            let min = balances.minimum_balance();
            balances.deposit_creating(lottery_account, min);
        }
        self.events.push(Event::LotteryStarted);
        Ok(())
    }

    /// Clear the repeat flag of the active lottery, which then runs to
    /// completion; doing so without an active lottery is a no-op, not an
    /// error.
    pub fn stop_repeat(&mut self) -> (r: Result<(), Error>)
        requires
            old(self).wf(),
        ensures
            final(self).wf(),
            r is Ok,
            match old(self).lottery {
                Some(cfg) => final(self).lottery == Some(
                    LotteryConfig { repeat: false, ..cfg },
                ),
                None => final(self).lottery is None,
            },
            final(self).config == old(self).config,
            final(self).lottery_index == old(self).lottery_index,
            final(self).participants@ == old(self).participants@,
            final(self).tickets_count == old(self).tickets_count,
            final(self).tickets@ == old(self).tickets@,
            final(self).call_indices@ == old(self).call_indices@,
            final(self).distance_count == old(self).distance_count,
            final(self).fee == old(self).fee,
            final(self).events@ == old(self).events@,
    {
        match &self.lottery {
            Some(cfg) => {
                self.lottery = Some(LotteryConfig { repeat: false, ..*cfg });
            },
            None => {},
        }
        Ok(())
    }

    /// The account `choose_account` selects, as a function of the randomness
    /// source: the owner of the chosen ticket.
    pub open spec fn spec_choose_account<R: RandomSource>(self, rng: &R) -> Option<AccountId> {
        match spec_choose_ticket(rng, self.tickets_count, self.config.max_generate_random) {
            None => None,
            Some(t) => Some(self.tickets@[t as int]),
        }
    }

    /// Randomly choose a winning ticket and return the account that purchased
    /// it; the more tickets an account bought, the higher its chances.
    /// Returns `None` exactly when no ticket was sold.
    pub fn choose_account<R: RandomSource>(&self, rng: &R) -> (r: Option<AccountId>)
        requires
            self.wf(),
        ensures
            r == self.spec_choose_account(rng),
            r is Some <==> self.tickets_count > 0,
    {
        match choose_ticket(rng, self.tickets_count, self.config.max_generate_random) {
            None => None,
            Some(ticket) => Some(self.tickets[ticket as usize]),
        }
    }

    /// Whether the per-block hook closes the lottery at height `n`: one is
    /// active and its payout height has been reached.
    pub open spec fn lottery_closes(self, n: BlockNumber) -> bool {
        match self.lottery {
            Some(cfg) => spec_saturating_add(spec_saturating_add(cfg.start, cfg.length), cfg.delay)
                <= n,
            None => false,
        }
    }

    /// The account the close-out pays: the chosen winner, or the pot itself
    /// (a no-op payout) when no ticket was sold.
    pub open spec fn spec_winner<R: RandomSource>(self, rng: &R) -> AccountId {
        match self.spec_choose_account(rng) {
            Some(w) => w,
            None => self.config.pot_account,
        }
    }

    /// The per-block evaluation hook. Before the payout height (or with no
    /// lottery active) it does nothing. At the payout height it transfers the
    /// pot balance to the winner (best effort: a failed payout still closes
    /// the lottery), resets the ticket count, and either restarts the same
    /// configuration at the current height (repeat) or clears it.
    ///
    /// Participation and ticket-owner records are deliberately not purged:
    /// they are reconciled lazily through the generation index and the ticket
    /// count.
    pub fn on_initialize<R: RandomSource>(
        &mut self,
        balances: &mut Balances,
        rng: &R,
        n: BlockNumber,
    )
        requires
            old(self).wf(),
            old(balances).wf(),
        ensures
            final(self).wf(),
            final(balances).wf(),
            !old(self).lottery_closes(n) ==> *final(self) == *old(self) && *final(balances)
                == *old(balances),
            old(self).lottery_closes(n) ==> {
                let cfg = old(self).lottery.unwrap();
                let pot_amount = old(self).spec_pot(*old(balances));
                let winner = old(self).spec_winner(rng);
                &&& final(self).events@ == old(self).events@.push(
                    Event::Winner { winner, lottery_balance: pot_amount },
                )
                &&& final(self).tickets_count == 0
                &&& final(self).participants@ == old(self).participants@
                &&& final(self).tickets@ == old(self).tickets@
                &&& final(self).call_indices@ == old(self).call_indices@
                &&& final(self).distance_count == old(self).distance_count
                &&& final(self).fee == old(self).fee
                &&& final(self).config == old(self).config
                &&& cfg.repeat ==> {
                    &&& final(self).lottery == Some(LotteryConfig { start: n, ..cfg })
                    &&& final(self).lottery_index == (if old(self).lottery_index == u32::MAX {
                        u32::MAX
                    } else {
                        (old(self).lottery_index + 1) as u32
                    })
                }
                &&& !cfg.repeat ==> {
                    &&& final(self).lottery is None
                    &&& final(self).lottery_index == old(self).lottery_index
                }
                &&& old(balances).spec_balance(old(self).config.pot_account) < old(balances).min_balance ==> *final(balances) == *old(balances)
                &&& old(balances).spec_balance(old(self).config.pot_account) >= old(balances).min_balance && winner == old(self).config.pot_account ==> *final(balances)
                    == *old(balances)
                &&& old(balances).spec_balance(old(self).config.pot_account) >= old(balances).min_balance && winner != old(self).config.pot_account ==> {
                    &&& final(balances).spec_balance(old(self).config.pot_account) == old(balances).min_balance
                    &&& final(balances).spec_balance(winner) == old(balances).spec_balance(winner)
                        + pot_amount
                    &&& forall|a: AccountId|
                        a != old(self).config.pot_account && a != winner ==> final(balances).spec_balance(a) == old(balances).spec_balance(a)
                }
                &&& final(balances).issuance == old(balances).issuance
                &&& final(balances).min_balance == old(balances).min_balance
            },
    {
        let cfg = match &self.lottery {
            Some(c) => *c,
            None => {
                return ;
            },
        };
        let payout_block = saturating_add(saturating_add(cfg.start, cfg.length), cfg.delay);
        if payout_block > n {
            return ;
        }
        let (lottery_account, lottery_balance) = self.pot(balances);
        let winner = match self.choose_account(rng) {
            Some(w) => w,
            None => lottery_account,
        };
        // Not much we can do if the payout fails: the lottery closes anyway.
        let _ = balances.transfer(lottery_account, winner, lottery_balance);
        self.events.push(Event::Winner { winner, lottery_balance });
        self.tickets_count = 0;
        if cfg.repeat {
            // If the lottery repeats, bump the generation and restart the
            // same configuration at the current height.
            self.lottery_index = if self.lottery_index == u32::MAX {
                u32::MAX
            } else {
                self.lottery_index + 1
            };
            self.lottery = Some(LotteryConfig { start: n, ..cfg });
        } else {
            // Otherwise clear the lottery configuration entirely.
            self.lottery = None;
        }
    }
}

} // verus!
