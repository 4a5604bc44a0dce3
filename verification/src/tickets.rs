//! The ticket ledger: configuring the allow-list and recording ticket
//! purchases, with per-account bounded call tracking and lazy reset of stale
//! records.

use vstd::prelude::*;

use crate::AccountId;
use crate::BlockNumber;
use crate::CallIndex;
use crate::Error;
use crate::Event;
use crate::balances::Balances;
use crate::calls::AllowListValidator;
use crate::calls::ValidateCall;
use crate::calls::call_to_index;
use crate::calls::calls_to_indices;
use crate::calls::contains_index;
use crate::calls::lemma_calls_to_indices_len;
use crate::calls::spec_call_to_index;
use crate::calls::spec_calls_to_indices;
use crate::pallet::Pallet;
use crate::pallet::ParticipantEntry;
use crate::pallet::calls_unique;
use crate::pallet::lemma_record_absent;
use crate::pallet::lemma_record_at_index;
use crate::pallet::lemma_record_push;
use crate::pallet::lemma_record_update;
use crate::pallet::participant_record;
use crate::pallet::saturating_add;
use crate::pallet::spec_saturating_add;

verus! {

/// Position of the participation record of `who`, when one exists.
fn find_participant_index(participants: &Vec<ParticipantEntry>, who: AccountId) -> (r: Option<
    usize,
>)
    ensures
        match r {
            Some(i) => i < participants@.len() && participants@[i as int].who == who,
            None => forall|k: int| 0 <= k < participants@.len() ==> participants@[k].who != who,
        },
{
    let mut i: usize = 0;
    while i < participants.len()
        invariant
            i <= participants@.len(),
            forall|k: int| 0 <= k < i ==> participants@[k].who != who,
        decreases participants@.len() - i,
    {
        if participants[i].who == who {
            return Some(i);
        }
        i = i + 1;
    }
    None
}

/// How a successful ticket purchase rewrites the state: the caller's record
/// gains the call index (after a lazy reset of a stale record), the price
/// moves from the caller to the pot, the caller owns the next ticket ordinal,
/// and the ticket count grows by one.
pub open spec fn buy_applied(
    pre: Pallet,
    pre_b: Balances,
    post: Pallet,
    post_b: Balances,
    caller: AccountId,
    ci: CallIndex,
) -> bool {
    let price = pre.lottery.unwrap().price;
    let pot = pre.config.pot_account;
    &&& participant_record(post.participants@, caller) == Some(
        (pre.lottery_index, pre.effective_calls(caller).push(ci)),
    )
    &&& forall|a: AccountId| a != caller
        ==> participant_record(post.participants@, a) == participant_record(pre.participants@, a)
    &&& post.tickets@ == (if pre.tickets_count < pre.tickets@.len() {
        pre.tickets@.update(pre.tickets_count as int, caller)
    } else {
        pre.tickets@.push(caller)
    })
    &&& post.tickets_count == pre.tickets_count + 1
    &&& post.events@ == pre.events@.push(Event::TicketBought { who: caller, call_index: ci })
    &&& post.lottery == pre.lottery
    &&& post.lottery_index == pre.lottery_index
    &&& post.call_indices@ == pre.call_indices@
    &&& post.distance_count == pre.distance_count
    &&& post.fee == pre.fee
    &&& post.config == pre.config
    &&& (caller == pot ==> post_b == pre_b)
    &&& (caller != pot ==> {
        &&& post_b.spec_balance(caller) == pre_b.spec_balance(caller) - price
        &&& post_b.spec_balance(pot) == pre_b.spec_balance(pot) + price
        &&& forall|a: AccountId| a != caller && a != pot ==> post_b.spec_balance(a)
            == pre_b.spec_balance(a)
    })
    &&& post_b.issuance == pre_b.issuance
    &&& post_b.min_balance == pre_b.min_balance
}

impl Pallet {
    /// The ledger's own call validation: the action is valid when its call
    /// index is in the allow-list this ledger stores. This is what
    /// [`AllowListValidator`] computes, over this ledger's own list.
    pub fn validate_call(&self, call: &Vec<u8>) -> (r: bool)
        ensures
            r == match spec_call_to_index(call@) {
                Ok(ci) => self.call_indices@.contains(ci),
                Err(_) => false,
            },
    {
        let validator = AllowListValidator;
        validator.validate_call(&self.call_indices, call)
    }

    /// How `set_calls` decides: more calls than `MaxCalls` are rejected
    /// outright, an empty list clears the allow-list, and otherwise every
    /// call must encode to an index.
    pub open spec fn set_calls_outcome(self, calls: Seq<Seq<u8>>) -> Result<Seq<CallIndex>, Error> {
        if calls.len() > self.config.max_calls {
            Err(Error::TooManyCalls)
        } else if calls.len() == 0 {
            Ok(Seq::empty())
        } else {
            spec_calls_to_indices(calls)
        }
    }

    /// Replace the allow-list with the indices of the given calls (their
    /// canonical encodings), atomically: any failure leaves the prior list
    /// intact. An empty input clears the list.
    pub fn set_calls(&mut self, calls: &Vec<Vec<u8>>) -> (r: Result<(), Error>)
        requires
            old(self).wf(),
        ensures
            final(self).wf(),
            ({
                let outcome = old(self).set_calls_outcome(calls.deep_view());
                &&& (outcome matches Err(e) ==> r == Err::<(), Error>(e) && *final(self) == *old(
                    self,
                ))
                &&& (outcome matches Ok(indices) ==> {
                    &&& r is Ok
                    &&& final(self).call_indices@ == indices
                    &&& final(self).events@ == old(self).events@.push(Event::CallsUpdated)
                    &&& final(self).config == old(self).config
                    &&& final(self).lottery == old(self).lottery
                    &&& final(self).lottery_index == old(self).lottery_index
                    &&& final(self).participants@ == old(self).participants@
                    &&& final(self).tickets_count == old(self).tickets_count
                    &&& final(self).tickets@ == old(self).tickets@
                    &&& final(self).distance_count == old(self).distance_count
                    &&& final(self).fee == old(self).fee
                })
            }),
    {
        if calls.len() > self.config.max_calls as usize {
            return Err(Error::TooManyCalls);
        }
        if calls.len() == 0 {
            self.call_indices = Vec::new();
            proof {
                assert(self.call_indices@ =~= Seq::<CallIndex>::empty());
            }
        } else {
            match calls_to_indices(calls) {
                Ok(indices) => {
                    proof {
                        lemma_calls_to_indices_len(calls.deep_view());
                    }
                    self.call_indices = indices;
                },
                Err(e) => {
                    return Err(e);
                },
            }
        }
        self.events.push(Event::CallsUpdated);
        Ok(())
    }

    /// How a ticket purchase decides, in the order the checks are made: an
    /// active, still-open lottery; a call the validation strategy accepts and
    /// that encodes to an index; room in the ticket counter; no ticket for
    /// the same index in this generation; room in the caller's call set; and
    /// a caller who can afford the price.
    pub open spec fn buy_ticket_outcome<V: ValidateCall>(
        self,
        balances: Balances,
        validator: V,
        caller: AccountId,
        call: Seq<u8>,
        now: BlockNumber,
    ) -> Result<CallIndex, Error> {
        match self.lottery {
            None => Err(Error::NotConfigured),
            Some(cfg) => {
                if now >= spec_saturating_add(cfg.start, cfg.length) {
                    Err(Error::AlreadyEnded)
                } else if !validator.spec_validate(self.call_indices@, call) {
                    Err(Error::InvalidCall)
                } else if call.len() < 2 {
                    Err(Error::EncodingFailed)
                } else if self.tickets_count == u32::MAX {
                    Err(Error::Overflow)
                } else {
                    let ci = CallIndex { pallet: call[0], call: call[1] };
                    let cs = self.effective_calls(caller);
                    if cs.contains(ci) {
                        Err(Error::AlreadyParticipating)
                    } else if cs.len() + 1 > self.config.max_calls {
                        Err(Error::TooManyCalls)
                    } else if !(balances.spec_balance(caller) >= cfg.price && balances.spec_balance(
                        caller,
                    ) - cfg.price >= balances.min_balance) {
                        Err(Error::InsufficientBalance)
                    } else {
                        Ok(ci)
                    }
                }
            },
        }
    }

    /// The logic of buying a ticket: all checks, the debit of the price into
    /// the pot, and the recording of the participation and the ticket, as one
    /// atomic unit — on any error nothing changes.
    pub fn do_buy_ticket<V: ValidateCall>(
        &mut self,
        balances: &mut Balances,
        validator: &V,
        caller: AccountId,
        call: &Vec<u8>,
        now: BlockNumber,
    ) -> (r: Result<(), Error>)
        requires
            old(self).wf(),
            old(balances).wf(),
        ensures
            final(self).wf(),
            final(balances).wf(),
            ({
                let outcome = old(self).buy_ticket_outcome(
                    *old(balances),
                    *validator,
                    caller,
                    call@,
                    now,
                );
                &&& (outcome matches Err(e) ==> r == Err::<(), Error>(e) && *final(self) == *old(
                    self,
                ) && *final(balances) == *old(balances))
                &&& (outcome matches Ok(ci) ==> r is Ok && buy_applied(
                    *old(self),
                    *old(balances),
                    *final(self),
                    *final(balances),
                    caller,
                    ci,
                ))
            }),
    {
        let cfg = match &self.lottery {
            Some(c) => *c,
            None => {
                return Err(Error::NotConfigured);
            },
        };
        if now >= saturating_add(cfg.start, cfg.length) {
            return Err(Error::AlreadyEnded);
        }
        if !validator.validate_call(&self.call_indices, call) {
            return Err(Error::InvalidCall);
        }
        let ci = match call_to_index(call) {
            Ok(ci) => ci,
            Err(e) => {
                return Err(e);
            },
        };
        if self.tickets_count == u32::MAX {
            return Err(Error::Overflow);
        }
        let ghost s0 = self.participants@;
        match find_participant_index(&self.participants, caller) {
            Some(i) => {
                proof {
                    lemma_record_at_index(s0, i as int);
                }
                let stale = self.participants[i].lottery_index != self.lottery_index;
                if !stale {
                    if contains_index(&self.participants[i].calls, ci) {
                        return Err(Error::AlreadyParticipating);
                    }
                    if self.participants[i].calls.len() >= self.config.max_calls as usize {
                        return Err(Error::TooManyCalls);
                    }
                } else {
                    if self.config.max_calls == 0 {
                        return Err(Error::TooManyCalls);
                    }
                }
                match balances.transfer(caller, self.config.pot_account, cfg.price) {
                    Err(e) => {
                        return Err(e);
                    },
                    Ok(_) => {},
                }
                let mut entry = self.participants.remove(i);
                if stale {
                    // Lazy reset: the record belongs to an earlier generation.
                    entry.lottery_index = self.lottery_index;
                    entry.calls = Vec::new();
                }
                entry.calls.push(ci);
                self.participants.insert(i, entry);
                proof {
                    let e = self.participants@[i as int];
                    assert(self.participants@ =~= s0.update(i as int, e));
                    lemma_record_update(s0, i as int, e);
                    if stale {
                        assert(e.calls@ =~= old(self).effective_calls(caller).push(ci));
                    }
                    assert(calls_unique(e.calls@)) by {
                        let cs = old(self).effective_calls(caller);
                        assert(e.calls@ == cs.push(ci));
                        assert(!cs.contains(ci));
                        assert forall|p: int, q: int| 0 <= p < q < e.calls@.len() implies e.calls@[p]
                            != e.calls@[q] by {
                            if q == e.calls@.len() - 1 {
                                assert(e.calls@[p] == cs[p]);
                                assert(cs[p] != ci) by {
                                    assert(!cs.contains(ci));
                                }
                            }
                        }
                    }
                }
            },
            None => {
                proof {
                    lemma_record_absent(s0, caller);
                }
                if self.config.max_calls == 0 {
                    return Err(Error::TooManyCalls);
                }
                match balances.transfer(caller, self.config.pot_account, cfg.price) {
                    Err(e) => {
                        return Err(e);
                    },
                    Ok(_) => {},
                }
                let mut calls_vec: Vec<CallIndex> = Vec::new();
                calls_vec.push(ci);
                let entry = ParticipantEntry {
                    who: caller,
                    lottery_index: self.lottery_index,
                    calls: calls_vec,
                };
                self.participants.push(entry);
                proof {
                    lemma_record_push(s0, self.participants@.last());
                    assert(self.participants@.last().calls@ =~= old(self).effective_calls(
                        caller,
                    ).push(ci));
                }
            },
        }
        let ordinal = self.tickets_count as usize;
        if ordinal < self.tickets.len() {
            let ghost t0 = self.tickets@;
            let _ = self.tickets.remove(ordinal);
            self.tickets.insert(ordinal, caller);
            proof {
                assert(self.tickets@ =~= t0.update(ordinal as int, caller));
            }
        } else {
            self.tickets.push(caller);
        }
        self.tickets_count = self.tickets_count + 1;
        self.events.push(Event::TicketBought { who: caller, call_index: ci });
        Ok(())
    }

    /// Buy a ticket to enter the lottery. The host dispatches the wrapped
    /// action itself and invokes this only when that dispatch succeeded; a
    /// failed purchase is deliberately swallowed, so watch for the
    /// `TicketBought` notification to detect success.
    pub fn buy_ticket<V: ValidateCall>(
        &mut self,
        balances: &mut Balances,
        validator: &V,
        caller: AccountId,
        call: &Vec<u8>,
        now: BlockNumber,
    ) -> (r: Result<(), Error>)
        requires
            old(self).wf(),
            old(balances).wf(),
        ensures
            final(self).wf(),
            final(balances).wf(),
            r is Ok,
            ({
                let outcome = old(self).buy_ticket_outcome(
                    *old(balances),
                    *validator,
                    caller,
                    call@,
                    now,
                );
                &&& (outcome is Err ==> *final(self) == *old(self) && *final(balances) == *old(
                    balances,
                ))
                &&& (outcome matches Ok(ci) ==> buy_applied(
                    *old(self),
                    *old(balances),
                    *final(self),
                    *final(balances),
                    caller,
                    ci,
                ))
            }),
    {
        let _ = self.do_buy_ticket(balances, validator, caller, call, now);
        Ok(())
    }
}

/// Within one lottery generation, no account accumulates two tickets for the
/// same call index: once the caller's current-generation record holds the
/// index of `call`, any further purchase attempt for it is rejected.
pub proof fn lemma_no_double_ticket<V: ValidateCall>(
    state: Pallet,
    balances: Balances,
    validator: V,
    caller: AccountId,
    call: Seq<u8>,
    now: BlockNumber,
)
    requires
        spec_call_to_index(call) matches Ok(ci) && state.effective_calls(caller).contains(ci),
    ensures
        !(state.buy_ticket_outcome(balances, validator, caller, call, now) is Ok),
{
}

/// A successful purchase records the bought call index in the caller's
/// current-generation record, which `lemma_no_double_ticket` then locks.
pub proof fn lemma_buy_records_call(
    pre: Pallet,
    pre_b: Balances,
    post: Pallet,
    post_b: Balances,
    caller: AccountId,
    ci: CallIndex,
)
    requires
        buy_applied(pre, pre_b, post, post_b, caller, ci),
    ensures
        post.effective_calls(caller).contains(ci),
{
    let cs = pre.effective_calls(caller).push(ci);
    assert(cs[cs.len() - 1] == ci);
}

} // verus!
