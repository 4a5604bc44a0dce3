//! The ledger state shared by every lottery and issuance transition, with its
//! well-formedness invariant and the spec-level views the contracts use.
//!
//! The host applies exactly one operation at a time; each operation here is
//! all-or-nothing: on any error the state is exactly what it was before.

use vstd::prelude::*;

use crate::AccountId;
use crate::Balance;
use crate::BlockNumber;
use crate::CallIndex;
use crate::Event;
use crate::balances::Balances;

verus! {

/// Host-configured constants, fixed for the life of the ledger.
#[derive(Clone, Copy)]
pub struct Config {
    /// The account escrowing ticket payments for the current lottery.
    pub pot_account: AccountId,
    /// The account receiving fee contributions during token issuance.
    pub reserve_account: AccountId,
    /// The maximum number of calls in a single lottery.
    pub max_calls: u32,
    /// How many times to retry a biased random draw.
    pub max_generate_random: u32,
    /// Units per whole token: issuance thresholds are compared in whole
    /// tokens.
    pub base_unit: Balance,
    /// The hard cap on cumulative issuance, in whole tokens.
    pub total_amount_cap: Balance,
    /// Denominator of the issuance fee ratio; also the initial per-unit fee
    /// installed at genesis.
    pub fee_denominator: Balance,
    /// Consumer-issuance level from which the flat fixed-rate fee applies.
    pub mid_tier_threshold: Balance,
    /// Consumer-issuance level from which no fee is charged at all.
    pub upper_tier_threshold: Balance,
    /// The flat fee rate used between the two thresholds.
    pub fixed_fee_rate: Balance,
    /// The width of one fee tier: the boundary advances by this much each
    /// time it is crossed.
    pub distance: Balance,
}

impl Config {
    /// Configuration validity: the unit, denominator and tier width are
    /// positive, so the issuance divisions are defined.
    pub open spec fn wf(self) -> bool {
        &&& self.base_unit >= 1
        &&& self.fee_denominator >= 1
        &&& self.distance >= 1
    }
}

/// The configuration of the currently active lottery; exists only while one
/// is active.
#[derive(Clone, Copy, PartialEq, Eq, Structural, Debug)]
pub struct LotteryConfig {
    /// Price per entry.
    pub price: Balance,
    /// Starting block of the lottery.
    pub start: BlockNumber,
    /// Length of the lottery (start + length = end).
    pub length: BlockNumber,
    /// Delay for choosing the winner (start + length + delay = payout).
    pub delay: BlockNumber,
    /// Whether this lottery repeats after it completes.
    pub repeat: bool,
}

/// One account's participation history: the generation it was recorded in and
/// the call indices it bought tickets for within that generation.
pub struct ParticipantEntry {
    /// The participating account.
    pub who: AccountId,
    /// The lottery generation this record belongs to; a mismatch with the
    /// current index marks the record stale, to be treated as empty.
    pub lottery_index: u32,
    /// The call indices this account holds tickets for in that generation.
    pub calls: Vec<CallIndex>,
}

/// No call index appears twice.
pub open spec fn calls_unique(s: Seq<CallIndex>) -> bool {
    forall|i: int, j: int| 0 <= i < j < s.len() ==> s[i] != s[j]
}

/// No account has two participation records.
pub open spec fn participants_unique(s: Seq<ParticipantEntry>) -> bool {
    forall|i: int, j: int| 0 <= i < j < s.len() ==> s[i].who != s[j].who
}

/// The record stored for `who`: its generation and call indices, or `None`
/// when the account never participated.
pub open spec fn participant_record(s: Seq<ParticipantEntry>, who: AccountId) -> Option<
    (u32, Seq<CallIndex>),
>
    decreases s.len(),
{
    if s.len() == 0 {
        None
    } else if s.last().who == who {
        Some((s.last().lottery_index, s.last().calls@))
    } else {
        participant_record(s.drop_last(), who)
    }
}

/// `a + b`, saturating at the numeric ceiling of a block number.
pub open spec fn spec_saturating_add(a: BlockNumber, b: BlockNumber) -> BlockNumber {
    if a + b > BlockNumber::MAX {
        BlockNumber::MAX
    } else {
        (a + b) as BlockNumber
    }
}

/// `a + b`, saturating at the numeric ceiling of a block number.
pub fn saturating_add(a: BlockNumber, b: BlockNumber) -> (r: BlockNumber)
    ensures
        r == spec_saturating_add(a, b),
{
    if b > BlockNumber::MAX - a {
        BlockNumber::MAX
    } else {
        a + b
    }
}

/// The full persisted state surface, one field per stored entry.
pub struct Pallet {
    /// Host-configured constants.
    pub config: Config,
    /// One per completed-or-active lottery generation.
    pub lottery_index: u32,
    /// The active lottery, if any.
    pub lottery: Option<LotteryConfig>,
    /// Participation records; may hold residual entries from earlier
    /// generations, reconciled lazily through their stored generation index.
    pub participants: Vec<ParticipantEntry>,
    /// Tickets sold in the current generation.
    pub tickets_count: u32,
    /// Owner of each ticket ordinal; entries at or beyond `tickets_count` are
    /// residue from a previous generation and are never read as valid.
    pub tickets: Vec<AccountId>,
    /// The configured allow-list of valid calls; empty means none configured.
    pub call_indices: Vec<CallIndex>,
    /// The issuance tier boundary; absent until genesis initializes it.
    pub distance_count: Option<Balance>,
    /// The decaying per-unit issuance fee; absent until genesis initializes
    /// it.
    pub fee: Option<Balance>,
    /// Notifications emitted so far, oldest first.
    pub events: Vec<Event>,
}

impl Pallet {
    /// Ledger well-formedness, established by [`Pallet::new`] and preserved
    /// by every transition.
    pub open spec fn wf(self) -> bool {
        &&& self.config.wf()
        &&& participants_unique(self.participants@)
        &&& forall|k: int|
            0 <= k < self.participants@.len() ==> calls_unique(
                #[trigger] self.participants@[k].calls@,
            ) && self.participants@[k].calls@.len() <= self.config.max_calls
        &&& self.call_indices@.len() <= self.config.max_calls
        &&& self.tickets_count <= self.tickets@.len()
        &&& (self.distance_count matches Some(d) ==> d >= 1)
    }

    /// The record for `who` after lazy reset: stale records (from another
    /// generation) count as empty.
    pub open spec fn effective_calls(self, who: AccountId) -> Seq<CallIndex> {
        match participant_record(self.participants@, who) {
            Some(rec) => if rec.0 == self.lottery_index {
                rec.1
            } else {
                Seq::empty()
            },
            None => Seq::empty(),
        }
    }

    /// A fresh ledger with no lottery configured and uninitialized issuance
    /// state.
    pub fn new(config: Config) -> (r: Pallet)
        requires
            config.wf(),
        ensures
            r.wf(),
            r.config == config,
            r.lottery_index == 0,
            r.lottery is None,
            r.participants@.len() == 0,
            r.tickets_count == 0,
            r.tickets@.len() == 0,
            r.call_indices@.len() == 0,
            r.distance_count is None,
            r.fee is None,
            r.events@.len() == 0,
    {
        Pallet {
            config,
            lottery_index: 0,
            lottery: None,
            participants: Vec::new(),
            tickets_count: 0,
            tickets: Vec::new(),
            call_indices: Vec::new(),
            distance_count: None,
            fee: None,
            events: Vec::new(),
        }
    }

    /// The account ID of the lottery pot.
    pub fn account_id(&self) -> (r: AccountId)
        ensures
            r == self.config.pot_account,
    {
        self.config.pot_account
    }

    /// The pot balance: what the pot account holds above the existence
    /// threshold, which stays behind so the account is never reaped.
    pub open spec fn spec_pot(self, balances: Balances) -> Balance {
        if balances.spec_balance(self.config.pot_account) >= balances.min_balance {
            (balances.spec_balance(self.config.pot_account) - balances.min_balance) as Balance
        } else {
            0
        }
    }

    /// Return the pot account and the amount of money in the pot.
    pub fn pot(&self, balances: &Balances) -> (r: (AccountId, Balance))
        requires
            balances.wf(),
        ensures
            r.0 == self.config.pot_account,
            r.1 == self.spec_pot(*balances),
    {
        let account = self.config.pot_account;
        let balance = balances.free_balance(account);
        let min = balances.minimum_balance();
        if balance >= min {
            (account, balance - min)
        } else {
            (account, 0)
        }
    }
}

/// Genesis parameters for the issuance engine. Building installs the
/// configured tier width as the first boundary and the fee denominator as the
/// initial per-unit fee.
pub struct GenesisConfig {
    /// Carried for host compatibility; not consumed by `build`.
    pub single_value: Balance,
    /// Carried for host compatibility; not consumed by `build`.
    pub fee_value: Balance,
}

impl Default for GenesisConfig {
    /// Zeroed genesis parameters.
    fn default() -> (r: GenesisConfig)
        ensures
            r.single_value == 0,
            r.fee_value == 0,
    {
        GenesisConfig { single_value: 0, fee_value: 0 }
    }
}

impl GenesisConfig {
    /// Initialize the issuance counters: the first tier boundary and the
    /// initial fee.
    pub fn build(&self, pallet: &mut Pallet)
        requires
            old(pallet).wf(),
        ensures
            final(pallet).wf(),
            final(pallet).distance_count == Some(old(pallet).config.distance),
            final(pallet).fee == Some(old(pallet).config.fee_denominator),
            final(pallet).config == old(pallet).config,
            final(pallet).lottery_index == old(pallet).lottery_index,
            final(pallet).lottery == old(pallet).lottery,
            final(pallet).participants@ == old(pallet).participants@,
            final(pallet).tickets_count == old(pallet).tickets_count,
            final(pallet).tickets@ == old(pallet).tickets@,
            final(pallet).call_indices@ == old(pallet).call_indices@,
            final(pallet).events@ == old(pallet).events@,
    {
        pallet.distance_count = Some(pallet.config.distance);
        pallet.fee = Some(pallet.config.fee_denominator);
    }
}

/// In a ledger with unique accounts, the entry at `i` is the record of its
/// account.
pub proof fn lemma_record_at_index(s: Seq<ParticipantEntry>, i: int)
    requires
        0 <= i < s.len(),
        participants_unique(s),
    ensures
        participant_record(s, s[i].who) == Some((s[i].lottery_index, s[i].calls@)),
    decreases s.len(),
{
    if i < s.len() - 1 {
        assert(s.last().who != s[i].who) by {
            assert(s[i].who != s[s.len() - 1].who);
        }
        assert(participants_unique(s.drop_last())) by {
            assert(forall|k: int| 0 <= k < s.len() - 1 ==> s.drop_last()[k] == s[k]);
        }
        lemma_record_at_index(s.drop_last(), i);
        assert(s.drop_last()[i] == s[i]);
    }
}

/// An account with no entry has no record.
pub proof fn lemma_record_absent(s: Seq<ParticipantEntry>, who: AccountId)
    requires
        forall|k: int| 0 <= k < s.len() ==> s[k].who != who,
    ensures
        participant_record(s, who) is None,
    decreases s.len(),
{
    if s.len() > 0 {
        lemma_record_absent(s.drop_last(), who);
    }
}

/// Replacing the entry at `i` by another entry of the same account rewrites
/// that account's record and no other.
pub proof fn lemma_record_update(s: Seq<ParticipantEntry>, i: int, e: ParticipantEntry)
    requires
        0 <= i < s.len(),
        participants_unique(s),
        e.who == s[i].who,
    ensures
        participants_unique(s.update(i, e)),
        participant_record(s.update(i, e), e.who) == Some((e.lottery_index, e.calls@)),
        forall|a: AccountId| a != e.who
            ==> participant_record(s.update(i, e), a) == participant_record(s, a),
    decreases s.len(),
{
    let t = s.update(i, e);
    assert(participants_unique(t)) by {
        assert(forall|k: int| 0 <= k < s.len() ==> t[k].who == s[k].who);
    }
    if i == s.len() - 1 {
        assert(t.last() == e);
        assert(t.drop_last() =~= s.drop_last());
        assert forall|a: AccountId| a != e.who implies participant_record(t, a)
            == participant_record(s, a) by {
            assert(s.last().who == s[i].who);
        }
    } else {
        assert(t.last() == s.last());
        assert(t.drop_last() =~= s.drop_last().update(i, e));
        assert(participants_unique(s.drop_last())) by {
            assert(forall|k: int| 0 <= k < s.len() - 1 ==> s.drop_last()[k] == s[k]);
        }
        assert(s.drop_last()[i] == s[i]);
        lemma_record_update(s.drop_last(), i, e);
        assert(s.last().who != s[i].who) by {
            assert(s[i].who != s[s.len() - 1].who);
        }
        assert forall|a: AccountId| a != e.who implies participant_record(t, a)
            == participant_record(s, a) by {
            if t.last().who != a {
                assert(participant_record(t, a) == participant_record(t.drop_last(), a));
                assert(participant_record(s, a) == participant_record(s.drop_last(), a));
            }
        }
    }
}

/// Appending an entry for a fresh account adds its record and no other.
pub proof fn lemma_record_push(s: Seq<ParticipantEntry>, e: ParticipantEntry)
    requires
        participants_unique(s),
        forall|k: int| 0 <= k < s.len() ==> s[k].who != e.who,
    ensures
        participants_unique(s.push(e)),
        participant_record(s.push(e), e.who) == Some((e.lottery_index, e.calls@)),
        forall|a: AccountId| a != e.who ==> participant_record(s.push(e), a) == participant_record(
            s,
            a,
        ),
{
    let t = s.push(e);
    assert(t.drop_last() =~= s);
    assert forall|i: int, j: int| 0 <= i < j < t.len() implies t[i].who != t[j].who by {
        if j == t.len() - 1 {
            assert(t[i].who == s[i].who);
        }
    }
}

} // verus!
