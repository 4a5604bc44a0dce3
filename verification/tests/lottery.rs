use pallet_lottery::balances::Balances;
use pallet_lottery::calls::AllowListValidator;
use pallet_lottery::calls::DenyAllValidator;
use pallet_lottery::calls::ValidateCall;
use pallet_lottery::pallet::Config;
use pallet_lottery::pallet::GenesisConfig;
use pallet_lottery::pallet::Pallet;
use pallet_lottery::random::FixedRandom;
use pallet_lottery::CallIndex;
use pallet_lottery::Error;
use pallet_lottery::Event;

const POT: u64 = 100;
const RESERVE: u64 = 200;
const ALICE: u64 = 1;
const BOB: u64 = 2;

fn test_config() -> Config {
    Config {
        pot_account: POT,
        reserve_account: RESERVE,
        max_calls: 10,
        max_generate_random: 10,
        base_unit: 1,
        total_amount_cap: 10_000,
        fee_denominator: 100,
        mid_tier_threshold: 500,
        upper_tier_threshold: 1_460,
        fixed_fee_rate: 10,
        distance: 100,
    }
}

fn funded_balances() -> Balances {
    let mut b = Balances::new(1);
    b.deposit_creating(ALICE, 100);
    b.deposit_creating(BOB, 100);
    b
}

fn call_a() -> Vec<u8> {
    vec![1u8, 0u8]
}

fn call_b() -> Vec<u8> {
    vec![2u8, 0u8]
}

fn running_lottery(repeat: bool) -> (Pallet, Balances) {
    let mut pallet = Pallet::new(test_config());
    let mut balances = funded_balances();
    pallet.set_calls(&vec![call_a(), call_b()]).unwrap();
    pallet
        .start_lottery(&mut balances, 10, 5, 2, repeat, 0)
        .unwrap();
    (pallet, balances)
}

#[test]
fn start_lottery_sets_configuration() {
    let (pallet, balances) = running_lottery(false);
    let cfg = pallet.lottery.unwrap();
    assert_eq!(cfg.price, 10);
    assert_eq!(cfg.start, 0);
    assert_eq!(cfg.length, 5);
    assert_eq!(cfg.delay, 2);
    assert!(!cfg.repeat);
    assert_eq!(pallet.lottery_index, 1);
    // The empty pot was provisioned with the minimum balance.
    assert_eq!(balances.free_balance(POT), 1);
    assert_eq!(pallet.events.last(), Some(&Event::LotteryStarted));
}

#[test]
fn start_lottery_keeps_existing_pot_balance() {
    let mut pallet = Pallet::new(test_config());
    let mut balances = funded_balances();
    balances.deposit_creating(POT, 55);
    pallet
        .start_lottery(&mut balances, 10, 5, 2, false, 0)
        .unwrap();
    assert_eq!(balances.free_balance(POT), 55);
}

#[test]
fn start_lottery_while_active_fails_and_mutates_nothing() {
    let (mut pallet, mut balances) = running_lottery(false);
    let before = pallet.lottery.unwrap();
    let index_before = pallet.lottery_index;
    let r = pallet.start_lottery(&mut balances, 99, 1, 1, true, 3);
    assert_eq!(r, Err(Error::InProgress));
    assert_eq!(pallet.lottery.unwrap(), before);
    assert_eq!(pallet.lottery_index, index_before);
}

#[test]
fn start_lottery_overflowing_index_fails() {
    let mut pallet = Pallet::new(test_config());
    let mut balances = funded_balances();
    pallet.lottery_index = u32::MAX;
    let r = pallet.start_lottery(&mut balances, 10, 5, 2, false, 0);
    assert_eq!(r, Err(Error::Overflow));
    assert!(pallet.lottery.is_none());
}

#[test]
fn buy_ticket_records_participation_and_debits_price() {
    let (mut pallet, mut balances) = running_lottery(false);
    let v = AllowListValidator;
    let r = pallet.do_buy_ticket(&mut balances, &v, ALICE, &call_a(), 1);
    assert_eq!(r, Ok(()));
    assert_eq!(pallet.tickets_count, 1);
    assert_eq!(pallet.tickets[0], ALICE);
    assert_eq!(balances.free_balance(ALICE), 90);
    assert_eq!(balances.free_balance(POT), 11);
    assert_eq!(
        pallet.events.last(),
        Some(&Event::TicketBought {
            who: ALICE,
            call_index: CallIndex { pallet: 1, call: 0 },
        })
    );
}

#[test]
fn buy_ticket_same_call_twice_fails() {
    let (mut pallet, mut balances) = running_lottery(false);
    let v = AllowListValidator;
    pallet
        .do_buy_ticket(&mut balances, &v, ALICE, &call_a(), 1)
        .unwrap();
    let r = pallet.do_buy_ticket(&mut balances, &v, ALICE, &call_a(), 1);
    assert_eq!(r, Err(Error::AlreadyParticipating));
    // Nothing changed: one ticket, one debit.
    assert_eq!(pallet.tickets_count, 1);
    assert_eq!(balances.free_balance(ALICE), 90);
}

#[test]
fn tickets_count_equals_successful_purchases() {
    let (mut pallet, mut balances) = running_lottery(false);
    let v = AllowListValidator;
    assert_eq!(pallet.tickets_count, 0);
    pallet
        .do_buy_ticket(&mut balances, &v, ALICE, &call_a(), 1)
        .unwrap();
    pallet
        .do_buy_ticket(&mut balances, &v, ALICE, &call_b(), 1)
        .unwrap();
    pallet
        .do_buy_ticket(&mut balances, &v, BOB, &call_a(), 1)
        .unwrap();
    // A failed purchase does not count.
    let r = pallet.do_buy_ticket(&mut balances, &v, BOB, &call_a(), 1);
    assert_eq!(r, Err(Error::AlreadyParticipating));
    assert_eq!(pallet.tickets_count, 3);
}

#[test]
fn buy_ticket_without_lottery_fails() {
    let mut pallet = Pallet::new(test_config());
    let mut balances = funded_balances();
    let v = AllowListValidator;
    let r = pallet.do_buy_ticket(&mut balances, &v, ALICE, &call_a(), 1);
    assert_eq!(r, Err(Error::NotConfigured));
}

#[test]
fn buy_ticket_after_end_fails() {
    let (mut pallet, mut balances) = running_lottery(false);
    let v = AllowListValidator;
    // The lottery runs on [0, 5): height 5 is already ended.
    let r = pallet.do_buy_ticket(&mut balances, &v, ALICE, &call_a(), 5);
    assert_eq!(r, Err(Error::AlreadyEnded));
}

#[test]
fn buy_ticket_with_unlisted_call_fails() {
    let (mut pallet, mut balances) = running_lottery(false);
    let v = AllowListValidator;
    let r = pallet.do_buy_ticket(&mut balances, &v, ALICE, &vec![9u8, 9u8], 1);
    assert_eq!(r, Err(Error::InvalidCall));
}

#[test]
fn buy_ticket_with_deny_all_validator_fails() {
    let (mut pallet, mut balances) = running_lottery(false);
    let v = DenyAllValidator;
    let r = pallet.do_buy_ticket(&mut balances, &v, ALICE, &call_a(), 1);
    assert_eq!(r, Err(Error::InvalidCall));
}

#[test]
fn buy_ticket_at_ticket_ceiling_fails() {
    let (mut pallet, mut balances) = running_lottery(false);
    let v = AllowListValidator;
    pallet.tickets_count = u32::MAX;
    let r = pallet.do_buy_ticket(&mut balances, &v, ALICE, &call_a(), 1);
    assert_eq!(r, Err(Error::Overflow));
}

#[test]
fn buy_ticket_record_full_fails_with_too_many_calls() {
    let mut config = test_config();
    config.max_calls = 1;
    let mut pallet = Pallet::new(config);
    let mut balances = funded_balances();
    pallet.set_calls(&vec![call_a()]).unwrap();
    pallet
        .start_lottery(&mut balances, 10, 5, 2, false, 0)
        .unwrap();
    let v = AllowListValidator;
    pallet
        .do_buy_ticket(&mut balances, &v, ALICE, &call_a(), 1)
        .unwrap();
    // Manually widen the allow-list past max_calls to expose the capacity
    // check on the participation record itself.
    pallet.call_indices.push(CallIndex { pallet: 2, call: 0 });
    let r = pallet.do_buy_ticket(&mut balances, &v, ALICE, &call_b(), 1);
    assert_eq!(r, Err(Error::TooManyCalls));
    assert_eq!(pallet.tickets_count, 1);
}

#[test]
fn buy_ticket_without_funds_fails() {
    let (mut pallet, mut balances) = running_lottery(false);
    let v = AllowListValidator;
    // Drain ALICE down to the minimum balance first.
    let r = balances.transfer(ALICE, BOB, 99);
    assert_eq!(r, Ok(()));
    let r = pallet.do_buy_ticket(&mut balances, &v, ALICE, &call_a(), 1);
    assert_eq!(r, Err(Error::InsufficientBalance));
    assert_eq!(pallet.tickets_count, 0);
}

#[test]
fn buy_ticket_wrapper_swallows_failures() {
    let mut pallet = Pallet::new(test_config());
    let mut balances = funded_balances();
    let v = AllowListValidator;
    let r = pallet.buy_ticket(&mut balances, &v, ALICE, &call_a(), 1);
    assert_eq!(r, Ok(()));
    assert_eq!(pallet.tickets_count, 0);
}

#[test]
fn stale_record_is_reset_on_next_generation() {
    let (mut pallet, mut balances) = running_lottery(true);
    let v = AllowListValidator;
    pallet
        .do_buy_ticket(&mut balances, &v, ALICE, &call_a(), 1)
        .unwrap();
    // Close the repeating lottery at its payout height; the record of ALICE
    // is now stale and the same call is accepted again.
    let rng = FixedRandom { words: vec![0] };
    pallet.on_initialize(&mut balances, &rng, 7);
    assert_eq!(pallet.tickets_count, 0);
    let r = pallet.do_buy_ticket(&mut balances, &v, ALICE, &call_a(), 8);
    assert_eq!(r, Ok(()));
    assert_eq!(pallet.tickets_count, 1);
}

#[test]
fn set_calls_replaces_allow_list() {
    let mut pallet = Pallet::new(test_config());
    pallet.set_calls(&vec![call_a(), call_b()]).unwrap();
    assert_eq!(
        pallet.call_indices,
        vec![
            CallIndex { pallet: 1, call: 0 },
            CallIndex { pallet: 2, call: 0 },
        ]
    );
    assert_eq!(pallet.events.last(), Some(&Event::CallsUpdated));
}

#[test]
fn set_calls_empty_clears_allow_list() {
    let mut pallet = Pallet::new(test_config());
    pallet.set_calls(&vec![call_a()]).unwrap();
    pallet.set_calls(&vec![]).unwrap();
    assert!(pallet.call_indices.is_empty());
}

#[test]
fn set_calls_too_many_leaves_prior_list_untouched() {
    let mut config = test_config();
    config.max_calls = 2;
    let mut pallet = Pallet::new(config);
    pallet.set_calls(&vec![call_a()]).unwrap();
    let r = pallet.set_calls(&vec![call_a(), call_b(), vec![3u8, 0u8]]);
    assert_eq!(r, Err(Error::TooManyCalls));
    assert_eq!(pallet.call_indices, vec![CallIndex { pallet: 1, call: 0 }]);
}

#[test]
fn set_calls_short_encoding_fails_atomically() {
    let mut pallet = Pallet::new(test_config());
    pallet.set_calls(&vec![call_a()]).unwrap();
    let r = pallet.set_calls(&vec![call_b(), vec![5u8]]);
    assert_eq!(r, Err(Error::EncodingFailed));
    assert_eq!(pallet.call_indices, vec![CallIndex { pallet: 1, call: 0 }]);
}

#[test]
fn stop_repeat_clears_flag_and_keeps_the_rest() {
    let (mut pallet, _balances) = running_lottery(true);
    assert!(pallet.lottery.unwrap().repeat);
    pallet.stop_repeat().unwrap();
    let cfg = pallet.lottery.unwrap();
    assert!(!cfg.repeat);
    assert_eq!(cfg.price, 10);
    assert_eq!(cfg.length, 5);
    assert_eq!(cfg.delay, 2);
}

#[test]
fn stop_repeat_without_lottery_is_a_noop() {
    let mut pallet = Pallet::new(test_config());
    assert_eq!(pallet.stop_repeat(), Ok(()));
    assert!(pallet.lottery.is_none());
}

#[test]
fn two_tickets_one_winner_gets_the_pot() {
    // Lottery with price 10, length 5, delay 2; two accounts each buy one
    // ticket with a distinct call index.
    let (mut pallet, mut balances) = running_lottery(false);
    let v = AllowListValidator;
    pallet
        .do_buy_ticket(&mut balances, &v, ALICE, &call_a(), 1)
        .unwrap();
    pallet
        .do_buy_ticket(&mut balances, &v, BOB, &call_b(), 1)
        .unwrap();
    assert_eq!(pallet.tickets_count, 2);
    assert_eq!(balances.free_balance(POT), 21);

    // Nothing happens before the payout height (start + length + delay = 7).
    let rng = FixedRandom { words: vec![0] };
    pallet.on_initialize(&mut balances, &rng, 6);
    assert_eq!(pallet.tickets_count, 2);

    pallet.on_initialize(&mut balances, &rng, 7);
    // Exactly one account received the whole pot minus the reserve.
    let alice_after = balances.free_balance(ALICE);
    let bob_after = balances.free_balance(BOB);
    assert!(
        (alice_after == 110 && bob_after == 90) || (alice_after == 90 && bob_after == 110)
    );
    assert_eq!(balances.free_balance(POT), 1);
    assert_eq!(pallet.tickets_count, 0);
    assert!(pallet.lottery.is_none());
    // The draw is 0, so ticket 0 wins: the winner is ALICE.
    assert_eq!(
        pallet.events.last(),
        Some(&Event::Winner {
            winner: ALICE,
            lottery_balance: 20,
        })
    );
}

#[test]
fn closing_repeating_lottery_restarts_it() {
    let (mut pallet, mut balances) = running_lottery(true);
    let v = AllowListValidator;
    pallet
        .do_buy_ticket(&mut balances, &v, ALICE, &call_a(), 1)
        .unwrap();
    let index_before = pallet.lottery_index;
    let rng = FixedRandom { words: vec![0] };
    pallet.on_initialize(&mut balances, &rng, 7);
    let cfg = pallet.lottery.unwrap();
    // Price, length and delay are preserved; start resets to the closing
    // height; the generation index advances.
    assert_eq!(cfg.price, 10);
    assert_eq!(cfg.length, 5);
    assert_eq!(cfg.delay, 2);
    assert_eq!(cfg.start, 7);
    assert!(cfg.repeat);
    assert_eq!(pallet.lottery_index, index_before + 1);
    assert_eq!(pallet.tickets_count, 0);
}

#[test]
fn closing_non_repeating_lottery_clears_it() {
    let (mut pallet, mut balances) = running_lottery(false);
    let index_before = pallet.lottery_index;
    let rng = FixedRandom { words: vec![0] };
    pallet.on_initialize(&mut balances, &rng, 7);
    assert!(pallet.lottery.is_none());
    assert_eq!(pallet.lottery_index, index_before);
}

#[test]
fn closing_without_tickets_pays_the_pot_to_itself() {
    let (mut pallet, mut balances) = running_lottery(false);
    let rng = FixedRandom { words: vec![0] };
    pallet.on_initialize(&mut balances, &rng, 7);
    assert_eq!(balances.free_balance(POT), 1);
    assert_eq!(
        pallet.events.last(),
        Some(&Event::Winner {
            winner: POT,
            lottery_balance: 0,
        })
    );
}

#[test]
fn residual_tickets_are_never_read_as_valid() {
    let (mut pallet, mut balances) = running_lottery(true);
    let v = AllowListValidator;
    pallet
        .do_buy_ticket(&mut balances, &v, ALICE, &call_a(), 1)
        .unwrap();
    pallet
        .do_buy_ticket(&mut balances, &v, BOB, &call_b(), 1)
        .unwrap();
    let rng = FixedRandom { words: vec![0] };
    pallet.on_initialize(&mut balances, &rng, 7);
    // The owner entries survive the close but the count guards them.
    assert_eq!(pallet.tickets.len(), 2);
    assert_eq!(pallet.tickets_count, 0);
    assert_eq!(pallet.choose_account(&rng), None);
    // The next generation overwrites ordinal 0.
    pallet
        .do_buy_ticket(&mut balances, &v, BOB, &call_b(), 8)
        .unwrap();
    assert_eq!(pallet.tickets[0], BOB);
    assert_eq!(pallet.choose_account(&rng), Some(BOB));
}

#[test]
fn account_id_and_pot_report_the_escrow() {
    let (pallet, balances) = running_lottery(false);
    assert_eq!(pallet.account_id(), POT);
    let (account, amount) = pallet.pot(&balances);
    assert_eq!(account, POT);
    assert_eq!(amount, 0);
}

#[test]
fn transfer_keep_alive_protects_the_minimum_balance() {
    let mut b = Balances::new(1);
    b.deposit_creating(ALICE, 10);
    assert_eq!(b.transfer(ALICE, BOB, 10), Err(Error::InsufficientBalance));
    assert_eq!(b.free_balance(ALICE), 10);
    assert_eq!(b.transfer(ALICE, BOB, 9), Ok(()));
    assert_eq!(b.free_balance(ALICE), 1);
    assert_eq!(b.free_balance(BOB), 9);
    assert_eq!(b.total_issuance(), 10);
    assert_eq!(b.minimum_balance(), 1);
}

#[test]
fn validate_call_consults_the_allow_list() {
    let v = AllowListValidator;
    let allowed = vec![CallIndex { pallet: 1, call: 0 }];
    assert!(v.validate_call(&allowed, &call_a()));
    assert!(!v.validate_call(&allowed, &call_b()));
    assert!(!v.validate_call(&allowed, &vec![1u8]));
    let d = DenyAllValidator;
    assert!(!d.validate_call(&allowed, &call_a()));
}

#[test]
fn pallet_validate_call_uses_its_own_allow_list() {
    let mut pallet = Pallet::new(test_config());
    pallet.set_calls(&vec![call_a()]).unwrap();
    assert!(pallet.validate_call(&call_a()));
    assert!(!pallet.validate_call(&call_b()));
    assert!(!pallet.validate_call(&vec![1u8]));
}

#[test]
fn genesis_build_initializes_issuance_counters() {
    let mut pallet = Pallet::new(test_config());
    let genesis = GenesisConfig::default();
    assert_eq!(genesis.single_value, 0);
    assert_eq!(genesis.fee_value, 0);
    genesis.build(&mut pallet);
    assert_eq!(pallet.distance_count, Some(100));
    assert_eq!(pallet.fee, Some(100));
}
