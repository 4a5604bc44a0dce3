use pallet_lottery::calls::call_to_index;
use pallet_lottery::calls::calls_to_indices;
use pallet_lottery::random::generate_random_number;
use pallet_lottery::random::FixedRandom;
use pallet_lottery::selector::choose_ticket;
use pallet_lottery::CallIndex;
use pallet_lottery::Error;

#[test]
fn choose_ticket_of_zero_tickets_is_none() {
    let rng = FixedRandom { words: vec![7] };
    assert_eq!(choose_ticket(&rng, 0, 10), None);
}

#[test]
fn choose_ticket_is_within_range() {
    let rng = FixedRandom { words: vec![7] };
    // 7 is far below the acceptance threshold: it is used directly.
    assert_eq!(choose_ticket(&rng, 5, 10), Some(2));
    let rng = FixedRandom {
        words: vec![4_000_000_000],
    };
    let ticket = choose_ticket(&rng, 7, 10).unwrap();
    assert!(ticket < 7);
}

#[test]
fn rejected_draws_are_retried_with_the_next_seed() {
    // u32::MAX is a multiple of 5, so the threshold is u32::MAX itself and
    // the first draw is rejected; the second seed yields 3.
    let rng = FixedRandom {
        words: vec![u32::MAX, 3],
    };
    assert_eq!(choose_ticket(&rng, 5, 10), Some(3));
}

#[test]
fn exhausted_retry_budget_uses_the_last_draw() {
    // Every draw is rejected; after three attempts the last one is used
    // best-effort: u32::MAX % 5 == 0.
    let rng = FixedRandom {
        words: vec![u32::MAX],
    };
    assert_eq!(choose_ticket(&rng, 5, 3), Some(0));
}

#[test]
fn selection_is_reproducible_with_a_deterministic_stub() {
    let rng1 = FixedRandom {
        words: vec![u32::MAX, 11, 22],
    };
    let rng2 = FixedRandom {
        words: vec![u32::MAX, 11, 22],
    };
    assert_eq!(choose_ticket(&rng1, 9, 10), choose_ticket(&rng2, 9, 10));
    assert_eq!(choose_ticket(&rng1, 9, 10), Some(11 % 9));
}

#[test]
fn random_number_is_decoded_little_endian() {
    let rng = FixedRandom {
        words: vec![0x0102_0304],
    };
    assert_eq!(generate_random_number(&rng, 0), 0x0102_0304);
    // The seed picks the word modulo the table length.
    let rng = FixedRandom { words: vec![5, 6] };
    assert_eq!(generate_random_number(&rng, 0), 5);
    assert_eq!(generate_random_number(&rng, 1), 6);
    assert_eq!(generate_random_number(&rng, 2), 5);
}

#[test]
fn empty_random_table_yields_zero() {
    let rng = FixedRandom { words: vec![] };
    assert_eq!(generate_random_number(&rng, 3), 0);
}

#[test]
fn call_to_index_takes_the_first_two_bytes() {
    assert_eq!(
        call_to_index(&vec![7u8, 9u8, 1u8]),
        Ok(CallIndex { pallet: 7, call: 9 })
    );
    assert_eq!(call_to_index(&vec![7u8]), Err(Error::EncodingFailed));
    assert_eq!(call_to_index(&vec![]), Err(Error::EncodingFailed));
}

#[test]
fn calls_to_indices_converts_all_or_nothing() {
    let r = calls_to_indices(&vec![vec![1u8, 2u8], vec![3u8, 4u8]]);
    assert_eq!(
        r,
        Ok(vec![
            CallIndex { pallet: 1, call: 2 },
            CallIndex { pallet: 3, call: 4 },
        ])
    );
    let r = calls_to_indices(&vec![vec![1u8, 2u8], vec![9u8]]);
    assert_eq!(r, Err(Error::EncodingFailed));
}
