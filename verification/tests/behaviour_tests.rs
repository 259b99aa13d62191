use sorostream::address::Address;
use sorostream::contract::SoroStream;
use sorostream::effects::{Action, DataKey, Effects, Event, Transfer};
use sorostream::error::SoroError;
use sorostream::stream::Stream;

fn addr(s: &str) -> Address {
    Address::new(s.as_bytes().to_vec())
}

fn initialized() -> SoroStream {
    let mut book = SoroStream::new();
    book.initialize(addr("GADMIN")).unwrap();
    book
}

/// Creates a stream of `amount` from GSENDER to GRECIPIENT in CTOKEN.
fn create(book: &mut SoroStream, amount: i128, start: u64, end: u64, now: u64) -> Result<u64, SoroError> {
    book.create_stream(addr("GSENDER"), addr("GRECIPIENT"), addr("CTOKEN"), amount, start, end, now)
        .map(|(id, _)| id)
}

/// The transfers among an operation's actions, in order.
fn transfers(fx: &Effects) -> Vec<&Transfer> {
    fx.actions
        .iter()
        .filter_map(|a| match a {
            Action::Transfer(t) => Some(t),
            _ => None,
        })
        .collect()
}

fn stream(id: u64, total: i128, claimed: i128, start: u64, end: u64, cancelled: bool) -> Stream {
    Stream {
        id,
        sender: addr("GSENDER"),
        recipient: addr("GRECIPIENT"),
        token: addr("CTOKEN"),
        total_amount: total,
        claimed_amount: claimed,
        start_time: start,
        end_time: end,
        is_cancelled: cancelled,
    }
}

// ── Addresses ──────────────────────────────────────────────────────────────

#[test]
fn address_same_as_compares_strkeys() {
    assert!(addr("GABC").same_as(&addr("GABC")));
    assert!(!addr("GABC").same_as(&addr("GABD")));
    assert!(!addr("GABC").same_as(&addr("GAB")));
    assert!(addr("").same_as(&addr("")));
}

#[test]
fn address_duplicate_is_equal() {
    let a = addr("CTOKENADDRESS");
    let b = a.duplicate();
    assert_eq!(a, b);
    assert!(a.same_as(&b));
}

// ── Vesting formula ────────────────────────────────────────────────────────

#[test]
fn compute_claimable_exact_values() {
    let s = stream(0, 100_000_000, 0, 1_000, 11_000, false);
    assert_eq!(SoroStream::compute_claimable(&s, 500), 0);
    assert_eq!(SoroStream::compute_claimable(&s, 1_000), 0);
    assert_eq!(SoroStream::compute_claimable(&s, 3_500), 25_000_000);
    assert_eq!(SoroStream::compute_claimable(&s, 6_000), 50_000_000);
    assert_eq!(SoroStream::compute_claimable(&s, 11_000), 100_000_000);
    assert_eq!(SoroStream::compute_claimable(&s, 99_999), 100_000_000);
}

#[test]
fn compute_claimable_rounds_down() {
    // 10 tokens over 3 seconds: after 1 second 10 * 1 / 3 = 3.
    let s = stream(0, 10, 0, 100, 103, false);
    assert_eq!(SoroStream::compute_claimable(&s, 101), 3);
    assert_eq!(SoroStream::compute_claimable(&s, 102), 6);
    assert_eq!(SoroStream::compute_claimable(&s, 103), 10);
}

#[test]
fn compute_claimable_subtracts_claimed_and_never_goes_negative() {
    let s = stream(0, 1_000, 400, 0, 1_000, false);
    assert_eq!(SoroStream::compute_claimable(&s, 500), 100);
    assert_eq!(SoroStream::compute_claimable(&s, 300), 0);
    assert_eq!(SoroStream::compute_claimable(&s, 2_000), 600);
}

#[test]
fn vested_amount_never_decreases_over_time() {
    let s = stream(0, 7_777, 0, 10, 1_010, false);
    let mut last = 0;
    for t in (0..1_100).step_by(7) {
        let c = SoroStream::compute_claimable(&s, t);
        assert!(c >= last);
        assert!(c <= 7_777);
        last = c;
    }
    assert_eq!(last, 7_777);
}

#[test]
fn vesting_fits_detects_overflow() {
    let mut book = initialized();
    let id = create(&mut book, i128::MAX, 0, u64::MAX, 0).unwrap();
    assert!(book.vesting_fits(id, 0));
    assert!(book.vesting_fits(id, 1));
    assert!(!book.vesting_fits(id, 2));
    assert!(book.vesting_fits(77, 5));
}

// ── initialize ─────────────────────────────────────────────────────────────

#[test]
fn initialize_records_admin_and_counter() {
    let mut book = SoroStream::new();
    assert!(!book.is_initialized());
    let fx = book.initialize(addr("GADMIN")).unwrap();
    assert!(book.is_initialized());
    assert_eq!(book.admin(), Some(&addr("GADMIN")));
    assert_eq!(book.next_stream_id(), 0);
    assert_eq!(
        fx.actions,
        vec![
            Action::RequireAuth(addr("GADMIN")),
            Action::Write(DataKey::Init),
            Action::Write(DataKey::Admin),
            Action::Write(DataKey::NextStreamId),
            Action::Publish(Event::ProtocolInitialized { admin: addr("GADMIN") }),
        ]
    );
}

#[test]
fn initialize_twice_is_already_initialized_and_changes_nothing() {
    let mut book = initialized();
    assert_eq!(book.initialize(addr("GOTHER")).unwrap_err(), SoroError::AlreadyInitialized);
    assert_eq!(book.admin(), Some(&addr("GADMIN")));
}

// ── create_stream ──────────────────────────────────────────────────────────

#[test]
fn create_before_initialize_is_not_initialized() {
    let mut book = SoroStream::new();
    assert_eq!(create(&mut book, 100, 10, 20, 0), Err(SoroError::NotInitialized));
    assert_eq!(book.next_stream_id(), 0);
}

#[test]
fn create_rejects_non_positive_amount() {
    let mut book = initialized();
    assert_eq!(create(&mut book, 0, 10, 20, 0), Err(SoroError::InvalidAmount));
    assert_eq!(create(&mut book, -5, 10, 20, 0), Err(SoroError::InvalidAmount));
}

#[test]
fn create_rejects_start_in_the_past() {
    let mut book = initialized();
    assert_eq!(create(&mut book, 100, 9, 20, 10), Err(SoroError::InvalidTimeRange));
    // A start exactly at the current time is accepted.
    assert_eq!(create(&mut book, 100, 10, 20, 10), Ok(0));
}

#[test]
fn create_rejects_empty_window() {
    let mut book = initialized();
    assert_eq!(create(&mut book, 100, 20, 20, 0), Err(SoroError::InvalidTimeRange));
    assert_eq!(create(&mut book, 100, 20, 19, 0), Err(SoroError::InvalidTimeRange));
    assert_eq!(book.next_stream_id(), 0);
}

#[test]
fn create_assigns_successive_ids_and_reports_effects() {
    let mut book = initialized();
    let (id0, fx) = book
        .create_stream(addr("GSENDER"), addr("GRECIPIENT"), addr("CTOKEN"), 500, 10, 20, 5)
        .unwrap();
    assert_eq!(id0, 0);
    // Signature first, then the state is written, then the tokens move.
    assert_eq!(
        fx.actions,
        vec![
            Action::RequireAuth(addr("GSENDER")),
            Action::Write(DataKey::Stream(0)),
            Action::Write(DataKey::NextStreamId),
            Action::Transfer(Transfer::Deposit { token: addr("CTOKEN"), from: addr("GSENDER"), amount: 500 }),
            Action::Publish(Event::StreamCreated {
                stream_id: 0,
                sender: addr("GSENDER"),
                recipient: addr("GRECIPIENT"),
                token: addr("CTOKEN"),
                amount: 500,
                start_time: 10,
                end_time: 20,
            }),
        ]
    );
    let id1 = create(&mut book, 700, 30, 40, 5).unwrap();
    assert_eq!(id1, 1);
    assert_eq!(book.next_stream_id(), 2);
    assert_eq!(book.get_stream(0).unwrap(), &stream(0, 500, 0, 10, 20, false));
    assert_eq!(book.get_stream(1).unwrap(), &stream(1, 700, 0, 30, 40, false));
}

// ── claim_stream ───────────────────────────────────────────────────────────

#[test]
fn claim_unknown_stream_is_not_found() {
    let mut book = initialized();
    assert_eq!(book.claim_stream(3, &addr("GRECIPIENT"), 100).unwrap_err(), SoroError::StreamNotFound);
}

#[test]
fn claim_by_other_than_recipient_is_unauthorized() {
    let mut book = initialized();
    let id = create(&mut book, 1_000, 0, 100, 0).unwrap();
    assert_eq!(book.claim_stream(id, &addr("GSENDER"), 50).unwrap_err(), SoroError::Unauthorized);
    assert_eq!(book.get_stream(id).unwrap().claimed_amount, 0);
}

#[test]
fn claim_pays_the_vested_part_and_reports_effects() {
    let mut book = initialized();
    let id = create(&mut book, 1_000, 0, 100, 0).unwrap();
    let (amount, fx) = book.claim_stream(id, &addr("GRECIPIENT"), 25).unwrap();
    assert_eq!(amount, 250);
    assert_eq!(
        fx.actions,
        vec![
            Action::RequireAuth(addr("GRECIPIENT")),
            Action::Write(DataKey::Stream(id)),
            Action::Transfer(Transfer::Payout { token: addr("CTOKEN"), to: addr("GRECIPIENT"), amount: 250 }),
            Action::Publish(Event::StreamClaimed { stream_id: id, recipient: addr("GRECIPIENT"), amount: 250 }),
        ]
    );
    assert_eq!(book.get_stream(id).unwrap().claimed_amount, 250);
    // Later claims pay only what vested since.
    let (amount, _) = book.claim_stream(id, &addr("GRECIPIENT"), 60).unwrap();
    assert_eq!(amount, 350);
    assert_eq!(book.get_stream(id).unwrap().claimed_amount, 600);
}

#[test]
fn no_double_claim_at_the_same_time() {
    let mut book = initialized();
    let id = create(&mut book, 1_000, 0, 100, 0).unwrap();
    book.claim_stream(id, &addr("GRECIPIENT"), 40).unwrap();
    assert_eq!(book.claim_stream(id, &addr("GRECIPIENT"), 40).unwrap_err(), SoroError::NothingToClaim);
    assert_eq!(book.claim_stream(id, &addr("GRECIPIENT"), 30).unwrap_err(), SoroError::NothingToClaim);
    assert_eq!(book.get_stream(id).unwrap().claimed_amount, 400);
}

#[test]
fn claimable_amount_predicts_claim() {
    let mut book = initialized();
    let id = create(&mut book, 999, 0, 1_000, 0).unwrap();
    let predicted = book.claimable_amount(id, 333).unwrap();
    assert_eq!(predicted, 332);
    let (paid, _) = book.claim_stream(id, &addr("GRECIPIENT"), 333).unwrap();
    assert_eq!(paid, predicted);
    assert_eq!(book.claimable_amount(id, 333).unwrap(), 0);
    assert_eq!(book.claimable_amount(9, 333).unwrap_err(), SoroError::StreamNotFound);
}

// ── cancel_stream ──────────────────────────────────────────────────────────

#[test]
fn cancel_by_other_than_sender_is_unauthorized() {
    let mut book = initialized();
    let id = create(&mut book, 1_000, 0, 100, 0).unwrap();
    assert_eq!(book.cancel_stream(id, &addr("GRECIPIENT"), 50).unwrap_err(), SoroError::Unauthorized);
    assert!(!book.get_stream(id).unwrap().is_cancelled);
    assert_eq!(book.cancel_stream(8, &addr("GSENDER"), 50).unwrap_err(), SoroError::StreamNotFound);
}

#[test]
fn cancel_splits_and_reports_effects() {
    let mut book = initialized();
    let id = create(&mut book, 1_000, 0, 100, 0).unwrap();
    book.claim_stream(id, &addr("GRECIPIENT"), 20).unwrap();
    let fx = book.cancel_stream(id, &addr("GSENDER"), 70).unwrap();
    assert_eq!(
        fx.actions,
        vec![
            Action::RequireAuth(addr("GSENDER")),
            Action::Write(DataKey::Stream(id)),
            Action::Transfer(Transfer::Payout { token: addr("CTOKEN"), to: addr("GRECIPIENT"), amount: 500 }),
            Action::Transfer(Transfer::Payout { token: addr("CTOKEN"), to: addr("GSENDER"), amount: 300 }),
            Action::Publish(Event::StreamCancelled { stream_id: id, sender_refund: 300, recipient_claimable: 500 }),
        ]
    );
    let s = book.get_stream(id).unwrap();
    assert!(s.is_cancelled);
    assert_eq!(s.claimed_amount, 700);
}

#[test]
fn cancel_skips_zero_payouts() {
    let mut book = initialized();
    let a = create(&mut book, 1_000, 10, 100, 0).unwrap();
    let fx = book.cancel_stream(a, &addr("GSENDER"), 5).unwrap();
    assert_eq!(transfers(&fx), vec![&Transfer::Payout { token: addr("CTOKEN"), to: addr("GSENDER"), amount: 1_000 }]);
    let b = create(&mut book, 1_000, 10, 100, 0).unwrap();
    let fx = book.cancel_stream(b, &addr("GSENDER"), 500).unwrap();
    assert_eq!(transfers(&fx), vec![&Transfer::Payout { token: addr("CTOKEN"), to: addr("GRECIPIENT"), amount: 1_000 }]);
    assert_eq!(
        fx.actions.last(),
        Some(&Action::Publish(Event::StreamCancelled { stream_id: b, sender_refund: 0, recipient_claimable: 1_000 }))
    );
}

#[test]
fn cancel_is_final() {
    let mut book = initialized();
    let id = create(&mut book, 1_000, 0, 100, 0).unwrap();
    book.cancel_stream(id, &addr("GSENDER"), 30).unwrap();
    assert_eq!(book.cancel_stream(id, &addr("GSENDER"), 40).unwrap_err(), SoroError::StreamEnded);
    assert_eq!(book.claim_stream(id, &addr("GRECIPIENT"), 90).unwrap_err(), SoroError::StreamEnded);
    assert_eq!(book.get_stream(id).unwrap(), &stream(id, 1_000, 300, 0, 100, true));
}

#[test]
fn cancel_leaves_other_streams_alone() {
    let mut book = initialized();
    let a = create(&mut book, 1_000, 0, 100, 0).unwrap();
    let b = create(&mut book, 2_000, 0, 100, 0).unwrap();
    book.cancel_stream(a, &addr("GSENDER"), 50).unwrap();
    assert_eq!(book.get_stream(b).unwrap(), &stream(b, 2_000, 0, 0, 100, false));
}

// ── Escrow accounting ──────────────────────────────────────────────────────

#[test]
fn paid_out_over_a_stream_life_equals_its_amount() {
    let mut book = initialized();
    let id = create(&mut book, 12_345, 0, 1_000, 0).unwrap();
    let mut paid: i128 = 0;
    for t in [100, 250, 251, 700] {
        let (amount, _) = book.claim_stream(id, &addr("GRECIPIENT"), t).unwrap();
        paid += amount;
    }
    let fx = book.cancel_stream(id, &addr("GSENDER"), 800).unwrap();
    for t in transfers(&fx) {
        if let Transfer::Payout { amount, .. } = t {
            paid += *amount;
        }
    }
    assert_eq!(paid, 12_345);
}

// ── Rebuilding the state from storage entries ──────────────────────────────

#[test]
fn from_storage_rejects_inconsistent_entries() {
    assert!(SoroStream::from_storage(false, None, 0).is_some());
    assert!(SoroStream::from_storage(false, Some(addr("GADMIN")), 0).is_none());
    assert!(SoroStream::from_storage(false, None, 3).is_none());
    let st = SoroStream::from_storage(true, Some(addr("GADMIN")), 3).unwrap();
    assert_eq!(st.next_stream_id(), 3);
    assert!(st.get_stream(0).is_err());
}

#[test]
fn restore_stream_accepts_only_consistent_streams() {
    let mut st = SoroStream::from_storage(true, Some(addr("GADMIN")), 3).unwrap();
    assert!(!st.restore_stream(stream(3, 100, 0, 0, 10, false)));
    assert!(!st.restore_stream(stream(1, 0, 0, 0, 10, false)));
    assert!(!st.restore_stream(stream(1, 100, 101, 0, 10, false)));
    assert!(!st.restore_stream(stream(1, 100, 0, 10, 10, false)));
    assert!(st.restore_stream(stream(1, 100, 20, 0, 10, false)));
    assert!(!st.restore_stream(stream(1, 100, 20, 0, 10, false)));
    let mut empty = SoroStream::new();
    assert!(!empty.restore_stream(stream(0, 100, 0, 0, 10, false)));
}

#[test]
fn a_restored_window_behaves_like_the_full_state() {
    let mut full = initialized();
    create(&mut full, 1_000, 0, 100, 0).unwrap();
    create(&mut full, 4_000, 0, 100, 0).unwrap();
    let mut window = SoroStream::from_storage(true, Some(addr("GADMIN")), full.next_stream_id()).unwrap();
    assert!(window.restore_stream(stream(1, 4_000, 0, 0, 100, false)));
    let (a, fa) = full.claim_stream(1, &addr("GRECIPIENT"), 30).unwrap();
    let (b, fb) = window.claim_stream(1, &addr("GRECIPIENT"), 30).unwrap();
    assert_eq!(a, 1_200);
    assert_eq!(a, b);
    assert_eq!(fa, fb);
    assert_eq!(full.get_stream(1).unwrap(), window.get_stream(1).unwrap());
}

#[test]
fn error_codes_follow_variant_order() {
    assert_eq!(SoroError::AlreadyInitialized.code(), 1);
    assert_eq!(SoroError::NotInitialized.code(), 2);
    assert_eq!(SoroError::StreamNotFound.code(), 3);
    assert_eq!(SoroError::Unauthorized.code(), 4);
    assert_eq!(SoroError::InvalidAmount.code(), 5);
    assert_eq!(SoroError::InvalidTimeRange.code(), 6);
    assert_eq!(SoroError::NothingToClaim.code(), 7);
    assert_eq!(SoroError::StreamEnded.code(), 8);
}

#[test]
fn nothing_is_claimable_from_a_cancelled_stream() {
    let mut book = initialized();
    let id = create(&mut book, 100_000_000, 1_000, 11_000, 1_000).unwrap();
    book.cancel_stream(id, &addr("GSENDER"), 6_000).unwrap();
    assert_eq!(book.claimable_amount(id, 6_000), Ok(0));
    assert_eq!(book.claimable_amount(id, 11_000), Ok(0));
    assert_eq!(book.claimable_amount(id, 50_000), Ok(0));
}

#[test]
fn a_cancelled_stream_never_changes_again() {
    let mut book = initialized();
    let id = create(&mut book, 5_000, 0, 100, 0).unwrap();
    book.cancel_stream(id, &addr("GSENDER"), 40).unwrap();
    let other = create(&mut book, 7_000, 50, 150, 40).unwrap();
    assert_eq!(other, id + 1);
    for t in [40, 60, 100, 200] {
        assert!(book.claim_stream(id, &addr("GRECIPIENT"), t).is_err());
        assert!(book.cancel_stream(id, &addr("GSENDER"), t).is_err());
        assert!(book.claim_stream(id, &addr("GSENDER"), t).is_err());
    }
    book.claim_stream(other, &addr("GRECIPIENT"), 100).unwrap();
    assert_eq!(book.get_stream(id).unwrap(), &stream(id, 5_000, 2_000, 0, 100, true));
}

#[test]
fn ids_are_consecutive_across_other_calls() {
    let mut book = initialized();
    let mut ids = Vec::new();
    for k in 0..5u64 {
        ids.push(create(&mut book, 1_000 + k as i128, 10, 20, 0).unwrap());
        // Refused and other calls in between take no id.
        assert!(create(&mut book, 0, 10, 20, 0).is_err());
        let _ = book.claim_stream(k, &addr("GRECIPIENT"), 15);
        if k % 2 == 1 {
            book.cancel_stream(k, &addr("GSENDER"), 16).unwrap();
        }
    }
    assert_eq!(ids, vec![0, 1, 2, 3, 4]);
    assert_eq!(book.next_stream_id(), 5);
}
