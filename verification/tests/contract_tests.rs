use std::collections::HashMap;

use sorostream::address::Address;
use sorostream::contract::SoroStream;
use sorostream::effects::{Action, Effects, Transfer};
use sorostream::error::SoroError;
use sorostream::stream::Stream;

// ── Test harness ────────────────────────────────────────────────────────────
//
// The library decides; this harness plays the host. It keeps token balances
// per (token, holder), carries out the transfers an operation asks for (a
// transfer without the funds fails, as a token contract would), and turns a
// refused operation into a panic with the message the contract gives.

const CONTRACT: &str = "CSOROSTREAMCONTRACT";

fn addr(s: &str) -> Address {
    Address::new(s.as_bytes().to_vec())
}

fn message(e: SoroError) -> &'static str {
    match e {
        SoroError::AlreadyInitialized => "already initialized",
        SoroError::NotInitialized => "contract not initialized",
        SoroError::StreamNotFound => "stream not found",
        SoroError::Unauthorized => "caller is not authorized",
        SoroError::InvalidAmount => "amount must be positive",
        SoroError::InvalidTimeRange => "invalid time range",
        SoroError::NothingToClaim => "nothing to claim",
        SoroError::StreamEnded => "stream has been cancelled",
    }
}

struct Setup {
    book: SoroStream,
    balances: HashMap<(Vec<u8>, Vec<u8>), i128>,
    token: Address,
    admin: Address,
    sender: Address,
    recipient: Address,
    now: u64,
}

fn setup() -> Setup {
    let admin = addr("GADMIN");
    let mut book = SoroStream::new();
    book.initialize(admin.duplicate()).unwrap();
    let mut s = Setup {
        book,
        balances: HashMap::new(),
        token: addr("CTOKEN"),
        admin,
        sender: addr("GSENDER"),
        recipient: addr("GRECIPIENT"),
        now: 0,
    };
    // Mint tokens to the sender so they can fund streams.
    let (token, sender) = (s.token.duplicate(), s.sender.duplicate());
    s.credit(&token, &sender, 1_000_000_000);
    s
}

impl Setup {
    fn credit(&mut self, token: &Address, who: &Address, amount: i128) {
        *self.balances.entry((token.strkey.clone(), who.strkey.clone())).or_insert(0) += amount;
    }

    fn debit(&mut self, token: &Address, who: &Address, amount: i128) {
        let b = self.balances.entry((token.strkey.clone(), who.strkey.clone())).or_insert(0);
        assert!(*b >= amount, "balance is not sufficient to spend");
        *b -= amount;
    }

    fn apply(&mut self, fx: &Effects) {
        let contract = addr(CONTRACT);
        for a in &fx.actions {
            let t = match a {
                Action::Transfer(t) => t,
                _ => continue,
            };
            match t {
                Transfer::Deposit { token, from, amount } => {
                    self.debit(token, from, *amount);
                    self.credit(token, &contract, *amount);
                }
                Transfer::Payout { token, to, amount } => {
                    self.debit(token, &contract, *amount);
                    self.credit(token, to, *amount);
                }
            }
        }
    }

    fn balance(&self, who: &Address) -> i128 {
        *self.balances.get(&(self.token.strkey.clone(), who.strkey.clone())).unwrap_or(&0)
    }

    fn try_create_stream(&mut self, amount: i128, start: u64, end: u64) -> Result<u64, SoroError> {
        let r = self.book.create_stream(
            self.sender.duplicate(),
            self.recipient.duplicate(),
            self.token.duplicate(),
            amount,
            start,
            end,
            self.now,
        );
        let (id, fx) = r?;
        self.apply(&fx);
        Ok(id)
    }

    fn create_stream(&mut self, amount: i128, start: u64, end: u64) -> u64 {
        self.try_create_stream(amount, start, end).unwrap_or_else(|e| panic!("{}", message(e)))
    }

    fn try_claim_stream(&mut self, id: u64, who: &Address) -> Result<i128, SoroError> {
        let (amount, fx) = self.book.claim_stream(id, who, self.now)?;
        self.apply(&fx);
        Ok(amount)
    }

    fn claim_stream(&mut self, id: u64) -> i128 {
        let who = self.recipient.duplicate();
        self.try_claim_stream(id, &who).unwrap_or_else(|e| panic!("{}", message(e)))
    }

    fn try_cancel_stream(&mut self, id: u64, who: &Address) -> Result<(), SoroError> {
        let fx = self.book.cancel_stream(id, who, self.now)?;
        self.apply(&fx);
        Ok(())
    }

    fn cancel_stream(&mut self, id: u64) {
        let who = self.sender.duplicate();
        self.try_cancel_stream(id, &who).unwrap_or_else(|e| panic!("{}", message(e)))
    }

    fn get_stream(&self, id: u64) -> &Stream {
        self.book.get_stream(id).unwrap_or_else(|e| panic!("{}", message(e)))
    }
}

// ── Tests of the contract's documented behaviour ───────────────────────────

#[test]
fn test_initialize_only_once() {
    let Setup { mut book, admin, .. } = setup();
    let extra_admin = addr("GEXTRAADMIN");
    let result = book.initialize(extra_admin);
    assert!(result.is_err(), "second initialize should fail");
    let _ = admin;
}

#[test]
fn test_create_stream_happy_path() {
    let mut s = setup();
    // Advance the ledger so that start_time is in the future.
    s.now = 1_000;
    let start = 2_000_u64;
    let end = 12_000_u64; // 10 000 second stream

    let stream_id = s.create_stream(100_000_000_i128, start, end);

    assert_eq!(stream_id, 0);

    let stream = s.get_stream(stream_id);
    assert_eq!(stream.total_amount, 100_000_000);
    assert_eq!(stream.claimed_amount, 0);
    assert!(!stream.is_cancelled);
}

#[test]
fn test_claim_stream_half_elapsed() {
    let mut s = setup();
    s.now = 1_000;
    let start = 1_000_u64;
    let end = 11_000_u64; // 10 000 second stream

    let stream_id = s.create_stream(100_000_000_i128, start, end);

    // Wind forward to halfway.
    s.now = 6_000; // 5 000s elapsed = 50 %

    let claimed = s.claim_stream(stream_id);

    assert_eq!(claimed, 50_000_000, "50 % of 100M should be claimable");
    assert_eq!(s.balance(&s.recipient), 50_000_000);
}

#[test]
fn test_claim_stream_fully_elapsed() {
    let mut s = setup();
    s.now = 1_000;
    let start = 1_000_u64;
    let end = 11_000_u64;

    let stream_id = s.create_stream(100_000_000_i128, start, end);

    // Wind past end_time.
    s.now = 20_000;

    let claimed = s.claim_stream(stream_id);
    assert_eq!(claimed, 100_000_000, "full amount vested after end_time");
    assert_eq!(s.balance(&s.recipient), 100_000_000);
}

#[test]
#[should_panic(expected = "nothing to claim")]
fn test_claim_before_start_panics() {
    let mut s = setup();
    s.now = 1_000;
    let start = 5_000_u64;
    let end = 15_000_u64;

    let stream_id = s.create_stream(100_000_000_i128, start, end);

    // Claim before the stream has started.
    s.now = 2_000;
    s.claim_stream(stream_id);
}

#[test]
#[should_panic(expected = "amount must be positive")]
fn test_create_stream_zero_amount_panics() {
    let mut s = setup();
    s.now = 1_000;
    s.create_stream(0_i128, 2_000_u64, 5_000_u64);
}

#[test]
fn test_cancel_at_50pct() {
    let mut s = setup();
    s.now = 1_000;
    let start = 1_000_u64;
    let end = 11_000_u64;

    let stream_id = s.create_stream(100_000_000_i128, start, end);

    // Wind forward to halfway.
    s.now = 6_000;

    s.cancel_stream(stream_id);

    assert_eq!(s.balance(&s.recipient), 50_000_000, "50% to recipient");
    assert_eq!(s.balance(&s.sender), 950_000_000, "50% refunded to sender (900M + 50M)");

    let stream = s.get_stream(stream_id);
    assert!(stream.is_cancelled);
    assert_eq!(stream.claimed_amount, 50_000_000);
}

#[test]
fn test_cancel_before_start() {
    let mut s = setup();
    s.now = 1_000;
    let start = 5_000_u64;
    let end = 15_000_u64;

    let stream_id = s.create_stream(100_000_000_i128, start, end);

    s.now = 2_000;
    s.cancel_stream(stream_id);

    assert_eq!(s.balance(&s.recipient), 0);
    assert_eq!(s.balance(&s.sender), 1_000_000_000, "100% refunded");
}

#[test]
fn test_cancel_after_end() {
    let mut s = setup();
    s.now = 1_000;
    let start = 1_000_u64;
    let end = 11_000_u64;

    let stream_id = s.create_stream(100_000_000_i128, start, end);

    s.now = 20_000;
    s.cancel_stream(stream_id);

    assert_eq!(s.balance(&s.recipient), 100_000_000, "100% claimable");
    assert_eq!(s.balance(&s.sender), 900_000_000, "0 refund");
}

#[test]
#[should_panic(expected = "stream has been cancelled")]
fn test_claim_after_cancel_panics() {
    let mut s = setup();
    s.now = 1_000;
    let start = 1_000_u64;
    let end = 11_000_u64;

    let stream_id = s.create_stream(100_000_000_i128, start, end);

    s.now = 6_000;
    s.cancel_stream(stream_id);

    s.claim_stream(stream_id);
}

// ── Escrow ──────────────────────────────────────────────────────────────────

#[test]
fn escrow_balance_matches_what_active_streams_owe() {
    let mut s = setup();
    s.now = 100;
    let a = s.create_stream(40_000, 100, 1_100);
    let b = s.create_stream(90_000, 200, 400);
    let contract = addr(CONTRACT);
    let owed = |s: &Setup| -> i128 {
        [a, b]
            .iter()
            .map(|id| s.get_stream(*id))
            .filter(|st| !st.is_cancelled)
            .map(|st| st.total_amount - st.claimed_amount)
            .sum()
    };
    assert_eq!(s.balance(&contract), owed(&s));
    s.now = 350;
    s.claim_stream(a);
    s.claim_stream(b);
    assert_eq!(s.balance(&contract), owed(&s));
    s.now = 600;
    s.cancel_stream(a);
    assert_eq!(s.balance(&contract), owed(&s));
    s.claim_stream(b);
    assert_eq!(s.balance(&contract), owed(&s));
    assert_eq!(s.balance(&contract), 0);
    assert_eq!(s.balance(&s.recipient) + s.balance(&s.sender), 1_000_000_000);
}


#[test]
fn claimable_amount_of_a_cancelled_stream_is_zero() {
    let mut s = setup();
    s.now = 1_000;
    let id = s.create_stream(100_000_000_i128, 1_000, 11_000);
    s.now = 6_000;
    s.cancel_stream(id);
    s.now = 11_000;
    assert_eq!(s.book.claimable_amount(id, s.now), Ok(0));
    assert_eq!(s.balance(&s.sender), 950_000_000);
}
