use dpm::errors::DpmError;
use dpm::lifecycle::Dpm;
use dpm::market::create_market;
use dpm::market::place_bet;
use dpm::market::resolve_market;
use dpm::market::BetOutcome;
use dpm::market::BetProps;
use dpm::market::MarketStatus;
use dpm::market::NewContractProps;
use dpm::market::ResolutionOutcome;
use dpm::market::SeedAmounts;
use dpm::settle::claim_payout;
use dpm::settle::payout_amount;
use dpm::settle::pro_rata_share;

fn props(id: &str, creator: &str, yes: u64, no: u64) -> NewContractProps {
    NewContractProps {
        id: String::from(id),
        creator_id: String::from(creator),
        question: String::from("will it settle?"),
        description: String::from("a test market"),
        seed_amounts: SeedAmounts { yes, no },
    }
}

fn bet(user: &str, outcome: BetOutcome, amount: u64) -> BetProps {
    BetProps { amount, user_id: String::from(user), outcome }
}

#[test]
fn create_sets_pools_to_seeds() {
    let m = create_market(props("m1", "alice", 100, 40), 7).unwrap();
    assert_eq!(m.pool.yes_total, 100);
    assert_eq!(m.pool.no_total, 40);
    assert_eq!(m.created_time, 7);
    assert_eq!(m.last_updated_time, 7);
    assert!(matches!(m.status, MarketStatus::Open));
}

#[test]
fn create_rejects_zero_seeds() {
    let r = create_market(props("m1", "alice", 0, 0), 7);
    assert_eq!(r.err().unwrap(), DpmError::InvalidSeed);
}

#[test]
fn create_rejects_overflowing_seeds() {
    let r = create_market(props("m1", "alice", u64::MAX, 1), 7);
    assert_eq!(r.err().unwrap(), DpmError::AmountOverflow);
}

#[test]
fn place_bet_grows_one_pool() {
    let mut m = create_market(props("m1", "alice", 100, 100), 7).unwrap();
    let b = place_bet(&mut m, bet("bob", BetOutcome::Yes, 50), 0, 9).unwrap();
    assert_eq!(m.pool.yes_total, 150);
    assert_eq!(m.pool.no_total, 100);
    assert_eq!(m.last_updated_time, 9);
    assert_eq!(b.amount, 50);
    assert_eq!(b.market_id, String::from("m1"));
    assert_eq!(b.bettor_id, String::from("bob"));
    assert!(!b.claimed);
}

#[test]
fn place_bet_rejects_zero_amount() {
    let mut m = create_market(props("m1", "alice", 100, 100), 7).unwrap();
    let r = place_bet(&mut m, bet("bob", BetOutcome::Yes, 0), 0, 9);
    assert_eq!(r.err().unwrap(), DpmError::InvalidAmount);
    assert_eq!(m.pool.yes_total, 100);
}

#[test]
fn place_bet_rejects_closed_market() {
    let mut m = create_market(props("m1", "alice", 100, 100), 7).unwrap();
    let creator = String::from("alice");
    resolve_market(&mut m, ResolutionOutcome::Yes, &creator, 9).unwrap();
    let r = place_bet(&mut m, bet("bob", BetOutcome::Yes, 50), 0, 10);
    assert_eq!(r.err().unwrap(), DpmError::MarketClosed);
}

#[test]
fn place_bet_rejects_pool_overflow() {
    let mut m = create_market(props("m1", "alice", u64::MAX - 10, 5), 7).unwrap();
    let r = place_bet(&mut m, bet("bob", BetOutcome::No, 10), 0, 9);
    assert_eq!(r.err().unwrap(), DpmError::AmountOverflow);
    assert_eq!(m.pool.yes_total, u64::MAX - 10);
    assert_eq!(m.pool.no_total, 5);
    let ok = place_bet(&mut m, bet("bob", BetOutcome::No, 5), 0, 9);
    assert!(ok.is_ok());
    assert_eq!(m.pool.no_total, 10);
}

#[test]
fn resolve_is_terminal_and_exclusive() {
    let mut m = create_market(props("m1", "alice", 100, 100), 7).unwrap();
    let creator = String::from("alice");
    resolve_market(&mut m, ResolutionOutcome::No, &creator, 9).unwrap();
    let pool_before = m.pool;
    let r = resolve_market(&mut m, ResolutionOutcome::Yes, &creator, 11).unwrap_err();
    assert_eq!(r, DpmError::AlreadyResolved);
    assert_eq!(m.pool, pool_before);
    assert_eq!(m.last_updated_time, 9);
    match m.status {
        MarketStatus::Decided(res) => {
            assert_eq!(res.time, 9);
            assert!(matches!(res.outcome, ResolutionOutcome::No));
        }
        MarketStatus::Open => panic!("market must stay decided"),
    }
}

#[test]
fn resolve_rejects_unauthorized_caller() {
    let mut m = create_market(props("m1", "alice", 100, 100), 7).unwrap();
    let stranger = String::from("mallory");
    let r = resolve_market(&mut m, ResolutionOutcome::Yes, &stranger, 9).unwrap_err();
    assert_eq!(r, DpmError::Unauthorized);
    assert!(matches!(m.status, MarketStatus::Open));
}

#[test]
fn parimutuel_example_pays_133() {
    // Seeds {yes: 100, no: 100}; A stakes 50 on Yes, B stakes 150 on No;
    // resolved to Yes: W = 150, L = 250, A's payout = 50 + floor(50*250/150).
    let mut m = create_market(props("m1", "alice", 100, 100), 7).unwrap();
    let mut a = place_bet(&mut m, bet("a", BetOutcome::Yes, 50), 0, 8).unwrap();
    let mut b = place_bet(&mut m, bet("b", BetOutcome::No, 150), 1, 9).unwrap();
    let creator = String::from("alice");
    resolve_market(&mut m, ResolutionOutcome::Yes, &creator, 10).unwrap();
    assert_eq!(m.pool.yes_total, 150);
    assert_eq!(m.pool.no_total, 250);
    let payout_a = claim_payout(&m, &mut a).unwrap();
    assert_eq!(payout_a, 133);
    assert!(a.claimed);
    let payout_b = claim_payout(&m, &mut b).unwrap();
    assert_eq!(payout_b, 0);
}

#[test]
fn claim_rejects_open_market() {
    let mut m = create_market(props("m1", "alice", 100, 100), 7).unwrap();
    let mut a = place_bet(&mut m, bet("a", BetOutcome::Yes, 50), 0, 8).unwrap();
    let r = claim_payout(&m, &mut a).unwrap_err();
    assert_eq!(r, DpmError::NotResolved);
    assert!(!a.claimed);
}

#[test]
fn claim_pays_at_most_once() {
    let mut m = create_market(props("m1", "alice", 100, 100), 7).unwrap();
    let mut a = place_bet(&mut m, bet("a", BetOutcome::Yes, 50), 0, 8).unwrap();
    let creator = String::from("alice");
    resolve_market(&mut m, ResolutionOutcome::Yes, &creator, 10).unwrap();
    // W = 150, L = 100: payout is 50 + floor(50*100/150) = 83.
    let first = claim_payout(&m, &mut a).unwrap();
    assert_eq!(first, 83);
    let second = claim_payout(&m, &mut a).unwrap_err();
    assert_eq!(second, DpmError::AlreadyClaimed);
    assert!(a.claimed);
    assert_eq!(a.amount, 50);
}

#[test]
fn cancellation_refunds_every_stake() {
    let mut m = create_market(props("m1", "alice", 100, 100), 7).unwrap();
    let mut a = place_bet(&mut m, bet("a", BetOutcome::Yes, 50), 0, 8).unwrap();
    let mut b = place_bet(&mut m, bet("b", BetOutcome::No, 150), 1, 9).unwrap();
    let creator = String::from("alice");
    resolve_market(&mut m, ResolutionOutcome::Cancel, &creator, 10).unwrap();
    assert_eq!(claim_payout(&m, &mut a).unwrap(), 50);
    assert_eq!(claim_payout(&m, &mut b).unwrap(), 150);
}

#[test]
fn payout_math_exact_values() {
    assert_eq!(pro_rata_share(50, 150, 250), 83);
    assert_eq!(payout_amount(50, 150, 250), 133);
    assert_eq!(payout_amount(100, 150, 250), 266);
    // Degenerate winning pool: nothing to redistribute against.
    assert_eq!(payout_amount(0, 0, 250), 0);
    // Full pool as one stake takes the whole losing pool.
    assert_eq!(payout_amount(150, 150, 250), 400);
}

#[test]
fn store_lifecycle_end_to_end() {
    let mut store = Dpm::new();
    let id = String::from("m1");
    let creator = String::from("alice");
    store.create_market(props("m1", "alice", 100, 100), 7).unwrap();
    let dup = store.create_market(props("m1", "alice", 5, 5), 8).unwrap_err();
    assert_eq!(dup, DpmError::DuplicateMarket);
    let seq_a = store.place_bet(&id, bet("a", BetOutcome::Yes, 50), 8).unwrap();
    assert_eq!(seq_a, 0);
    let seq_b = store.place_bet(&id, bet("b", BetOutcome::No, 150), 9).unwrap();
    assert_eq!(seq_b, 1);
    store.resolve_market(&id, ResolutionOutcome::Yes, &creator, 10).unwrap();
    let a_name = String::from("a");
    let b_name = String::from("b");
    assert_eq!(store.claim_payout(&id, &a_name, seq_a).unwrap(), 133);
    assert_eq!(store.claim_payout(&id, &b_name, seq_b).unwrap(), 0);
    let again = store.claim_payout(&id, &a_name, seq_a).unwrap_err();
    assert_eq!(again, DpmError::AlreadyClaimed);
}

#[test]
fn store_reports_missing_records() {
    let mut store = Dpm::new();
    let id = String::from("nope");
    let user = String::from("a");
    let r = store.place_bet(&id, bet("a", BetOutcome::Yes, 50), 8).unwrap_err();
    assert_eq!(r, DpmError::MarketNotFound);
    let r = store.resolve_market(&id, ResolutionOutcome::Yes, &user, 9).unwrap_err();
    assert_eq!(r, DpmError::MarketNotFound);
    let r = store.claim_payout(&id, &user, 0).unwrap_err();
    assert_eq!(r, DpmError::MarketNotFound);
    store.create_market(props("nope", "a", 1, 1), 7).unwrap();
    let r = store.claim_payout(&id, &user, 0).unwrap_err();
    assert_eq!(r, DpmError::BetNotFound);
}

#[test]
fn store_bet_key_must_match() {
    let mut store = Dpm::new();
    let id = String::from("m1");
    let creator = String::from("alice");
    store.create_market(props("m1", "alice", 100, 100), 7).unwrap();
    let seq_a = store.place_bet(&id, bet("a", BetOutcome::Yes, 50), 8).unwrap();
    store.resolve_market(&id, ResolutionOutcome::Yes, &creator, 10).unwrap();
    let wrong_user = String::from("b");
    let r = store.claim_payout(&id, &wrong_user, seq_a).unwrap_err();
    assert_eq!(r, DpmError::BetNotFound);
}

#[test]
fn pools_track_seed_plus_accepted_sums() {
    let mut m = create_market(props("m1", "alice", 10, 20), 7).unwrap();
    place_bet(&mut m, bet("a", BetOutcome::Yes, 5), 0, 8).unwrap();
    place_bet(&mut m, bet("b", BetOutcome::Yes, 7), 1, 9).unwrap();
    place_bet(&mut m, bet("c", BetOutcome::No, 11), 2, 10).unwrap();
    assert_eq!(m.pool.yes_total, 10 + 5 + 7);
    assert_eq!(m.pool.no_total, 20 + 11);
}
