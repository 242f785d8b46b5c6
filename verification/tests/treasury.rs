use dpm::laws::treasury_remainder;

#[test]
fn remainder_of_the_worked_example() {
    // W = 150, L = 250, one winning bet of 50: its share is 83, and the
    // seed's unclaimed slice plus the rounding loss stay with the treasury.
    let stakes: Vec<u64> = vec![50];
    assert_eq!(treasury_remainder(&stakes, 150, 250), 167);
}

#[test]
fn remainder_accounts_for_every_share() {
    // W = 100, L = 77, winners staked 50 and 30: shares are 38 and 23,
    // so 77 - 61 = 16 is retained.
    let stakes: Vec<u64> = vec![50, 30];
    assert_eq!(treasury_remainder(&stakes, 100, 77), 16);
}

#[test]
fn remainder_is_whole_losing_pool_when_nobody_won() {
    let stakes: Vec<u64> = Vec::new();
    assert_eq!(treasury_remainder(&stakes, 100, 77), 77);
    // Degenerate: empty winning pool means no shares at all.
    let none: Vec<u64> = Vec::new();
    assert_eq!(treasury_remainder(&none, 0, 42), 42);
}

#[test]
fn exact_division_leaves_no_remainder_from_bets_only() {
    // W = 100 all from two winning bets, L = 100: shares 50 and 50.
    let stakes: Vec<u64> = vec![50, 50];
    assert_eq!(treasury_remainder(&stakes, 100, 100), 0);
}
