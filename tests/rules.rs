use capital_gains::simulation::{
    calculate_weighted_avarage, checked_compute_taxes, checked_handle_operation, compute_taxes,
    handle_operation, Op, Operation, State, Tax, TAXABLE_AMOUNT,
};

fn buy(unit_cost: i64, quantity: u32) -> Op {
    Op { operation: Operation::Buy, unit_cost, quantity }
}

fn sell(unit_cost: i64, quantity: u32) -> Op {
    Op { operation: Operation::Sell, unit_cost, quantity }
}

fn tax_cents(taxes: &[Tax]) -> Vec<i64> {
    taxes.iter().map(|t| t.cents()).collect()
}

#[test]
fn average_lies_between_old_average_and_price() {
    let r = calculate_weighted_avarage(300, 1000, 700, 2500);
    assert_eq!(r, 2050);
    assert!(1000 <= r && r <= 2500);
    let r = calculate_weighted_avarage(3, 1001, 0, 1);
    assert_eq!(r, 1001);
}

#[test]
fn average_ties_round_away_from_zero() {
    assert_eq!(calculate_weighted_avarage(1, 1, 1, 2), 2);
    assert_eq!(calculate_weighted_avarage(1, -1, 1, -2), -2);
    assert_eq!(calculate_weighted_avarage(3, 0, 1, 1), 0);
}

#[test]
fn average_without_shares_is_unchanged() {
    assert_eq!(calculate_weighted_avarage(0, 1234, 0, 99), 1234);
}

#[test]
fn buy_owes_nothing_and_keeps_loss() {
    let state = State::new(10, 1000, 5000);
    let (next, tax) = state.handle_buy(&buy(3000, 10));
    assert_eq!(tax.cents(), 0);
    assert_eq!(next.accumulated_loss, 5000);
    assert_eq!(next.total_shares, 20);
    assert_eq!(next.weighted_avarage, 2000);
}

#[test]
fn loss_adds_its_size() {
    let state = State::new(10000, 1000, 700);
    let (next, tax) = state.handle_sell(&sell(500, 5000));
    assert_eq!(tax.cents(), 0);
    assert_eq!(next.accumulated_loss, 700 + 2_500_000);
    assert_eq!(next.total_shares, 5000);
    assert_eq!(next.weighted_avarage, 1000);
}

#[test]
fn exempt_sales_leave_the_state_alone() {
    let start = State::new(100, 1000, 300);
    let mut state = start;
    for _ in 0..5 {
        let (next, tax) = handle_operation(state, &sell(1500, 50));
        assert_eq!(tax.cents(), 0);
        state = next;
    }
    assert_eq!(state.total_shares, start.total_shares);
    assert_eq!(state.weighted_avarage, start.weighted_avarage);
    assert_eq!(state.accumulated_loss, start.accumulated_loss);
}

#[test]
fn sale_at_the_threshold_is_exempt() {
    let op = sell(2000, 1000);
    assert_eq!(op.total_value(), TAXABLE_AMOUNT as i128);
    let (next, tax) = State::new(1000, 1000, 0).handle_sell(&op);
    assert_eq!(tax.cents(), 0);
    assert_eq!(next.total_shares, 1000);
}

#[test]
fn loss_offsets_a_smaller_gain() {
    let state = State::new(10000, 1000, 5_000_000);
    let (next, tax) = state.handle_sell(&sell(2000, 3000));
    assert_eq!(tax.cents(), 0);
    assert_eq!(next.accumulated_loss, 5_000_000 - 3_000_000);
    assert_eq!(next.total_shares, 7000);
}

#[test]
fn gain_beyond_loss_is_taxed_and_clears_it() {
    let state = State::new(10000, 1000, 1_000_000);
    let (next, tax) = state.handle_sell(&sell(2000, 3000));
    assert_eq!(tax.cents(), 400_000);
    assert_eq!(next.accumulated_loss, 0);
}

#[test]
fn tax_rounds_to_whole_units() {
    let state = State::new(0, 0, 0);
    let (_, tax) = state.handle_sell(&sell(2_000_250, 1));
    assert_eq!(tax.cents(), 400_100);
    let (_, tax) = State::new(0, 2_000_000, 0).handle_sell(&sell(2_000_249, 1));
    assert_eq!(tax.cents(), 0);
    let (_, tax) = State::new(0, 2_000_000, 0).handle_sell(&sell(2_000_250, 1));
    assert_eq!(tax.cents(), 100);
}

#[test]
fn zero_profit_sale_owes_nothing() {
    let (next, tax) = State::new(10, 1000, 400).handle_sell(&sell(1000, 10));
    assert_eq!(tax.cents(), 0);
    assert_eq!(next.accumulated_loss, 400);
    assert_eq!(next.total_shares, 0);
}

#[test]
fn overselling_makes_shares_negative() {
    let taxes = compute_taxes(&[sell(0, 5)]);
    assert_eq!(tax_cents(&taxes), vec![0]);
    let (next, _) = State::default().handle_sell(&sell(0, 5));
    assert_eq!(next.total_shares, -5);
}

#[test]
fn taxes_are_whole_units() {
    let ops = vec![buy(1033, 7777), sell(1999, 5000), sell(4211, 2777)];
    for cents in tax_cents(&compute_taxes(&ops)) {
        assert!(cents >= 0);
        assert_eq!(cents % 100, 0);
    }
}

#[test]
fn empty_sequence_has_no_taxes() {
    assert!(compute_taxes(&[]).is_empty());
}

#[test]
fn default_state_is_empty() {
    let state = State::default();
    assert_eq!(state.total_shares, 0);
    assert_eq!(state.weighted_avarage, 0);
    assert_eq!(state.accumulated_loss, 0);
}

#[test]
fn checked_matches_unchecked() {
    let ops = vec![buy(1000, 10000), sell(5000, 10000), buy(2000, 10000), sell(5000, 10000)];
    let checked = checked_compute_taxes(&ops).expect("fits");
    assert_eq!(tax_cents(&checked), vec![0, 8_000_000, 0, 6_000_000]);
    assert_eq!(tax_cents(&compute_taxes(&ops)), tax_cents(&checked));
}

#[test]
fn overflowing_sequence_is_refused() {
    let ops = vec![sell(i64::MIN, u32::MAX), sell(i64::MIN, u32::MAX)];
    assert!(checked_compute_taxes(&ops).is_none());
    assert!(checked_handle_operation(&State::new(0, i64::MAX, 0), &sell(i64::MIN, 2)).is_none());
    assert!(checked_handle_operation(&State::new(i64::MAX, 0, 0), &buy(1, 1)).is_none());
}

#[test]
fn checked_step_agrees_with_step() {
    let state = State::new(10000, 1000, 0);
    let op = sell(2000, 5000);
    let (a, ta) = checked_handle_operation(&state, &op).expect("fits");
    let (b, tb) = handle_operation(state, &op);
    assert_eq!(ta, tb);
    assert_eq!(ta.cents(), 1_000_000);
    assert_eq!(a.total_shares, b.total_shares);
    assert_eq!(a.accumulated_loss, b.accumulated_loss);
}

#[test]
fn tax_keeps_its_amount() {
    assert_eq!(Tax::new(1200).cents(), 1200);
}

#[test]
fn operation_names_are_lower_case_buy_and_sell() {
    assert_eq!(Operation::from_name("buy"), Some(Operation::Buy));
    assert_eq!(Operation::from_name("sell"), Some(Operation::Sell));
    assert_eq!(Operation::from_name("Buy"), None);
    assert_eq!(Operation::from_name("sel"), None);
    assert_eq!(Operation::from_name("sells"), None);
    assert_eq!(Operation::from_name(""), None);
}
