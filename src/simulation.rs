//! The portfolio state machine and the fold that applies it to a sequence
//! of operations.
use vstd::prelude::*;
use vstd::string::StringSliceAdditionalSpecFns;

use crate::laws::lemma_taxes_whole_units;
use crate::rounding::{abs, divide_rounded, round_div};

verus! {

/// Sales whose total value is at most this many cents are exempt from tax.
pub const TAXABLE_AMOUNT: i64 = 2_000_000;

/// The tax charged on net profit, in percent.
pub const TAX_PERCENT: i64 = 20;

/// The holding as a mathematical value: share count, weighted average
/// cost per share in cents, and accumulated loss in cents.
pub struct Holding {
    pub shares: int,
    pub average: int,
    pub loss: int,
}

/// The holding that every independent simulation starts from.
pub open spec fn empty_holding() -> Holding {
    Holding { shares: 0, average: 0, loss: 0 }
}

/// The state of a portfolio between two operations.
#[derive(Debug, Clone, Copy)]
pub struct State {
    /// The total number of shares held; a sale larger than the holding
    /// makes it negative.
    pub total_shares: i64,
    /// The weighted average cost per share, in cents.
    pub weighted_avarage: i64,
    /// The loss carried forward to offset later gains, in cents.
    pub accumulated_loss: i64,
}

impl View for State {
    type V = Holding;

    open spec fn view(&self) -> Holding {
        Holding {
            shares: self.total_shares as int,
            average: self.weighted_avarage as int,
            loss: self.accumulated_loss as int,
        }
    }
}

/// The kind of an operation.
#[derive(Debug, Clone, Copy, PartialEq, Eq, Structural)]
pub enum Operation {
    Buy,
    Sell,
}

/// The ASCII bytes of `buy`.
pub open spec fn buy_bytes() -> Seq<u8> {
    seq![98u8, 117u8, 121u8]
}

/// The ASCII bytes of `sell`.
pub open spec fn sell_bytes() -> Seq<u8> {
    seq![115u8, 101u8, 108u8, 108u8]
}

/// The operation that an input name stands for: `buy` or `sell`, in lower
/// case; no other name stands for one.
pub open spec fn operation_named(name: Seq<u8>) -> Option<Operation> {
    if name == buy_bytes() {
        Some(Operation::Buy)
    } else if name == sell_bytes() {
        Some(Operation::Sell)
    } else {
        None
    }
}

impl Operation {
    /// The operation named `name`, or `None` where the name is neither
    /// `buy` nor `sell`.
    pub fn from_name(name: &str) -> (r: Option<Operation>)
        ensures
            r == operation_named(name.spec_bytes()),
    {
        let b = name.as_bytes();
        if b.len() == 3 && b[0] == 98 && b[1] == 117 && b[2] == 121 {
            assert(b@ =~= buy_bytes());
            Some(Operation::Buy)
        } else if b.len() == 4 && b[0] == 115 && b[1] == 101 && b[2] == 108 && b[3] == 108 {
            assert(b@ =~= sell_bytes());
            Some(Operation::Sell)
        } else {
            None
        }
    }
}

/// One operation on the portfolio.
#[derive(Debug, Clone, Copy)]
pub struct Op {
    /// Whether shares are bought or sold.
    pub operation: Operation,
    /// The price of one share, in cents.
    pub unit_cost: i64,
    /// The number of shares bought or sold.
    pub quantity: u32,
}

/// The tax owed on one operation, in cents.
#[derive(Debug, Clone, Copy, PartialEq, Eq, Structural)]
pub struct Tax {
    tax: i64,
}

impl View for Tax {
    type V = int;

    closed spec fn view(&self) -> int {
        self.tax as int
    }
}

/// Whether an integer fits in an `i64`.
pub open spec fn fits_i64(x: int) -> bool {
    i64::MIN <= x <= i64::MAX
}

/// The value of an operation in cents: unit cost times quantity.
pub open spec fn total_value_of(op: Op) -> int {
    op.unit_cost * op.quantity
}

/// The weighted average cost after buying `quantity` shares at
/// `unit_price` into a holding of `shares` at `average`, rounded to the
/// cent. When no shares result the average is left as it was.
pub open spec fn weighted_average(shares: int, average: int, quantity: int, unit_price: int) -> int {
    if shares + quantity == 0 {
        average
    } else {
        round_div(shares * average + quantity * unit_price, shares + quantity)
    }
}

/// Profit of a sale against the holding's average cost, in cents.
pub open spec fn profit_of(h: Holding, op: Op) -> int {
    (op.unit_cost - h.average) * op.quantity
}

/// Whether a sale is exempt: small in value and profitable.
pub open spec fn is_exempt(h: Holding, op: Op) -> bool {
    total_value_of(op) <= TAXABLE_AMOUNT && profit_of(h, op) > 0
}

/// Tax in cents on a net profit in cents: a fifth of it, rounded to a
/// whole currency unit.
pub open spec fn tax_on(net_profit: int) -> int {
    100 * round_div(net_profit * TAX_PERCENT, 10000int)
}

/// Next holding and tax after a buy.
pub open spec fn buy_step(h: Holding, op: Op) -> (Holding, int) {
    (
        Holding {
            shares: h.shares + op.quantity,
            average: weighted_average(h.shares, h.average, op.quantity as int, op.unit_cost as int),
            loss: h.loss,
        },
        0,
    )
}

/// Next holding and tax after a sale.
///
/// An exempt sale leaves the holding as it was, share count included; every
/// other sale takes the sold shares off. This asymmetry is inherited
/// behaviour, kept for compatibility rather than as an accounting rule.
pub open spec fn sell_step(h: Holding, op: Op) -> (Holding, int) {
    let profit = profit_of(h, op);
    if is_exempt(h, op) {
        (h, 0)
    } else if profit < 0 {
        (Holding { shares: h.shares - op.quantity, average: h.average, loss: h.loss + abs(profit) }, 0)
    } else {
        let net = if profit - h.loss > 0 { profit - h.loss } else { 0 };
        let loss = if h.loss - profit > 0 { h.loss - profit } else { 0 };
        (Holding { shares: h.shares - op.quantity, average: h.average, loss }, tax_on(net))
    }
}

/// Next holding and tax after any operation.
pub open spec fn step(h: Holding, op: Op) -> (Holding, int) {
    match op.operation {
        Operation::Buy => buy_step(h, op),
        Operation::Sell => sell_step(h, op),
    }
}

/// Whether a step's result is representable: every field of the next
/// holding and the tax fit in an `i64`.
pub open spec fn result_fits(r: (Holding, int)) -> bool {
    fits_i64(r.0.shares) && fits_i64(r.0.average) && fits_i64(r.0.loss) && fits_i64(r.1)
}

} // verus!

verus! {

/// The weighted average of `weighted_average`, computed without overflow.
fn average_wide(total_shares: i64, average: i64, quantity: u32, unit_price: i64) -> (r: i128)
    ensures
        r == weighted_average(total_shares as int, average as int, quantity as int, unit_price as int),
{
    let shares = total_shares as i128;
    let average = average as i128;
    let quantity = quantity as i128;
    let price = unit_price as i128;
    let count = shares + quantity;
    if count == 0 {
        average
    } else {
        assert(-0x4000_0000_0000_0000_0000_0000_0000_0000 <= shares * average
            <= 0x4000_0000_0000_0000_0000_0000_0000_0000) by (nonlinear_arith)
            requires
                -0x8000_0000_0000_0000 <= shares < 0x8000_0000_0000_0000,
                -0x8000_0000_0000_0000 <= average < 0x8000_0000_0000_0000,
        ;
        assert(-0x8000_0000_0000_0000_0000_0000 <= quantity * price
            <= 0x8000_0000_0000_0000_0000_0000) by (nonlinear_arith)
            requires
                0 <= quantity < 0x1_0000_0000,
                -0x8000_0000_0000_0000 <= price < 0x8000_0000_0000_0000,
        ;
        divide_rounded(shares * average + quantity * price, count)
    }
}

/// The next holding after a buy, computed without overflow.
fn buy_wide(s: &State, op: &Op) -> (r: (i128, i128, i128))
    ensures
        r.0 == buy_step(s@, *op).0.shares,
        r.1 == buy_step(s@, *op).0.average,
        r.2 == buy_step(s@, *op).0.loss,
{
    let average = average_wide(s.total_shares, s.weighted_avarage, op.quantity, op.unit_cost);
    (s.total_shares as i128 + op.quantity as i128, average, s.accumulated_loss as i128)
}

/// The next holding and the tax after a sale, computed without overflow.
fn sell_wide(s: &State, op: &Op) -> (r: (i128, i128, i128, i128))
    ensures
        r.0 == sell_step(s@, *op).0.shares,
        r.1 == sell_step(s@, *op).0.average,
        r.2 == sell_step(s@, *op).0.loss,
        r.3 == sell_step(s@, *op).1,
{
    let shares = s.total_shares as i128;
    let average = s.weighted_avarage as i128;
    let loss = s.accumulated_loss as i128;
    let quantity = op.quantity as i128;
    let price = op.unit_cost as i128;
    let margin = price - average;
    assert(-0x1_0000_0000_0000_0000_0000_0000 <= margin * quantity
        <= 0x1_0000_0000_0000_0000_0000_0000) by (nonlinear_arith)
        requires
            0 <= quantity < 0x1_0000_0000,
            -0x1_0000_0000_0000_0000 <= margin <= 0x1_0000_0000_0000_0000,
    ;
    assert(-0x8000_0000_0000_0000_0000_0000 <= quantity * price
        <= 0x8000_0000_0000_0000_0000_0000) by (nonlinear_arith)
        requires
            0 <= quantity < 0x1_0000_0000,
            -0x8000_0000_0000_0000 <= price < 0x8000_0000_0000_0000,
    ;
    let profit = margin * quantity;
    let total_value = price * quantity;
    if total_value <= TAXABLE_AMOUNT as i128 && profit > 0 {
        (shares, average, loss, 0)
    } else if profit < 0 {
        (shares - quantity, average, loss - profit, 0)
    } else {
        let net = if profit - loss > 0 { profit - loss } else { 0 };
        let new_loss = if loss - profit > 0 { loss - profit } else { 0 };
        assert(0 <= net <= 0x2_0000_0000_0000_0000_0000_0000);
        let rate = TAX_PERCENT as i128;
        assert(rate == 20);
        let tax = divide_rounded(net * rate, 10000) * 100;
        (shares - quantity, average, new_loss, tax)
    }
}

} // verus!

verus! {

/// The new weighted average cost per share, in cents, after buying
/// `new_quantity` shares at `new_unit_price` into a holding of
/// `total_shares` shares at `weighted_avarage`: the blended cost rounded to
/// the nearest cent, ties away from zero. Where no shares result, the
/// average is returned unchanged.
pub fn calculate_weighted_avarage(
    total_shares: i64,
    weighted_avarage: i64,
    new_quantity: u32,
    new_unit_price: i64,
) -> (r: i64)
    requires
        fits_i64(
            weighted_average(
                total_shares as int,
                weighted_avarage as int,
                new_quantity as int,
                new_unit_price as int,
            ),
        ),
    ensures
        r == weighted_average(
            total_shares as int,
            weighted_avarage as int,
            new_quantity as int,
            new_unit_price as int,
        ),
{
    average_wide(total_shares, weighted_avarage, new_quantity, new_unit_price) as i64
}

impl Default for State {
    /// The empty portfolio.
    fn default() -> (r: State)
        ensures
            r@ == empty_holding(),
    {
        State { total_shares: 0, weighted_avarage: 0, accumulated_loss: 0 }
    }
}

impl State {
    /// A state with the given share count, average cost and accumulated loss.
    pub fn new(total_shares: i64, weighted_avarage: i64, accumulated_loss: i64) -> (r: State)
        ensures
            r.total_shares == total_shares,
            r.weighted_avarage == weighted_avarage,
            r.accumulated_loss == accumulated_loss,
    {
        State { total_shares, weighted_avarage, accumulated_loss }
    }

    /// Applies the buy rule to this state: the shares are added, the
    /// average is re-weighted and no tax is owed.
    pub fn handle_buy(&self, op: &Op) -> (r: (State, Tax))
        requires
            result_fits(buy_step(self@, *op)),
        ensures
            r.0@ == buy_step(self@, *op).0,
            r.1@ == buy_step(self@, *op).1,
    {
        let (shares, average, loss) = buy_wide(self, op);
        (State::new(shares as i64, average as i64, loss as i64), Tax::new(0))
    }

    /// Applies the sell rule to this state, returning the next state and
    /// the tax owed on the sale.
    pub fn handle_sell(&self, op: &Op) -> (r: (State, Tax))
        requires
            result_fits(sell_step(self@, *op)),
        ensures
            r.0@ == sell_step(self@, *op).0,
            r.1@ == sell_step(self@, *op).1,
    {
        let (shares, average, loss, tax) = sell_wide(self, op);
        (State::new(shares as i64, average as i64, loss as i64), Tax::new(tax as i64))
    }
}

impl Op {
    /// The value of the operation in cents: unit cost times quantity.
    pub fn total_value(&self) -> (r: i128)
        ensures
            r == total_value_of(*self),
    {
        assert(-0x8000_0000_0000_0000_0000_0000 <= self.unit_cost * self.quantity
            <= 0x8000_0000_0000_0000_0000_0000) by (nonlinear_arith)
            requires
                0 <= self.quantity < 0x1_0000_0000,
                -0x8000_0000_0000_0000 <= self.unit_cost < 0x8000_0000_0000_0000,
        ;
        self.unit_cost as i128 * self.quantity as i128
    }
}

impl Tax {
    /// A tax of `tax` cents.
    pub fn new(tax: i64) -> (r: Tax)
        ensures
            r@ == tax,
    {
        Tax { tax }
    }

    /// The tax in cents.
    pub fn cents(&self) -> (r: i64)
        ensures
            r == self@,
    {
        self.tax
    }
}

/// Applies the rule for the operation's kind to `state`.
pub fn handle_operation(state: State, op: &Op) -> (r: (State, Tax))
    requires
        result_fits(step(state@, *op)),
    ensures
        r.0@ == step(state@, *op).0,
        r.1@ == step(state@, *op).1,
{
    match op.operation {
        Operation::Buy => state.handle_buy(op),
        Operation::Sell => state.handle_sell(op),
    }
}

/// Applies the rule for the operation's kind to `state`, or returns `None`
/// where the next state or the tax does not fit in an `i64`.
pub fn checked_handle_operation(state: &State, op: &Op) -> (r: Option<(State, Tax)>)
    ensures
        r is Some <==> result_fits(step(state@, *op)),
        r matches Some(p) ==> p.0@ == step(state@, *op).0 && p.1@ == step(state@, *op).1,
{
    let (shares, average, loss, tax) = match op.operation {
        Operation::Buy => {
            let (shares, average, loss) = buy_wide(state, op);
            (shares, average, loss, 0)
        },
        Operation::Sell => sell_wide(state, op),
    };
    if fits(shares) && fits(average) && fits(loss) && fits(tax) {
        Some((State::new(shares as i64, average as i64, loss as i64), Tax::new(tax as i64)))
    } else {
        None
    }
}

/// Whether `x` fits in an `i64`.
fn fits(x: i128) -> (r: bool)
    ensures
        r == fits_i64(x as int),
{
    i64::MIN as i128 <= x && x <= i64::MAX as i128
}

} // verus!

verus! {

/// The holding after applying `ops` in order, starting from `h`.
pub open spec fn run(h: Holding, ops: Seq<Op>) -> Holding
    decreases ops.len(),
{
    if ops.len() == 0 {
        h
    } else {
        step(run(h, ops.drop_last()), ops.last()).0
    }
}

/// The step taken on the `i`-th operation of `ops`, starting from `h`.
pub open spec fn step_at(h: Holding, ops: Seq<Op>, i: int) -> (Holding, int) {
    step(run(h, ops.subrange(0, i)), ops[i])
}

/// The tax owed on each operation of `ops`, starting from `h`.
pub open spec fn taxes(h: Holding, ops: Seq<Op>) -> Seq<int> {
    Seq::new(ops.len(), |i: int| step_at(h, ops, i).1)
}

/// Whether every step of applying `ops` from `h` is representable.
pub open spec fn all_fit(h: Holding, ops: Seq<Op>) -> bool {
    forall|i: int| 0 <= i < ops.len() ==> result_fits(#[trigger] step_at(h, ops, i))
}

/// The amounts in cents of a sequence of taxes.
pub open spec fn tax_values(ts: Seq<Tax>) -> Seq<int> {
    ts.map_values(|t: Tax| t@)
}

/// Taxes for each operation, in order, starting from an empty portfolio;
/// `None` where some intermediate state or tax does not fit in an `i64`.
pub fn checked_compute_taxes(operations: &[Op]) -> (r: Option<Vec<Tax>>)
    ensures
        r is Some <==> all_fit(empty_holding(), operations@),
        r matches Some(v) ==> tax_values(v@) == taxes(empty_holding(), operations@),
{
    let ghost ops = operations@;
    let mut state = State::default();
    let mut result: Vec<Tax> = Vec::new();
    let mut i: usize = 0;
    while i < operations.len()
        invariant
            ops == operations@,
            i <= ops.len(),
            state@ == run(empty_holding(), ops.subrange(0, i as int)),
            result@.len() == i,
            forall|j: int| 0 <= j < i ==> (#[trigger] result@[j])@ == step_at(empty_holding(), ops, j).1,
            forall|j: int| 0 <= j < i ==> result_fits(#[trigger] step_at(empty_holding(), ops, j)),
        decreases ops.len() - i,
    {
        let op = operations[i];
        match checked_handle_operation(&state, &op) {
            Some((next, tax)) => {
                assert(ops.subrange(0, i + 1).drop_last() =~= ops.subrange(0, i as int));
                state = next;
                result.push(tax);
                i = i + 1;
            },
            None => {
                assert(!result_fits(step_at(empty_holding(), ops, i as int)));
                return None;
            },
        }
    }
    assert(ops.subrange(0, ops.len() as int) =~= ops);
    assert(tax_values(result@) =~= taxes(empty_holding(), ops));
    Some(result)
}

/// Taxes for each operation, in order, starting from an empty portfolio.
pub fn compute_taxes(operations: &[Op]) -> (r: Vec<Tax>)
    requires
        all_fit(empty_holding(), operations@),
    ensures
        tax_values(r@) == taxes(empty_holding(), operations@),
        forall|i: int| 0 <= i < r@.len() ==> (#[trigger] r@[i])@ >= 0 && r@[i]@ % 100 == 0,
{
    let r = match checked_compute_taxes(operations) {
        Some(v) => v,
        None => Vec::new(),
    };
    proof {
        lemma_taxes_whole_units(empty_holding(), operations@);
        assert forall|i: int| 0 <= i < r@.len() implies (#[trigger] r@[i])@ >= 0 && r@[i]@ % 100
            == 0 by {
            assert(tax_values(r@).len() == r@.len());
            assert(r@[i]@ == tax_values(r@)[i]);
            assert(taxes(empty_holding(), operations@)[i] % 100 == 0);
        }
    }
    r
}

} // verus!
