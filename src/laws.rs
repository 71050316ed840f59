//! Properties of the portfolio state machine, proved over its model.
use vstd::prelude::*;

use crate::rounding::{abs, round_div};
use crate::simulation::{
    is_exempt, profit_of, run, step, step_at, taxes, weighted_average, Holding,
    Op, Operation,
};

verus! {

/// A rounded quotient of non-negative values lies between any two integer
/// bounds that the exact quotient lies between.
proof fn lemma_round_div_between(n: int, d: int, lo: int, hi: int)
    requires
        n >= 0,
        d > 0,
        lo * d <= n <= hi * d,
    ensures
        lo <= round_div(n, d) <= hi,
{
    let q = n / d;
    let r = n % d;
    assert(n == q * d + r && 0 <= r < d) by (nonlinear_arith)
        requires
            q == n / d,
            r == n % d,
            d > 0,
    ;
    assert(lo <= q) by (nonlinear_arith)
        requires
            n == q * d + r,
            r < d,
            lo * d <= n,
            d > 0,
    ;
    assert(q <= hi) by (nonlinear_arith)
        requires
            n == q * d + r,
            r >= 0,
            n <= hi * d,
            d > 0,
    ;
    assert(r > 0 ==> q + 1 <= hi) by (nonlinear_arith)
        requires
            n == q * d + r,
            n <= hi * d,
            d > 0,
    ;
}

/// A purchase into a non-negative holding gives an average that lies
/// between the old average and the purchase price.
pub proof fn lemma_average_between(shares: int, average: int, quantity: int, unit_price: int)
    requires
        shares >= 0,
        average >= 0,
        quantity >= 0,
        unit_price >= 0,
        shares + quantity > 0,
    ensures
        ({
            let r = weighted_average(shares, average, quantity, unit_price);
            (if average <= unit_price { average } else { unit_price }) <= r
                && r <= (if average <= unit_price { unit_price } else { average })
        }),
{
    let lo = if average <= unit_price { average } else { unit_price };
    let hi = if average <= unit_price { unit_price } else { average };
    let n = shares * average + quantity * unit_price;
    let d = shares + quantity;
    assert(lo * d <= n <= hi * d && n >= 0) by (nonlinear_arith)
        requires
            n == shares * average + quantity * unit_price,
            d == shares + quantity,
            lo <= average <= hi,
            lo <= unit_price <= hi,
            lo >= 0,
            shares >= 0,
            quantity >= 0,
    ;
    lemma_round_div_between(n, d, lo, hi);
}

/// A purchase owes no tax and leaves the accumulated loss unchanged.
pub proof fn lemma_buy_never_taxes(h: Holding, op: Op)
    requires
        op.operation == Operation::Buy,
    ensures
        step(h, op).1 == 0,
        step(h, op).0.loss == h.loss,
{
}

/// A sale at a loss owes no tax and adds the size of the loss to the
/// accumulated loss.
pub proof fn lemma_loss_accumulates(h: Holding, op: Op)
    requires
        op.operation == Operation::Sell,
        profit_of(h, op) < 0,
    ensures
        step(h, op).1 == 0,
        step(h, op).0.loss == h.loss + abs(profit_of(h, op)),
{
}

/// Any number of exempt sales in a row leave the holding as it was and
/// owe no tax.
pub proof fn lemma_exempt_sales_repeat(h: Holding, op: Op, n: nat)
    requires
        op.operation == Operation::Sell,
        is_exempt(h, op),
    ensures
        run(h, Seq::new(n, |i: int| op)) == h,
        taxes(h, Seq::new(n, |i: int| op)) == Seq::new(n, |i: int| 0int),
    decreases n,
{
    let ops = Seq::new(n, |i: int| op);
    if n > 0 {
        assert(ops.drop_last() =~= Seq::new((n - 1) as nat, |i: int| op));
        lemma_exempt_sales_repeat(h, op, (n - 1) as nat);
    }
    assert forall|i: int| 0 <= i < n implies #[trigger] step_at(h, ops, i).1 == 0 by {
        assert(ops.subrange(0, i) =~= Seq::new(i as nat, |j: int| op));
        lemma_exempt_sales_repeat(h, op, i as nat);
    }
    assert(taxes(h, ops) =~= Seq::new(n, |i: int| 0int));
}

/// A taxable gain no larger than the accumulated loss owes no tax and is
/// taken off the accumulated loss.
pub proof fn lemma_loss_offsets_gain(h: Holding, op: Op)
    requires
        op.operation == Operation::Sell,
        !is_exempt(h, op),
        profit_of(h, op) >= 0,
        h.loss >= profit_of(h, op),
    ensures
        step(h, op).1 == 0,
        step(h, op).0.loss == h.loss - profit_of(h, op),
{
    assert(0int / 10000 == 0 && 0int % 10000 == 0) by (nonlinear_arith);
    assert(round_div(0, 10000) == 0);
}

/// The tax on any operation is a non-negative whole number of currency
/// units.
pub proof fn lemma_tax_whole_units(h: Holding, op: Op)
    ensures
        step(h, op).1 >= 0,
        step(h, op).1 % 100 == 0,
{
    if op.operation == Operation::Sell && !is_exempt(h, op) && profit_of(h, op) >= 0 {
        let net = if profit_of(h, op) - h.loss > 0 { profit_of(h, op) - h.loss } else { 0 };
        let m = round_div(net * 20, 10000);
        assert(m >= 0) by (nonlinear_arith)
            requires
                net >= 0,
                m == round_div(net * 20, 10000),
        ;
        assert((100 * m) % 100 == 0) by (nonlinear_arith);
    }
}

/// Every tax over a sequence of operations is a non-negative whole number
/// of currency units.
pub proof fn lemma_taxes_whole_units(h: Holding, ops: Seq<Op>)
    ensures
        forall|i: int| 0 <= i < ops.len() ==> {
            &&& #[trigger] taxes(h, ops)[i] >= 0
            &&& taxes(h, ops)[i] % 100 == 0
        },
{
    assert forall|i: int| 0 <= i < ops.len() implies {
        &&& #[trigger] taxes(h, ops)[i] >= 0
        &&& taxes(h, ops)[i] % 100 == 0
    } by {
        lemma_tax_whole_units(run(h, ops.subrange(0, i)), ops[i]);
    }
}

/// Starting from a holding with no accumulated loss below zero, the
/// accumulated loss never becomes negative.
pub proof fn lemma_loss_stays_non_negative(h: Holding, ops: Seq<Op>)
    requires
        h.loss >= 0,
    ensures
        run(h, ops).loss >= 0,
    decreases ops.len(),
{
    if ops.len() > 0 {
        lemma_loss_stays_non_negative(h, ops.drop_last());
    }
}

} // verus!
