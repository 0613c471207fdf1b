use recipe_ranger::cost::AiUsage;
use recipe_ranger::guard::{check_limits, AiCostLimit};
use recipe_ranger::ledger::{CashFlow, CashFlowOrigin, Ledger, LedgerEntry};
use recipe_ranger::Error;

fn spend(ledger: &mut Ledger, user: &str, at: i64, micro: i64) {
    ledger.record(LedgerEntry {
        username: user.to_string(),
        created_at: at,
        cash_flow: CashFlow {
            amount: -micro,
            origin: CashFlowOrigin::AiOutputToken,
        },
    });
}

#[test]
fn token_estimate_rounds_up() {
    // 36 characters / 3.6 = exactly 10 tokens.
    assert_eq!(AiUsage::input_token(36), AiUsage::InputToken(10));
    // 37 characters / 3.6 = 10.27…, rounded up to 11.
    assert_eq!(AiUsage::input_token(37), AiUsage::InputToken(11));
    assert_eq!(AiUsage::output_token(0), AiUsage::OutputToken(0));
    assert_eq!(AiUsage::output_token(1), AiUsage::OutputToken(1));
}

#[test]
fn micro_dollar_cost_per_usage() {
    // 1000 input tokens at 15 per million tokens, in cent*10^4:
    // ceil(1000 * 0.15) = 150 micro-dollars.
    assert_eq!(AiUsage::InputToken(1000).costs_in_micro_dollar(), 150);
    // Output tokens cost four times as much.
    assert_eq!(AiUsage::OutputToken(1000).costs_in_micro_dollar(), 600);
    // Rounding up: 1 token input = ceil(0.15) = 1.
    assert_eq!(AiUsage::InputToken(1).costs_in_micro_dollar(), 1);
    assert_eq!(AiUsage::OutputToken(1).costs_in_micro_dollar(), 1);
    assert_eq!(AiUsage::InputToken(0).costs_in_micro_dollar(), 0);
}

#[test]
fn guard_admits_at_cap_refuses_above() {
    let limits = AiCostLimit::default();
    assert_eq!(limits.application_daily, 1_000_000);
    assert_eq!(limits.user_daily, 100_000);
    // Touching the cap exactly is still admitted.
    assert_eq!(check_limits(1_000_000, 0, &limits), Ok(()));
    assert_eq!(check_limits(0, 100_000, &limits), Ok(()));
    // One micro-dollar above is refused.
    assert_eq!(
        check_limits(1_000_001, 0, &limits),
        Err(Error::TooManyRequests)
    );
    assert_eq!(
        check_limits(0, 100_001, &limits),
        Err(Error::PaymentRequired)
    );
    // The deployment cap is checked first.
    assert_eq!(
        check_limits(1_000_001, 100_001, &limits),
        Err(Error::TooManyRequests)
    );
}

#[test]
fn budget_wall_deployment() {
    // Deployment ledger totals $1.01 today, the user spent nothing.
    let now = 1_000_000;
    let mut ledger = Ledger::new();
    spend(&mut ledger, "somebody_else", now - 100, 1_010_000);
    assert_eq!(ledger.application_daily_cost(now), 1_010_000);
    assert_eq!(ledger.user_daily_cost(&"alice".to_string(), now), 0);
    let r = ledger.check_limits(&"alice".to_string(), now, &AiCostLimit::default());
    assert_eq!(r, Err(Error::TooManyRequests));
}

#[test]
fn budget_wall_user() {
    // Deployment totals $0.50, the user spent $0.11.
    let now = 1_000_000;
    let mut ledger = Ledger::new();
    spend(&mut ledger, "bob", now - 100, 390_000);
    spend(&mut ledger, "alice", now - 50, 110_000);
    assert_eq!(ledger.application_daily_cost(now), 500_000);
    assert_eq!(ledger.user_daily_cost(&"alice".to_string(), now), 110_000);
    let r = ledger.check_limits(&"alice".to_string(), now, &AiCostLimit::default());
    assert_eq!(r, Err(Error::PaymentRequired));
}

#[test]
fn daily_window_excludes_old_entries() {
    let now = 1_000_000;
    let mut ledger = Ledger::new();
    // Exactly 24 hours old: outside the window (strictly greater).
    spend(&mut ledger, "alice", now - 86_400, 70_000);
    // One second fresher: inside.
    spend(&mut ledger, "alice", now - 86_399, 30_000);
    assert_eq!(ledger.user_daily_cost(&"alice".to_string(), now), 30_000);
    assert_eq!(ledger.user_total_cost(&"alice".to_string()), 100_000);
    assert_eq!(ledger.application_daily_cost(now), 30_000);
}

#[test]
fn attribute_ai_costs_appends_negative_rows() {
    let now = 500;
    let mut ledger = Ledger::new();
    let usages = vec![AiUsage::input_token(3600), AiUsage::output_token(3600)];
    ledger.attribute_ai_costs(&"carol".to_string(), &usages, now);
    let rows = ledger.entries();
    assert_eq!(rows.len(), 2);
    // 1000 tokens each: input 150, output 600 micro-dollars, negated.
    assert_eq!(rows[0].cash_flow.amount, -150);
    assert_eq!(rows[0].cash_flow.origin, CashFlowOrigin::AiInputToken);
    assert_eq!(rows[1].cash_flow.amount, -600);
    assert_eq!(rows[1].cash_flow.origin, CashFlowOrigin::AiOutputToken);
    assert_eq!(rows[0].username, "carol");
    assert_eq!(rows[0].created_at, now);
    assert_eq!(ledger.user_daily_cost(&"carol".to_string(), now), 750);
}

#[test]
fn deployment_cost_dominates_summed_user_costs() {
    // On an all-outflow ledger, the deployment-wide daily cost is at
    // least the sum of every user's daily cost.
    let now = 1_000_000;
    let mut ledger = Ledger::new();
    spend(&mut ledger, "alice", now - 10, 300);
    spend(&mut ledger, "bob", now - 20, 500);
    spend(&mut ledger, "alice", now - 30, 200);
    spend(&mut ledger, "carol", now - 90_000, 999); // outside the window
    let users = ["alice", "bob", "carol"];
    let summed: i128 = users
        .iter()
        .map(|u| ledger.user_daily_cost(&u.to_string(), now))
        .sum();
    assert_eq!(summed, 1000);
    assert!(ledger.application_daily_cost(now) >= summed);
}
