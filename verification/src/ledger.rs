//! The cost ledger: an append-only record of micro-dollar cash flows
//! keyed to a user, answering daily-window aggregates.
//!
//! Amounts are signed micro-dollars; outflows (model usage) are
//! negative. An aggregate sums the signed amounts of the entries whose
//! timestamp lies within the last 24 hours and reports the absolute
//! value of that sum as "cost".

use vstd::prelude::*;

use crate::cost::AiUsage;

verus! {

#[derive(Debug, Clone, Copy, PartialEq, Eq, Structural)]
pub enum CashFlowOrigin {
    AiInputToken,
    AiOutputToken,
    PrivateAssets,
    Donation,
}

/// The origin tag recorded for a usage.
pub open spec fn spec_origin_of(u: AiUsage) -> CashFlowOrigin {
    match u {
        AiUsage::InputToken(_) => CashFlowOrigin::AiInputToken,
        AiUsage::OutputToken(_) => CashFlowOrigin::AiOutputToken,
    }
}

impl<'a> From<&'a AiUsage> for CashFlowOrigin {
    fn from(usage: &'a AiUsage) -> (r: Self) {
        match usage {
            AiUsage::InputToken(_) => CashFlowOrigin::AiInputToken,
            AiUsage::OutputToken(_) => CashFlowOrigin::AiOutputToken,
        }
    }
}

impl<'a> vstd::std_specs::convert::FromSpecImpl<&'a AiUsage> for CashFlowOrigin {
    open spec fn obeys_from_spec() -> bool {
        true
    }

    open spec fn from_spec(u: &'a AiUsage) -> Self {
        spec_origin_of(*u)
    }
}

/// One ledger row: a signed micro-dollar amount and its origin.
#[derive(Debug, Clone, Copy, PartialEq, Eq, Structural)]
pub struct CashFlow {
    pub amount: i64,
    pub origin: CashFlowOrigin,
}

/// A ledger row bound to the user that generated it, stamped with the
/// creation time (seconds) of its `generates` edge.
#[derive(Debug, Clone, PartialEq, Eq)]
pub struct LedgerEntry {
    pub username: String,
    pub created_at: i64,
    pub cash_flow: CashFlow,
}

/// Mathematical model of a [`LedgerEntry`].
pub struct LedgerEntryV {
    pub username: Seq<char>,
    pub created_at: int,
    pub amount: int,
    pub origin: CashFlowOrigin,
}

impl View for LedgerEntry {
    type V = LedgerEntryV;

    open spec fn view(&self) -> LedgerEntryV {
        LedgerEntryV {
            username: self.username@,
            created_at: self.created_at as int,
            amount: self.cash_flow.amount as int,
            origin: self.cash_flow.origin,
        }
    }
}

/// The daily window: entries whose edge timestamp lies within the 24
/// hours before `now`.
pub open spec fn in_window(e: LedgerEntryV, now: int) -> bool {
    e.created_at > now - 86400
}

/// Signed micro-dollar sum of all entries in the daily window.
pub open spec fn deployment_daily_flow(s: Seq<LedgerEntryV>, now: int) -> int
    decreases s.len(),
{
    if s.len() == 0 {
        0
    } else {
        deployment_daily_flow(s.drop_last(), now) + if in_window(s.last(), now) {
            s.last().amount
        } else {
            0
        }
    }
}

/// Signed micro-dollar sum of one user's entries in the daily window.
pub open spec fn user_daily_flow(s: Seq<LedgerEntryV>, u: Seq<char>, now: int) -> int
    decreases s.len(),
{
    if s.len() == 0 {
        0
    } else {
        user_daily_flow(s.drop_last(), u, now) + if s.last().username == u && in_window(
            s.last(),
            now,
        ) {
            s.last().amount
        } else {
            0
        }
    }
}

/// Signed micro-dollar sum of all of one user's entries.
pub open spec fn user_total_flow(s: Seq<LedgerEntryV>, u: Seq<char>) -> int
    decreases s.len(),
{
    if s.len() == 0 {
        0
    } else {
        user_total_flow(s.drop_last(), u) + if s.last().username == u {
            s.last().amount
        } else {
            0
        }
    }
}

/// The "cost" a signed flow is reported as: its absolute value.
pub open spec fn cost_of_flow(f: int) -> int {
    if f < 0 {
        -f
    } else {
        f
    }
}

/// The in-memory ledger.
#[derive(Debug, Clone, PartialEq, Eq)]
pub struct Ledger {
    entries: Vec<LedgerEntry>,
}

impl View for Ledger {
    type V = Seq<LedgerEntryV>;

    closed spec fn view(&self) -> Seq<LedgerEntryV> {
        self.entries@.map_values(|e: LedgerEntry| e@)
    }
}

/// The ledger row written for one usage of one user at one instant.
pub open spec fn spec_entry_for(u: AiUsage, username: Seq<char>, now: int) -> LedgerEntryV {
    LedgerEntryV {
        username,
        created_at: now,
        amount: -(u.spec_cost_micro() as int),
        origin: spec_origin_of(u),
    }
}

impl Ledger {
    pub fn new() -> (r: Ledger)
        ensures
            r@ == Seq::<LedgerEntryV>::empty(),
    {
        let r = Ledger { entries: Vec::new() };
        proof {
            assert(r@ =~= Seq::<LedgerEntryV>::empty());
        }
        r
    }

    /// Direct read access to the rows, oldest first.
    pub fn entries(&self) -> (r: &Vec<LedgerEntry>)
        ensures
            r@.map_values(|e: LedgerEntry| e@) == self@,
    {
        &self.entries
    }

    /// Appends one row; used by the auth collaborator for donations
    /// and opening balances.
    pub fn record(&mut self, entry: LedgerEntry)
        ensures
            final(self)@ == old(self)@.push(entry@),
    {
        self.entries.push(entry);
        proof {
            assert(final(self)@ =~= old(self)@.push(entry@));
        }
    }

    /// Appends one negative cash flow per usage, each bound to `username`
    /// and stamped `now`. Best-effort semantics live with the caller;
    /// the append itself cannot fail.
    pub fn attribute_ai_costs(&mut self, username: &String, usages: &Vec<AiUsage>, now: i64)
        requires
            forall|i: int| 0 <= i < usages@.len() ==> #[trigger] usages@[i].token_count()
                <= crate::cost::MAX_BILLABLE_CHARS,
        ensures
            final(self)@.len() == old(self)@.len() + usages@.len(),
            forall|j: int| 0 <= j < old(self)@.len() ==> final(self)@[j] == old(self)@[j],
            forall|j: int| 0 <= j < usages@.len() ==> final(self)@[old(self)@.len() + j]
                == spec_entry_for(#[trigger] usages@[j], username@, now as int),
    {
        let ghost base = old(self)@.len() as int;
        let mut i: usize = 0;
        while i < usages.len()
            invariant
                i <= usages@.len(),
                base == old(self)@.len() as int,
                forall|j: int| 0 <= j < usages@.len() ==> #[trigger] usages@[j].token_count()
                    <= crate::cost::MAX_BILLABLE_CHARS,
                self@.len() == base + i,
                forall|j: int| 0 <= j < base ==> self@[j] == old(self)@[j],
                forall|j: int| 0 <= j < i ==> self@[base + j] == spec_entry_for(
                    #[trigger] usages@[j],
                    username@,
                    now as int,
                ),
            decreases usages@.len() - i,
        {
            let usage = &usages[i];
            let cost = usage.costs_in_micro_dollar();
            proof {
                let t = usage.token_count() as int;
                vstd::arithmetic::div_mod::lemma_div_is_ordered(3 * t + 19, 3 * 100_000_000int + 19, 20);
                vstd::arithmetic::div_mod::lemma_div_is_ordered(3 * t + 4, 3 * 100_000_000int + 4, 5);
                assert(cost <= 60_000_000);
            }
            let origin = match usage {
                AiUsage::InputToken(_) => CashFlowOrigin::AiInputToken,
                AiUsage::OutputToken(_) => CashFlowOrigin::AiOutputToken,
            };
            let entry = LedgerEntry {
                username: username.clone(),
                created_at: now,
                cash_flow: CashFlow { amount: -(cost as i64), origin },
            };
            self.entries.push(entry);
            proof {
                assert(entry@ == spec_entry_for(usages@[i as int], username@, now as int));
                assert(self@[base + i] == entry@);
            }
            i = i + 1;
        }
    }

    /// Sum of all outflows and inflows across all users in the daily
    /// window, reported as a non-negative micro-dollar cost.
    pub fn application_daily_cost(&self, now: i64) -> (r: i128)
        requires
            now >= 0,
        ensures
            r == cost_of_flow(deployment_daily_flow(self@, now as int)),
    {
        let mut acc: i128 = 0;
        let mut i: usize = 0;
        let n = self.entries.len();
        while i < n
            invariant
                now >= 0,
                n == self@.len(),
                i <= n,
                acc == deployment_daily_flow(self@.subrange(0, i as int), now as int),
                -(i as int) * 0x8000_0000_0000_0000 <= acc <= (i as int) * 0x8000_0000_0000_0000,
            decreases n - i,
        {
            let e = &self.entries[i];
            proof {
                assert(self@.subrange(0, i + 1).drop_last() =~= self@.subrange(0, i as int));
                assert(self@.subrange(0, i + 1).last() == self@[i as int]);
            }
            if e.created_at > now - 86400 {
                acc = acc + (e.cash_flow.amount as i128);
            }
            i = i + 1;
        }
        proof {
            assert(self@.subrange(0, n as int) =~= self@);
        }
        if acc < 0 {
            -acc
        } else {
            acc
        }
    }

    /// Sum of one user's flows in the daily window, as a cost.
    pub fn user_daily_cost(&self, username: &String, now: i64) -> (r: i128)
        requires
            now >= 0,
        ensures
            r == cost_of_flow(user_daily_flow(self@, username@, now as int)),
    {
        let mut acc: i128 = 0;
        let mut i: usize = 0;
        let n = self.entries.len();
        while i < n
            invariant
                now >= 0,
                n == self@.len(),
                i <= n,
                acc == user_daily_flow(self@.subrange(0, i as int), username@, now as int),
                -(i as int) * 0x8000_0000_0000_0000 <= acc <= (i as int) * 0x8000_0000_0000_0000,
            decreases n - i,
        {
            let e = &self.entries[i];
            proof {
                assert(self@.subrange(0, i + 1).drop_last() =~= self@.subrange(0, i as int));
                assert(self@.subrange(0, i + 1).last() == self@[i as int]);
            }
            if crate::text::string_is(&e.username, username.as_str()) && e.created_at > now
                - 86400 {
                acc = acc + (e.cash_flow.amount as i128);
            }
            i = i + 1;
        }
        proof {
            assert(self@.subrange(0, n as int) =~= self@);
        }
        if acc < 0 {
            -acc
        } else {
            acc
        }
    }

    /// Sum of all of one user's flows, as a cost.
    pub fn user_total_cost(&self, username: &String) -> (r: i128)
        ensures
            r == cost_of_flow(user_total_flow(self@, username@)),
    {
        let mut acc: i128 = 0;
        let mut i: usize = 0;
        let n = self.entries.len();
        while i < n
            invariant
                n == self@.len(),
                i <= n,
                acc == user_total_flow(self@.subrange(0, i as int), username@),
                -(i as int) * 0x8000_0000_0000_0000 <= acc <= (i as int) * 0x8000_0000_0000_0000,
            decreases n - i,
        {
            let e = &self.entries[i];
            proof {
                assert(self@.subrange(0, i + 1).drop_last() =~= self@.subrange(0, i as int));
                assert(self@.subrange(0, i + 1).last() == self@[i as int]);
            }
            if crate::text::string_is(&e.username, username.as_str()) {
                acc = acc + (e.cash_flow.amount as i128);
            }
            i = i + 1;
        }
        proof {
            assert(self@.subrange(0, n as int) =~= self@);
        }
        if acc < 0 {
            -acc
        } else {
            acc
        }
    }
}

/// Sum over a list of users of their daily costs.
pub open spec fn users_daily_cost_sum(
    s: Seq<LedgerEntryV>,
    users: Seq<Seq<char>>,
    now: int,
) -> int
    decreases users.len(),
{
    if users.len() == 0 {
        0
    } else {
        users_daily_cost_sum(s, users.drop_last(), now) + cost_of_flow(
            user_daily_flow(s, users.last(), now),
        )
    }
}

/// Sum over a list of users of their signed daily flows.
pub open spec fn users_daily_flow_sum(
    s: Seq<LedgerEntryV>,
    users: Seq<Seq<char>>,
    now: int,
) -> int
    decreases users.len(),
{
    if users.len() == 0 {
        0
    } else {
        users_daily_flow_sum(s, users.drop_last(), now) + user_daily_flow(s, users.last(), now)
    }
}

/// An all-outflow ledger only ever aggregates to non-positive flows.
proof fn lemma_flows_nonpositive(s: Seq<LedgerEntryV>, u: Seq<char>, now: int)
    requires
        forall|i: int| 0 <= i < s.len() ==> #[trigger] s[i].amount <= 0,
    ensures
        deployment_daily_flow(s, now) <= 0,
        user_daily_flow(s, u, now) <= 0,
    decreases s.len(),
{
    if s.len() > 0 {
        lemma_flows_nonpositive(s.drop_last(), u, now);
    }
}

/// Appending one entry moves a multi-user flow sum by that entry's
/// windowed amount if its user is listed, and not at all otherwise —
/// provided the listed users are pairwise distinct.
proof fn lemma_flow_sum_append(
    s: Seq<LedgerEntryV>,
    e: LedgerEntryV,
    users: Seq<Seq<char>>,
    now: int,
)
    requires
        forall|i: int, j: int| 0 <= i < j < users.len() ==> users[i] != users[j],
    ensures
        users_daily_flow_sum(s.push(e), users, now) == users_daily_flow_sum(s, users, now) + if
            users.contains(e.username) && in_window(e, now) {
            e.amount
        } else {
            0
        },
    decreases users.len(),
{
    if users.len() > 0 {
        let us0 = users.drop_last();
        let u = users.last();
        lemma_flow_sum_append(s, e, us0, now);
        assert(s.push(e).drop_last() =~= s);
        assert(s.push(e).last() == e);
        if u == e.username {
            assert(!us0.contains(e.username)) by {
                if us0.contains(e.username) {
                    let i = choose|i: int| 0 <= i < us0.len() && us0[i] == e.username;
                    assert(users[i] == users[users.len() - 1]);
                }
            }
            assert(users.contains(e.username)) by {
                assert(users[users.len() - 1] == e.username);
            }
        } else {
            assert(users.contains(e.username) == us0.contains(e.username)) by {
                if us0.contains(e.username) {
                    let i = choose|i: int| 0 <= i < us0.len() && us0[i] == e.username;
                    assert(users[i] == e.username);
                }
                if users.contains(e.username) {
                    let i = choose|i: int| 0 <= i < users.len() && users[i] == e.username;
                    assert(i < users.len() - 1);
                    assert(us0[i] == e.username);
                }
            }
        }
    }
}

/// On an all-outflow ledger, the signed flow of the whole deployment
/// lies below the flow sum of any list of distinct users.
proof fn lemma_deployment_flow_below_users(
    s: Seq<LedgerEntryV>,
    users: Seq<Seq<char>>,
    now: int,
)
    requires
        forall|i: int| 0 <= i < s.len() ==> #[trigger] s[i].amount <= 0,
        forall|i: int, j: int| 0 <= i < j < users.len() ==> users[i] != users[j],
    ensures
        deployment_daily_flow(s, now) <= users_daily_flow_sum(s, users, now),
    decreases s.len(),
{
    if s.len() == 0 {
        assert(s =~= Seq::<LedgerEntryV>::empty());
        lemma_flow_sum_empty(users, now);
    } else {
        let s0 = s.drop_last();
        let e = s.last();
        assert(forall|i: int| 0 <= i < s0.len() ==> s0[i] == s[i]);
        lemma_deployment_flow_below_users(s0, users, now);
        assert(s0.push(e) =~= s);
        lemma_flow_sum_append(s0, e, users, now);
        assert(s[s.len() - 1].amount <= 0);
        assert(e.amount <= 0);
        let inc = if users.contains(e.username) && in_window(e, now) {
            e.amount
        } else {
            0
        };
        assert(users_daily_flow_sum(s, users, now) == users_daily_flow_sum(s0, users, now) + inc);
        let dep_inc = if in_window(e, now) {
            e.amount
        } else {
            0
        };
        assert(deployment_daily_flow(s, now) == deployment_daily_flow(s0, now) + dep_inc);
        assert(dep_inc <= inc);
    }
}

/// A multi-user flow sum over the empty ledger is zero.
proof fn lemma_flow_sum_empty(users: Seq<Seq<char>>, now: int)
    ensures
        users_daily_flow_sum(Seq::<LedgerEntryV>::empty(), users, now) == 0,
    decreases users.len(),
{
    if users.len() > 0 {
        lemma_flow_sum_empty(users.drop_last(), now);
    }
}

/// On an all-outflow ledger, cost sums and negated flow sums agree.
proof fn lemma_cost_sum_is_neg_flow_sum(
    s: Seq<LedgerEntryV>,
    users: Seq<Seq<char>>,
    now: int,
)
    requires
        forall|i: int| 0 <= i < s.len() ==> #[trigger] s[i].amount <= 0,
    ensures
        users_daily_cost_sum(s, users, now) == -users_daily_flow_sum(s, users, now),
    decreases users.len(),
{
    if users.len() > 0 {
        lemma_cost_sum_is_neg_flow_sum(s, users.drop_last(), now);
        lemma_flows_nonpositive(s, users.last(), now);
    }
}

/// At any instant, the deployment's daily cost dominates the summed
/// daily costs of any set of distinct users — on a ledger of outflows
/// alone. (A positive inflow can cancel one user's outflow inside the
/// deployment-wide sum while leaving another user's cost intact, so
/// inflows are excluded here.)
pub proof fn lemma_deployment_cost_dominates_users(
    s: Seq<LedgerEntryV>,
    users: Seq<Seq<char>>,
    now: int,
)
    requires
        forall|i: int| 0 <= i < s.len() ==> #[trigger] s[i].amount <= 0,
        forall|i: int, j: int| 0 <= i < j < users.len() ==> users[i] != users[j],
    ensures
        users_daily_cost_sum(s, users, now) <= cost_of_flow(deployment_daily_flow(s, now)),
{
    lemma_deployment_flow_below_users(s, users, now);
    lemma_cost_sum_is_neg_flow_sum(s, users, now);
    lemma_flows_nonpositive(s, Seq::<char>::empty(), now);
}

/// In particular, no single user's daily cost exceeds the
/// deployment's daily cost.
pub proof fn lemma_deployment_cost_dominates_one_user(s: Seq<LedgerEntryV>, u: Seq<char>, now: int)
    requires
        forall|i: int| 0 <= i < s.len() ==> #[trigger] s[i].amount <= 0,
    ensures
        cost_of_flow(user_daily_flow(s, u, now)) <= cost_of_flow(deployment_daily_flow(s, now)),
{
    let users = seq![u];
    lemma_deployment_cost_dominates_users(s, users, now);
    assert(users_daily_cost_sum(s, users, now) == users_daily_cost_sum(s, users.drop_last(), now)
        + cost_of_flow(user_daily_flow(s, u, now)));
    assert(users.drop_last().len() == 0);
}

} // verus!
