//! The budget guard: before any model call, the per-user and
//! deployment-wide daily caps are checked against the cost ledger.
//!
//! A check is strictly *greater than*, never *greater or equal*: a cap
//! may be touched exactly once before further calls are refused.

use vstd::prelude::*;

use crate::error::Error;
use crate::ledger::{cost_of_flow, deployment_daily_flow, user_daily_flow, Ledger};

verus! {

/// Daily caps in micro-dollars. The configured defaults are one
/// dollar for the whole deployment and a tenth of a dollar per user.
#[derive(Debug, Clone, Copy, PartialEq, Eq, Structural)]
pub struct AiCostLimit {
    pub application_daily: i128,
    pub user_daily: i128,
}

impl Default for AiCostLimit {
    fn default() -> (r: Self)
        ensures
            r.application_daily == 1_000_000,
            r.user_daily == 100_000,
    {
        AiCostLimit { application_daily: 1_000_000, user_daily: 100_000 }
    }
}

/// The guard's verdict on a pair of already-aggregated daily costs.
/// Refuses with *TooManyRequests* exactly when the deployment total
/// exceeds its cap, else with *PaymentRequired* exactly when the
/// user's total exceeds the user cap; a total equal to its cap is
/// still admitted.
pub fn check_limits(
    application_daily_cost: i128,
    user_daily_cost: i128,
    limits: &AiCostLimit,
) -> (r: Result<(), Error>)
    ensures
        r == if application_daily_cost > limits.application_daily {
            Result::<(), Error>::Err(Error::TooManyRequests)
        } else if user_daily_cost > limits.user_daily {
            Result::<(), Error>::Err(Error::PaymentRequired)
        } else {
            Result::<(), Error>::Ok(())
        },
{
    if application_daily_cost > limits.application_daily {
        Err(Error::TooManyRequests)
    } else if user_daily_cost > limits.user_daily {
        Err(Error::PaymentRequired)
    } else {
        Ok(())
    }
}

impl Ledger {
    /// The guard applied to this ledger's aggregates for `username`
    /// at instant `now`.
    pub fn check_limits(&self, username: &String, now: i64, limits: &AiCostLimit) -> (r: Result<
        (),
        Error,
    >)
        requires
            now >= 0,
        ensures
            r == if cost_of_flow(deployment_daily_flow(self@, now as int))
                > limits.application_daily {
                Result::<(), Error>::Err(Error::TooManyRequests)
            } else if cost_of_flow(user_daily_flow(self@, username@, now as int))
                > limits.user_daily {
                Result::<(), Error>::Err(Error::PaymentRequired)
            } else {
                Result::<(), Error>::Ok(())
            },
    {
        let application = self.application_daily_cost(now);
        let user = self.user_daily_cost(username, now);
        check_limits(application, user, limits)
    }
}

} // verus!
