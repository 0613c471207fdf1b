//! The data the authentication collaborator exchanges with the core:
//! session claims, invite bookkeeping and the account summary. The
//! hashing, token signing and cookie plumbing stay outside the
//! library; the decisions are here.

use vstd::prelude::*;
use vstd::string::StringExecFns;

verus! {

/// Lifetime of a session token in days.
pub const TOKEN_AGE_IN_DAYS: i64 = 3;

/// The claims carried by a session token.
#[derive(Debug, Clone, PartialEq, Eq)]
pub struct Claims {
    pub sub: String,
    pub exp: usize,
}

impl Claims {
    /// Claims for a subject at a given instant (milliseconds since
    /// the epoch): the expiry lies the token lifetime ahead.
    pub fn new(sub: String, now_millis: i64) -> (r: Claims)
        requires
            0 <= now_millis,
            now_millis + TOKEN_AGE_IN_DAYS * 86_400_000 <= usize::MAX,
        ensures
            r.sub@ == sub@,
            r.exp == now_millis + TOKEN_AGE_IN_DAYS * 86_400_000,
    {
        Claims { sub, exp: (now_millis as usize) + 259_200_000 }
    }
}

/// The identity the session layer hands the pipeline.
#[derive(Debug, Clone, PartialEq, Eq)]
pub struct AuthenticatedUser {
    pub username: String,
}

impl AuthenticatedUser {
    pub fn new(username: String) -> (r: Self)
        ensures
            r.username@ == username@,
    {
        AuthenticatedUser { username }
    }
}

#[derive(Debug, Clone, PartialEq, Eq)]
pub struct SignupIn {
    pub invite_code: String,
}

#[derive(Debug, Clone, PartialEq, Eq)]
pub struct SignupOut {
    pub username: String,
    pub password: String,
}

#[derive(Debug, Clone, PartialEq, Eq)]
pub struct LonginIn {
    pub username: String,
    pub password: String,
}

/// An invite with a fixed number of charges.
#[derive(Debug, Clone, PartialEq, Eq)]
pub struct Invite {
    pub initial_charges: usize,
    pub used_charges: usize,
}

impl Invite {
    /// Spends one charge; an exhausted invite is refused and left
    /// unchanged.
    pub fn consume(&mut self) -> (r: Result<(), crate::error::Error>)
        ensures
            if old(self).used_charges >= old(self).initial_charges {
                &&& r matches Err(e) && e is Forbidden
                &&& *final(self) == *old(self)
            } else {
                &&& r is Ok
                &&& final(self).used_charges == old(self).used_charges + 1
                &&& final(self).initial_charges == old(self).initial_charges
            },
    {
        if self.used_charges >= self.initial_charges {
            return Err(
                crate::error::Error::Forbidden(
                    String::from_str("invalid invite code"),
                ),
            );
        }
        self.used_charges = self.used_charges + 1;
        Ok(())
    }
}

/// The account summary shown to a signed-in user.
#[derive(Debug, Clone, PartialEq, Eq)]
pub struct Me {
    pub username: String,
    pub percentage_of_daily_limit: u8,
}

/// How far into the daily cap a user is, in whole percent, capped at
/// 100. A cap below the dust threshold of 100 micro-dollars counts
/// as spent; spending below the threshold counts as zero.
pub open spec fn spec_percentage(cost_micro: int, limit_micro: int) -> int {
    if limit_micro < 100 {
        100
    } else if cost_micro < 100 {
        0
    } else if (cost_micro * 100 + limit_micro / 2) / limit_micro > 100 {
        100
    } else {
        (cost_micro * 100 + limit_micro / 2) / limit_micro
    }
}

/// The percentage of the daily cap a cost amounts to, rounded to the
/// nearest whole percent and capped at 100.
pub fn percentage_of_limit(cost_micro: i128, limit_micro: i128) -> (r: u8)
    requires
        0 <= cost_micro <= 0x7fff_ffff_ffff_ffff,
        0 <= limit_micro <= 0x7fff_ffff_ffff_ffff,
    ensures
        r == spec_percentage(cost_micro as int, limit_micro as int),
{
    if limit_micro < 100 {
        return 100;
    }
    if cost_micro < 100 {
        return 0;
    }
    let p: i128 = (cost_micro * 100 + limit_micro / 2) / limit_micro;
    if p > 100 {
        100
    } else {
        proof {
            vstd::arithmetic::div_mod::lemma_div_pos_is_pos(
                cost_micro * 100 + limit_micro / 2,
                limit_micro as int,
            );
        }
        p as u8
    }
}

} // verus!
