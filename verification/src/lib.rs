//! Recipe-to-shopping-list resolution with per-user and per-deployment
//! spend control.
//!
//! A free-form recipe is turned into a typed ingredient list, each
//! ingredient is resolved against a grocery retailer's product catalog,
//! and every model call is metered against a cost ledger with hard
//! daily caps.

use vstd::prelude::*;

pub mod ai;
pub mod auth;
pub mod codec;
pub mod cost;
pub mod error;
pub mod guard;
pub mod ids;
pub mod ingredient;
pub mod item;
pub mod json;
pub mod ledger;
pub mod pipeline;
pub mod shopping_list;
pub mod text;
pub mod unit;
pub mod vendor;

pub use ai::Ai;
pub use cost::AiUsage;
pub use error::{ApiResponse, Error};
pub use guard::AiCostLimit;
pub use ingredient::{Ingredient, IngredientStatus};
pub use item::Item;
pub use auth::{AuthenticatedUser, Claims, Invite, LonginIn, Me, SignupIn, SignupOut};
pub use codec::{Extracted, IngredientItemMatch};
pub use pipeline::{GraphWrite, IngredientDb, ItemDb, Recipe, RecipeIn};
pub use shopping_list::ShoppingList;
pub use vendor::{ReweConfig, Vendor};
pub use ledger::{CashFlow, CashFlowOrigin, Ledger, LedgerEntry};
pub use unit::Unit;

verus! {

} // verus!
