//! The persistence protocol of the two pipeline operations.
//!
//! The graph store itself is an external collaborator; what the
//! pipeline owes it is an exact sequence of vertex and edge writes.
//! These planners produce that sequence, so the operations' durable
//! effect — which rows with which fields — is pinned down here, and
//! the surrounding process only has to replay the list.

use vstd::prelude::*;

use crate::cost::AiUsage;
use crate::ids::{is_id_string, new_id};
use crate::ingredient::{Ingredient, IngredientStatus};
use crate::item::Item;
use crate::ledger::{spec_origin_of, CashFlow, CashFlowOrigin};
use crate::unit::Unit;
use crate::vendor::Vendor;

verus! {

/// A recipe vertex: the submitted text.
#[derive(Debug, Clone, PartialEq, Eq)]
pub struct Recipe {
    pub text: String,
}

/// An ingredient vertex: name and pantry hint; quantity and unit
/// live on the edges.
#[derive(Debug, Clone, PartialEq, Eq)]
pub struct IngredientDb {
    pub name: String,
    pub probably_at_home: bool,
}

impl From<Ingredient> for IngredientDb {
    fn from(ingredient: Ingredient) -> (r: Self) {
        IngredientDb {
            name: ingredient.name,
            probably_at_home: match ingredient.probably_at_home {
                Some(b) => b,
                None => false,
            },
        }
    }
}

impl vstd::std_specs::convert::FromSpecImpl<Ingredient> for IngredientDb {
    open spec fn obeys_from_spec() -> bool {
        true
    }

    open spec fn from_spec(ingredient: Ingredient) -> Self {
        IngredientDb {
            name: ingredient.name,
            probably_at_home: match ingredient.probably_at_home {
                Some(b) => b,
                None => false,
            },
        }
    }
}

/// An item vertex: the chosen SKU, stamped with its vendor.
#[derive(Debug, Clone, PartialEq, Eq)]
pub struct ItemDb {
    pub name: String,
    pub vendor: String,
    pub price_cent: Option<usize>,
    pub quantity: Option<String>,
    pub url: Option<String>,
    pub image_url: Option<String>,
}

impl From<(Item, Vendor)> for ItemDb {
    fn from(pair: (Item, Vendor)) -> (r: Self)
        ensures
            r.name@ == pair.0.name@,
            r.vendor@ == "rewe"@,
            r.price_cent == pair.0.price_cent,
            r.quantity == pair.0.quantity,
            r.url == pair.0.url,
            r.image_url == pair.0.image_url,
    {
        let (item, _vendor) = pair;
        ItemDb {
            name: item.name,
            vendor: crate::text::string_from_lit("rewe"),
            price_cent: item.price_cent,
            quantity: item.quantity,
            url: item.url,
            image_url: item.image_url,
        }
    }
}

impl vstd::std_specs::convert::FromSpecImpl<(Item, Vendor)> for ItemDb {
    open spec fn obeys_from_spec() -> bool {
        false
    }

    open spec fn from_spec(pair: (Item, Vendor)) -> Self {
        arbitrary()
    }
}

/// One write against the graph store.
#[derive(Debug, Clone, PartialEq, Eq)]
pub enum GraphWrite {
    CreateRecipe { id: String, recipe: Recipe },
    SubmitsEdge { username: String, recipe_id: String },
    CreateIngredient { id: String, ingredient: IngredientDb },
    RequiresEdge { recipe_id: String, ingredient_id: String, quantity: usize, unit: Unit },
    SeeksEdge { username: String, ingredient_id: String, quantity: usize, unit: Unit, vendor: String },
    CreateItem { id: String, item: ItemDb },
    MatchesEdge { item_id: String, ingredient_id: String },
    CreateCashFlow { id: String, cash_flow: CashFlow },
    GeneratesEdge { username: String, cash_flow_id: String },
}

/// The ingredient vertex written for an ingredient value.
pub open spec fn spec_ingredient_db(i: Ingredient) -> IngredientDb {
    IngredientDb {
        name: i.name,
        probably_at_home: match i.probably_at_home {
            Some(b) => b,
            None => false,
        },
    }
}

/// The writes of operation A after extraction: one recipe vertex,
/// one `submits` edge, and per ingredient one vertex plus one
/// `requires` edge carrying quantity and unit.
pub fn submit_recipe_writes(
    username: &String,
    recipe_text: &String,
    ingredients: &Vec<Ingredient>,
) -> (r: (Vec<GraphWrite>, String))
    ensures
        r.0@.len() == 2 + 2 * ingredients@.len(),
        is_id_string(r.1@),
        (r.0@[0] matches GraphWrite::CreateRecipe { id, recipe } && id@ == r.1@ && recipe.text@
            == recipe_text@),
        (r.0@[1] matches GraphWrite::SubmitsEdge { username: u, recipe_id } && u@ == username@
            && recipe_id@ == r.1@),
        forall|k: int|
            0 <= k < ingredients@.len() ==> {
                &&& (#[trigger] r.0@[2 + 2 * k] matches GraphWrite::CreateIngredient {
                    id,
                    ingredient,
                } && is_id_string(id@) && ingredient == spec_ingredient_db(ingredients@[k]))
                &&& (r.0@[3 + 2 * k] matches GraphWrite::RequiresEdge {
                    recipe_id,
                    ingredient_id,
                    quantity,
                    unit,
                } && recipe_id@ == r.1@ && quantity == ingredients@[k].quantity && unit
                    == ingredients@[k].unit && (r.0@[2 + 2 * k] matches
                    GraphWrite::CreateIngredient { id, .. } ==> ingredient_id@ == id@))
            },
{
    let recipe_id = new_id();
    let mut w: Vec<GraphWrite> = Vec::new();
    w.push(
        GraphWrite::CreateRecipe {
            id: recipe_id.clone(),
            recipe: Recipe { text: recipe_text.clone() },
        },
    );
    w.push(GraphWrite::SubmitsEdge { username: username.clone(), recipe_id: recipe_id.clone() });
    let mut k: usize = 0;
    while k < ingredients.len()
        invariant
            k <= ingredients@.len(),
            is_id_string(recipe_id@),
            w@.len() == 2 + 2 * k,
            (w@[0] matches GraphWrite::CreateRecipe { id, recipe } && id@ == recipe_id@
                && recipe.text@ == recipe_text@),
            (w@[1] matches GraphWrite::SubmitsEdge { username: u, recipe_id: rid } && u@
                == username@ && rid@ == recipe_id@),
            forall|t: int|
                0 <= t < k ==> {
                    &&& (#[trigger] w@[2 + 2 * t] matches GraphWrite::CreateIngredient {
                        id,
                        ingredient,
                    } && is_id_string(id@) && ingredient == spec_ingredient_db(ingredients@[t]))
                    &&& (w@[3 + 2 * t] matches GraphWrite::RequiresEdge {
                        recipe_id: rid,
                        ingredient_id,
                        quantity,
                        unit,
                    } && rid@ == recipe_id@ && quantity == ingredients@[t].quantity && unit
                        == ingredients@[t].unit && (w@[2 + 2 * t] matches
                        GraphWrite::CreateIngredient { id, .. } ==> ingredient_id@ == id@))
                },
        decreases ingredients@.len() - k,
    {
        let ing = &ingredients[k];
        let ingredient_id = new_id();
        let pah = match ing.probably_at_home {
            Some(b) => b,
            None => false,
        };
        w.push(
            GraphWrite::CreateIngredient {
                id: ingredient_id.clone(),
                ingredient: IngredientDb { name: ing.name.clone(), probably_at_home: pah },
            },
        );
        w.push(
            GraphWrite::RequiresEdge {
                recipe_id: recipe_id.clone(),
                ingredient_id,
                quantity: ing.quantity,
                unit: ing.unit,
            },
        );
        k = k + 1;
    }
    (w, recipe_id)
}

/// The writes of operation B's first step: the sought ingredient's
/// vertex and the `seeks` edge carrying quantity, unit and vendor.
pub fn seek_ingredient_writes(username: &String, ingredient: &Ingredient, vendor: &Vendor) -> (r: (
    Vec<GraphWrite>,
    String,
))
    ensures
        r.0@.len() == 2,
        is_id_string(r.1@),
        (r.0@[0] matches GraphWrite::CreateIngredient { id, ingredient: db } && id@ == r.1@ && db
            == spec_ingredient_db(*ingredient)),
        (r.0@[1] matches GraphWrite::SeeksEdge {
            username: u,
            ingredient_id,
            quantity,
            unit,
            vendor: v,
        } && u@ == username@ && ingredient_id@ == r.1@ && quantity == ingredient.quantity && unit
            == ingredient.unit && v@ == "rewe"@),
{
    let ingredient_id = new_id();
    let pah = match ingredient.probably_at_home {
        Some(b) => b,
        None => false,
    };
    let mut w: Vec<GraphWrite> = Vec::new();
    w.push(
        GraphWrite::CreateIngredient {
            id: ingredient_id.clone(),
            ingredient: IngredientDb { name: ingredient.name.clone(), probably_at_home: pah },
        },
    );
    w.push(
        GraphWrite::SeeksEdge {
            username: username.clone(),
            ingredient_id: ingredient_id.clone(),
            quantity: ingredient.quantity,
            unit: ingredient.unit,
            vendor: vendor.name(),
        },
    );
    (w, ingredient_id)
}

/// The writes of operation B's final step: nothing unless the
/// ingredient is matched; else the chosen item's vertex, keyed by its
/// candidate identifier and vendor-stamped, plus the `matches` edge
/// back to the persisted ingredient.
pub fn matches_item_writes(
    ingredient: &Ingredient,
    ingredient_db_id: &String,
    vendor: &Vendor,
) -> (r: Vec<GraphWrite>)
    ensures
        match ingredient@.status {
            crate::ingredient::StatusV::Matched { item, .. } => {
                &&& r@.len() == 2
                &&& (r@[0] matches GraphWrite::CreateItem { id, item: db } && id@ == item.id
                    && db.name@ == item.name && db.vendor@ == "rewe"@ && (match db.price_cent {
                    Some(p) => item.price_cent == Some(p as int),
                    None => item.price_cent is None,
                }) && (match db.quantity {
                    Some(ref q) => item.quantity == Some(q@),
                    None => item.quantity is None,
                }) && (match db.url {
                    Some(ref u) => item.url == Some(u@),
                    None => item.url is None,
                }) && (match db.image_url {
                    Some(ref u) => item.image_url == Some(u@),
                    None => item.image_url is None,
                }))
                &&& (r@[1] matches GraphWrite::MatchesEdge { item_id, ingredient_id } && (
                r@[0] matches GraphWrite::CreateItem { id, .. } ==> item_id@ == id@)
                    && ingredient_id@ == ingredient_db_id@)
            },
            _ => r@.len() == 0,
        },
{
    let item: &Item = match &ingredient.status {
        IngredientStatus::Matched { item, .. } => item,
        _ => {
            return Vec::new();
        },
    };
    let db = ItemDb {
        name: item.name.clone(),
        vendor: vendor.name(),
        price_cent: item.price_cent,
        quantity: match &item.quantity {
            Some(q) => Some(q.clone()),
            None => None,
        },
        url: match &item.url {
            Some(u) => Some(u.clone()),
            None => None,
        },
        image_url: match &item.image_url {
            Some(u) => Some(u.clone()),
            None => None,
        },
    };
    let mut w: Vec<GraphWrite> = Vec::new();
    w.push(GraphWrite::CreateItem { id: item.id.clone(), item: db });
    w.push(
        GraphWrite::MatchesEdge {
            item_id: item.id.clone(),
            ingredient_id: ingredient_db_id.clone(),
        },
    );
    w
}

/// The writes attributing one model call's usages to a user: per
/// usage a cash-flow vertex holding the negated micro-dollar cost,
/// and a `generates` edge from the user.
pub fn attribute_costs_writes(username: &String, usages: &Vec<AiUsage>) -> (r: Vec<GraphWrite>)
    requires
        forall|i: int| 0 <= i < usages@.len() ==> #[trigger] usages@[i].token_count()
            <= crate::cost::MAX_BILLABLE_CHARS,
    ensures
        r@.len() == 2 * usages@.len(),
        forall|k: int|
            0 <= k < usages@.len() ==> {
                &&& (#[trigger] r@[2 * k] matches GraphWrite::CreateCashFlow { id, cash_flow }
                    && is_id_string(id@) && cash_flow.amount == -(
                usages@[k].spec_cost_micro() as int) && cash_flow.origin == spec_origin_of(
                    usages@[k],
                ))
                &&& (r@[2 * k + 1] matches GraphWrite::GeneratesEdge { username: u, cash_flow_id }
                    && u@ == username@ && (r@[2 * k] matches GraphWrite::CreateCashFlow {
                    id,
                    ..
                } ==> cash_flow_id@ == id@))
            },
{
    let mut w: Vec<GraphWrite> = Vec::new();
    let mut k: usize = 0;
    while k < usages.len()
        invariant
            k <= usages@.len(),
            forall|i: int| 0 <= i < usages@.len() ==> #[trigger] usages@[i].token_count()
                <= crate::cost::MAX_BILLABLE_CHARS,
            w@.len() == 2 * k,
            forall|t: int|
                0 <= t < k ==> {
                    &&& (#[trigger] w@[2 * t] matches GraphWrite::CreateCashFlow { id, cash_flow }
                        && is_id_string(id@) && cash_flow.amount == -(
                    usages@[t].spec_cost_micro() as int) && cash_flow.origin == spec_origin_of(
                        usages@[t],
                    ))
                    &&& (w@[2 * t + 1] matches GraphWrite::GeneratesEdge {
                        username: u,
                        cash_flow_id,
                    } && u@ == username@ && (w@[2 * t] matches GraphWrite::CreateCashFlow {
                        id,
                        ..
                    } ==> cash_flow_id@ == id@))
                },
        decreases usages@.len() - k,
    {
        let usage = &usages[k];
        let cost = usage.costs_in_micro_dollar();
        proof {
            let t = usage.token_count() as int;
            vstd::arithmetic::div_mod::lemma_div_is_ordered(
                3 * t + 19,
                3 * 100_000_000int + 19,
                20,
            );
            vstd::arithmetic::div_mod::lemma_div_is_ordered(3 * t + 4, 3 * 100_000_000int + 4, 5);
            assert(cost <= 60_000_000);
        }
        let origin = match usage {
            AiUsage::InputToken(_) => CashFlowOrigin::AiInputToken,
            AiUsage::OutputToken(_) => CashFlowOrigin::AiOutputToken,
        };
        let id = new_id();
        w.push(
            GraphWrite::CreateCashFlow {
                id: id.clone(),
                cash_flow: CashFlow { amount: -(cost as i64), origin },
            },
        );
        w.push(GraphWrite::GeneratesEdge { username: username.clone(), cash_flow_id: id });
        k = k + 1;
    }
    w
}

/// A recipe submission payload.
#[derive(Debug, Clone, PartialEq, Eq)]
pub struct RecipeIn {
    pub text: String,
}

} // verus!
