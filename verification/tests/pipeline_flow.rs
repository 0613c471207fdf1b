use recipe_ranger::ai::{apply_match_decision, parse_ingredients_response, parse_match_response};
use recipe_ranger::auth::{percentage_of_limit, AuthenticatedUser, Claims, Invite};
use recipe_ranger::ledger::Ledger;
use recipe_ranger::pipeline::{
    attribute_costs_writes, matches_item_writes, seek_ingredient_writes, submit_recipe_writes,
    GraphWrite,
};
use recipe_ranger::vendor::{ReweConfig, Vendor};
use recipe_ranger::{Ai, AiUsage, Error, IngredientStatus, Unit};

fn rewe() -> Vendor {
    Vendor::Rewe {
        config: ReweConfig { zip_code: 12345 },
    }
}

fn vendor_reply(product: &str, price: usize) -> String {
    format!(
        r#"{{"_embedded":{{"products":[{{
            "id":"p-{product}","productName":"{product}",
            "media":{{"images":[]}},
            "_embedded":{{"articles":[{{"_embedded":{{"listing":{{"pricing":{{"currentRetailPrice":{price},"grammage":"1kg"}}}}}}}}]}}
        }}]}}}}"#
    )
}

#[test]
fn happy_path_resolves_both_ingredients() {
    // Recipe "500 g Mehl, 2 Eier": the extraction answer carries two
    // records; canonicalization turns "Mehl" into "Weizenmehl" and
    // "Ei" into "Eier".
    let extraction = r#"[
        {"name":"Mehl","unit":"Gramm","quantity":500,"probably_at_home":false},
        {"name":"Ei","unit":"Stück","quantity":2,"probably_at_home":false}
    ]"#;
    let mut ingredients = parse_ingredients_response(extraction).expect("extraction parses");
    assert_eq!(ingredients.len(), 2);
    assert_eq!(ingredients[0].name, "Weizenmehl");
    assert_eq!(ingredients[1].name, "Eier");

    // Operation A persistence: 1 recipe, 1 submits edge, 2 ingredient
    // vertices, 2 requires edges.
    let (writes, recipe_id) = submit_recipe_writes(
        &"alice".to_string(),
        &"500 g Mehl, 2 Eier".to_string(),
        &ingredients,
    );
    assert_eq!(writes.len(), 6);
    assert!(matches!(&writes[0], GraphWrite::CreateRecipe { id, recipe }
        if *id == recipe_id && recipe.text == "500 g Mehl, 2 Eier"));
    assert!(matches!(&writes[1], GraphWrite::SubmitsEdge { username, recipe_id: rid }
        if username == "alice" && *rid == recipe_id));
    assert!(matches!(&writes[2], GraphWrite::CreateIngredient { ingredient, .. }
        if ingredient.name == "Weizenmehl"));
    assert!(matches!(&writes[3], GraphWrite::RequiresEdge { quantity: 500, unit: Unit::Gram, .. }));
    assert!(matches!(&writes[4], GraphWrite::CreateIngredient { ingredient, .. }
        if ingredient.name == "Eier"));
    assert!(matches!(&writes[5], GraphWrite::RequiresEdge { quantity: 2, unit: Unit::Piece, .. }));

    // Operation B per ingredient: search, select index 0, one piece.
    let ai = Ai::new();
    let mut ledger = Ledger::new();
    let now = 1_000_000;
    for ing in ingredients.iter_mut() {
        let (seek_writes, db_id) = seek_ingredient_writes(&"alice".to_string(), ing, &rewe());
        assert_eq!(seek_writes.len(), 2);
        assert!(matches!(&seek_writes[1], GraphWrite::SeeksEdge { vendor, .. } if vendor == "rewe"));

        let body = vendor_reply(&ing.name.clone(), 199);
        assert_eq!(rewe().apply_search_response(ing, &body), Ok(()));
        assert!(matches!(ing.status(), IngredientStatus::SearchResults { .. }));

        // The selection round is billed: one input, one output usage.
        let answer = ai
            .settle_ask(
                &mut ledger,
                &"alice".to_string(),
                &"prompt text here".to_string(),
                Some(r#"{"item_index":0,"pieces_required":1}"#.to_string()),
                now,
            )
            .expect("model answered");
        let m = parse_match_response(&answer).expect("selection parses");
        assert_eq!(apply_match_decision(ing, &m), Ok(()));

        let item_writes = matches_item_writes(ing, &db_id, &rewe());
        assert_eq!(item_writes.len(), 2);
        assert!(matches!(&item_writes[0], GraphWrite::CreateItem { item, .. }
            if item.vendor == "rewe" && item.price_cent == Some(199)));
        assert!(matches!(&item_writes[1], GraphWrite::MatchesEdge { ingredient_id, .. }
            if *ingredient_id == db_id));
    }

    for ing in &ingredients {
        match ing.status() {
            IngredientStatus::Matched { pieces, .. } => assert_eq!(*pieces, 1),
            other => panic!("not matched: {:?}", other),
        }
    }

    // Two model rounds leave four cash-flow rows, all negative.
    let rows = ledger.entries();
    assert_eq!(rows.len(), 4);
    assert!(rows.iter().all(|e| e.cash_flow.amount < 0));
}

#[test]
fn attribute_costs_plan_writes_two_rows_per_usage() {
    let usages = vec![AiUsage::input_token(3600), AiUsage::output_token(3600)];
    let writes = attribute_costs_writes(&"alice".to_string(), &usages);
    assert_eq!(writes.len(), 4);
    assert!(matches!(&writes[0], GraphWrite::CreateCashFlow { cash_flow, .. }
        if cash_flow.amount == -150));
    assert!(matches!(&writes[1], GraphWrite::GeneratesEdge { username, .. }
        if username == "alice"));
    assert!(matches!(&writes[2], GraphWrite::CreateCashFlow { cash_flow, .. }
        if cash_flow.amount == -600));
}

#[test]
fn claims_and_identity() {
    let c = Claims::new("alice".to_string(), 1_000_000);
    assert_eq!(c.sub, "alice");
    assert_eq!(c.exp, 1_000_000 + 3 * 86_400_000);
    let u = AuthenticatedUser::new("alice".to_string());
    assert_eq!(u.username, "alice");
}

#[test]
fn invite_charges_run_out() {
    let mut inv = Invite {
        initial_charges: 2,
        used_charges: 1,
    };
    assert_eq!(inv.consume(), Ok(()));
    assert_eq!(inv.used_charges, 2);
    match inv.consume() {
        Err(Error::Forbidden(m)) => assert_eq!(m, "invalid invite code"),
        other => panic!("unexpected: {:?}", other),
    }
    assert_eq!(inv.used_charges, 2);
}

#[test]
fn percentage_of_daily_limit() {
    assert_eq!(percentage_of_limit(0, 100_000), 0);
    assert_eq!(percentage_of_limit(50_000, 100_000), 50);
    assert_eq!(percentage_of_limit(100_000, 100_000), 100);
    assert_eq!(percentage_of_limit(200_000, 100_000), 100);
    assert_eq!(percentage_of_limit(33_333, 100_000), 33);
    assert_eq!(percentage_of_limit(50, 100_000), 0);
    assert_eq!(percentage_of_limit(50_000, 50), 100);
}

#[test]
fn error_kinds_map_to_their_status_codes() {
    assert_eq!(Error::Unauthorized.status_code(), 401);
    assert_eq!(Error::PaymentRequired.status_code(), 402);
    assert_eq!(Error::Forbidden("x".to_string()).status_code(), 403);
    assert_eq!(Error::NotFound.status_code(), 404);
    assert_eq!(Error::Conflict("x".to_string()).status_code(), 409);
    assert_eq!(Error::PayloadTooLarge.status_code(), 413);
    assert_eq!(Error::TooManyRequests.status_code(), 429);
    assert_eq!(Error::BadRequest("x".to_string()).status_code(), 400);
    assert_eq!(Error::InternalServer.status_code(), 500);
}
