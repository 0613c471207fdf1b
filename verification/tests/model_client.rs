use recipe_ranger::ai::{
    apply_match_decision, extraction_prompt, parse_ingredients_response, parse_match_response,
    selection_precheck, selection_prompt, system_prompt,
};
use recipe_ranger::guard::AiCostLimit;
use recipe_ranger::ledger::{CashFlow, CashFlowOrigin, Ledger, LedgerEntry};
use recipe_ranger::{Ai, Error, Ingredient, IngredientStatus, Item, Unit};

fn items3() -> Vec<Item> {
    (1..=3)
        .map(|k| Item {
            id: format!("cand{k}"),
            name: format!("Produkt {k}"),
            quantity: Some("1kg".to_string()),
            price_cent: Some(100 * k),
            url: None,
            image_url: None,
        })
        .collect()
}

fn with_results(items: Vec<Item>) -> Ingredient {
    Ingredient {
        id: "ing1".to_string(),
        name: "Weizenmehl".to_string(),
        probably_at_home: Some(false),
        unit: Unit::Gram,
        quantity: 500,
        status: IngredientStatus::SearchResults { items },
    }
}

#[test]
fn validate_message_rules() {
    let ai = Ai::new();
    match ai.validate_message("   \n\t  ") {
        Err(Error::BadRequest(m)) => assert_eq!(m, "empty message"),
        other => panic!("unexpected: {:?}", other),
    }
    let long = "x".repeat(16_001);
    assert_eq!(ai.validate_message(&long), Err(Error::PayloadTooLarge));
    let at_cap = "x".repeat(16_000);
    assert_eq!(ai.validate_message(&at_cap), Ok(at_cap.clone()));
    assert_eq!(
        ai.validate_message("  Rezept hier  "),
        Ok("Rezept hier".to_string())
    );
}

#[test]
fn prepare_ask_checks_budget_before_the_model() {
    let ai = Ai::new();
    let now = 1_000_000;
    let mut ledger = Ledger::new();
    ledger.record(LedgerEntry {
        username: "elsewhere".to_string(),
        created_at: now - 10,
        cash_flow: CashFlow {
            amount: -1_010_000,
            origin: CashFlowOrigin::AiOutputToken,
        },
    });
    // Deployment wall: refused without contacting anything.
    let r = ai.prepare_ask(
        &ledger,
        &"alice".to_string(),
        "Ein Rezept",
        now,
        &AiCostLimit::default(),
    );
    assert_eq!(r, Err(Error::TooManyRequests));
    // A fresh ledger admits the same prompt, trimmed.
    let ledger = Ledger::new();
    let r = ai.prepare_ask(
        &ledger,
        &"alice".to_string(),
        " Ein Rezept ",
        now,
        &AiCostLimit::default(),
    );
    assert_eq!(r, Ok("Ein Rezept".to_string()));
}

#[test]
fn settle_ask_bills_input_and_output() {
    let ai = Ai::new();
    let mut ledger = Ledger::new();
    let input = "x".repeat(36);
    let r = ai.settle_ask(
        &mut ledger,
        &"alice".to_string(),
        &input,
        Some("y".repeat(72)),
        777,
    );
    assert_eq!(r, Ok("y".repeat(72)));
    let rows = ledger.entries();
    assert_eq!(rows.len(), 2);
    // 10 input tokens -> ceil(1.5) = 2; 20 output tokens -> 12.
    assert_eq!(rows[0].cash_flow.amount, -2);
    assert_eq!(rows[1].cash_flow.amount, -12);
    assert!(rows.iter().all(|e| e.cash_flow.amount < 0));
}

#[test]
fn settle_ask_without_content_is_internal_and_free() {
    let ai = Ai::new();
    let mut ledger = Ledger::new();
    let r = ai.settle_ask(&mut ledger, &"alice".to_string(), &"hi".to_string(), None, 777);
    assert_eq!(r, Err(Error::InternalServer));
    assert_eq!(ledger.entries().len(), 0);
}

#[test]
fn prompts_embed_their_payload() {
    assert!(system_prompt().contains("Rezept-Webanwendung"));
    let p = extraction_prompt("500 g Mehl, 2 Eier");
    assert!(p.ends_with("\n\nRezept: 500 g Mehl, 2 Eier"));
    assert!(p.contains("\"Gramm\", \"Kilogramm\", \"Milliliter\", \"Liter\", \"Stück\""));
    let s = selection_prompt(&"Weizenmehl".to_string(), 500, Unit::Gram, &items3());
    assert!(s.contains("\n\nZutat: Weizenmehl"));
    assert!(s.contains("\n\nBenötigte Menge der Zutat: 500 Gramm"));
    assert!(s.contains("\"name\":\"Produkt 1\""));
    assert!(s.contains("\"item_index\""));
}

#[test]
fn extraction_canonicalizes_names() {
    let response = r#"[{"name":"Mehl","unit":"Gramm","quantity":500,"probably_at_home":false}]"#;
    let ings = parse_ingredients_response(response).expect("parses");
    assert_eq!(ings.len(), 1);
    assert_eq!(ings[0].name, "Weizenmehl");
    assert_eq!(ings[0].unit, Unit::Gram);
    assert_eq!(ings[0].quantity, 500);
    assert_eq!(ings[0].probably_at_home, Some(false));
    assert_eq!(*ings[0].status(), IngredientStatus::Unchecked);
    assert_eq!(ings[0].id.chars().count(), 32);
}

#[test]
fn extraction_accepts_lowercase_units_and_missing_hints() {
    let response = r#"[
        {"name":"Olivenöl","unit":"milliliter","quantity":50,"probably_at_home":true},
        {"name":"Ei","unit":"Stück","quantity":2}
    ]"#;
    let ings = parse_ingredients_response(response).expect("parses");
    assert_eq!(ings.len(), 2);
    assert_eq!(ings[0].unit, Unit::Milliliter);
    assert_eq!(ings[1].name, "Eier");
    assert_eq!(ings[1].unit, Unit::Piece);
    assert_eq!(ings[1].probably_at_home, None);
}

#[test]
fn extraction_rejects_bad_answers() {
    for bad in [
        "kein json",
        r#"{"name":"Mehl"}"#,
        r#"[{"name":"Mehl","unit":"Tassen","quantity":1,"probably_at_home":false}]"#,
        r#"[{"name":"Mehl","unit":"Gramm","quantity":-1,"probably_at_home":false}]"#,
        r#"[{"unit":"Gramm","quantity":1,"probably_at_home":false}]"#,
    ] {
        match parse_ingredients_response(bad) {
            Err(Error::BadRequest(m)) => {
                assert_eq!(m, "Die AI konnte die Zutaten nicht extrahieren.")
            }
            other => panic!("unexpected for {bad}: {:?}", other),
        }
    }
}

#[test]
fn model_refusal_is_terminal_without_a_match() {
    let mut ing = with_results(items3());
    let m = parse_match_response(r#"{"item_index":null,"pieces_required":1}"#).expect("parses");
    assert_eq!(m.item_index, None);
    let r = apply_match_decision(&mut ing, &m);
    assert_eq!(r, Err(Error::NotFound));
    match ing.status() {
        IngredientStatus::AiFailsToSelectItem { alternatives } => {
            assert_eq!(alternatives.len(), 3)
        }
        other => panic!("unexpected: {:?}", other),
    }
    // No matches edge is written for an unmatched ingredient.
    let writes = recipe_ranger::pipeline::matches_item_writes(
        &ing,
        &"dbid".to_string(),
        &recipe_ranger::Vendor::Rewe {
            config: recipe_ranger::ReweConfig { zip_code: 1 },
        },
    );
    assert_eq!(writes.len(), 0);
}

#[test]
fn out_of_range_index_counts_as_refusal() {
    let mut ing = with_results(items3());
    let m = parse_match_response(r#"{"item_index":3,"pieces_required":1}"#).expect("parses");
    let r = apply_match_decision(&mut ing, &m);
    assert_eq!(r, Err(Error::NotFound));
    assert!(matches!(
        ing.status(),
        IngredientStatus::AiFailsToSelectItem { .. }
    ));
}

#[test]
fn valid_selection_matches_with_clamped_pieces() {
    let mut ing = with_results(items3());
    let m = parse_match_response(r#"{"item_index":1,"pieces_required":150}"#).expect("parses");
    assert_eq!(apply_match_decision(&mut ing, &m), Ok(()));
    match ing.status() {
        IngredientStatus::Matched {
            item,
            pieces,
            alternatives,
        } => {
            assert_eq!(item.name, "Produkt 2");
            assert_eq!(*pieces, 99);
            assert_eq!(alternatives.len(), 3);
            // The matched invariant: the chosen item sits in the
            // preserved candidate list, pieces within [1, 99].
            assert!(alternatives.contains(item));
            assert!((1..=99).contains(pieces));
        }
        other => panic!("unexpected: {:?}", other),
    }
}

#[test]
fn selection_precheck_requires_candidates() {
    let ok = with_results(items3());
    assert_eq!(selection_precheck(&ok), Ok(()));
    let mut empty = with_results(items3());
    empty.set_status(IngredientStatus::NoSearchResults);
    assert_eq!(selection_precheck(&empty), Err(Error::NotFound));
    let mut none = with_results(Vec::new());
    assert_eq!(selection_precheck(&none), Err(Error::NotFound));
    none.set_status(IngredientStatus::Unchecked);
    assert_eq!(selection_precheck(&none), Err(Error::NotFound));
}
