use recipe_ranger::codec::{deserialize_ingredient, serialize_ingredient};
use recipe_ranger::json::{parse_json, render_json, Json};
use recipe_ranger::{Ingredient, IngredientStatus, Item, Unit};

fn roundtrip(text: &str) -> String {
    let parsed = parse_json(text).expect("should parse");
    render_json(&parsed)
}

#[test]
fn parses_scalars() {
    assert_eq!(roundtrip("null"), "null");
    assert_eq!(roundtrip("true"), "true");
    assert_eq!(roundtrip("false"), "false");
    assert_eq!(roundtrip("0"), "0");
    assert_eq!(roundtrip("42"), "42");
    assert_eq!(roundtrip("-17"), "-17");
    assert_eq!(roundtrip("\"hallo\""), "\"hallo\"");
    assert_eq!(roundtrip("\"Olivenöl\""), "\"Olivenöl\"");
}

#[test]
fn parses_nesting_and_whitespace() {
    let pretty = "{\n  \"item_index\": 0,\n  \"pieces_required\": 1\n}";
    assert_eq!(roundtrip(pretty), "{\"item_index\":0,\"pieces_required\":1}");
    assert_eq!(roundtrip(" [ 1 , [ 2 , 3 ] , { } ] "), "[1,[2,3],{}]");
}

#[test]
fn parses_escapes() {
    assert_eq!(roundtrip("\"a\\nb\""), "\"a\\nb\"");
    assert_eq!(roundtrip("\"a\\\"b\""), "\"a\\\"b\"");
    assert_eq!(roundtrip("\"a\\\\b\""), "\"a\\\\b\"");
    // A forward-slash escape denotes a plain slash, re-rendered bare.
    assert_eq!(roundtrip("\"a\\/b\""), "\"a/b\"");
}

#[test]
fn rejects_malformed_text() {
    assert!(parse_json("").is_none());
    assert!(parse_json("[1,]").is_none());
    assert!(parse_json("{\"a\":}").is_none());
    assert!(parse_json("tru").is_none());
    assert!(parse_json("07").is_none());
    assert!(parse_json("1 2").is_none());
    assert!(parse_json("\"unterminated").is_none());
    assert!(parse_json("\"bad\\qescape\"").is_none());
    // Surrounding prose, as a chatty model might produce, is refused.
    assert!(parse_json("Here you go: [1,2]").is_none());
    // Code fences are not stripped.
    assert!(parse_json("```json\n[1]\n```").is_none());
}

#[test]
fn renders_compact_objects() {
    let v = Json::Obj(vec![
        ("a".to_string(), Json::Int(1)),
        ("b".to_string(), Json::Arr(vec![Json::Null, Json::Bool(true)])),
    ]);
    assert_eq!(render_json(&v), "{\"a\":1,\"b\":[null,true]}");
}

fn sample_items() -> Vec<Item> {
    vec![
        Item {
            id: "cand1".to_string(),
            name: "Weizenmehl 550".to_string(),
            quantity: Some("1kg".to_string()),
            price_cent: Some(89),
            url: Some("https://www.rewe.de/produkte/p1".to_string()),
            image_url: Some("https://img/1.png".to_string()),
        },
        Item {
            id: "cand2".to_string(),
            name: "Weizenmehl 405".to_string(),
            quantity: None,
            price_cent: None,
            url: None,
            image_url: None,
        },
    ]
}

fn ingredient_with(status: IngredientStatus) -> Ingredient {
    Ingredient {
        id: "ing7".to_string(),
        name: "Weizenmehl".to_string(),
        probably_at_home: Some(false),
        unit: Unit::Gram,
        quantity: 500,
        status,
    }
}

#[test]
fn ingredient_round_trip_unchecked() {
    let i = ingredient_with(IngredientStatus::Unchecked);
    let text = serialize_ingredient(&i);
    assert_eq!(deserialize_ingredient(&text), Some(i));
}

#[test]
fn ingredient_round_trip_api_search_failed() {
    let i = ingredient_with(IngredientStatus::ApiSearchFailed {
        error: "Die Anfrage an Rewe ist fehlgeschlagen".to_string(),
    });
    let text = serialize_ingredient(&i);
    assert_eq!(deserialize_ingredient(&text), Some(i));
}

#[test]
fn ingredient_round_trip_search_results() {
    let i = ingredient_with(IngredientStatus::SearchResults {
        items: sample_items(),
    });
    let text = serialize_ingredient(&i);
    assert_eq!(deserialize_ingredient(&text), Some(i));
}

#[test]
fn ingredient_round_trip_refusal() {
    let i = ingredient_with(IngredientStatus::AiFailsToSelectItem {
        alternatives: sample_items(),
    });
    let text = serialize_ingredient(&i);
    assert_eq!(deserialize_ingredient(&text), Some(i));
}

#[test]
fn ingredient_round_trip_matched() {
    let items = sample_items();
    let i = ingredient_with(IngredientStatus::Matched {
        item: items[0].clone(),
        pieces: 3,
        alternatives: items,
    });
    let text = serialize_ingredient(&i);
    let back = deserialize_ingredient(&text).expect("reparses");
    assert_eq!(back, i);
    // The status variant survives exactly, candidate list included.
    match back.status {
        IngredientStatus::Matched {
            item,
            pieces,
            alternatives,
        } => {
            assert_eq!(item.name, "Weizenmehl 550");
            assert_eq!(pieces, 3);
            assert_eq!(alternatives.len(), 2);
        }
        _ => panic!("variant lost"),
    }
}

#[test]
fn ingredient_round_trip_units_and_umlauts() {
    for unit in [
        Unit::Gram,
        Unit::Kilogram,
        Unit::Milliliter,
        Unit::Liter,
        Unit::Piece,
    ] {
        let mut i = ingredient_with(IngredientStatus::NoSearchResults);
        i.unit = unit;
        i.name = "Grüner Spargel \"extra\"".to_string();
        let text = serialize_ingredient(&i);
        assert_eq!(deserialize_ingredient(&text), Some(i));
    }
}

#[test]
fn deserialize_rejects_garbage() {
    assert_eq!(deserialize_ingredient("not json"), None);
    assert_eq!(deserialize_ingredient("{}"), None);
    // A matched status with a piece count out of range is refused.
    let items = sample_items();
    let i = ingredient_with(IngredientStatus::Matched {
        item: items[0].clone(),
        pieces: 3,
        alternatives: items,
    });
    let text = serialize_ingredient(&i);
    let bad = text.replace("\"pieces\":3", "\"pieces\":0");
    assert_eq!(deserialize_ingredient(&bad), None);
}

#[test]
fn integer_boundaries() {
    assert_eq!(roundtrip("9223372036854775807"), "9223372036854775807");
    assert_eq!(roundtrip("-9223372036854775808"), "-9223372036854775808");
    // One past the machine range is refused.
    assert!(parse_json("9223372036854775808").is_none());
    assert!(parse_json("-9223372036854775809").is_none());
    // Twenty digits are refused outright.
    assert!(parse_json("12345678901234567890").is_none());
}
