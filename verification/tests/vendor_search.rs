use recipe_ranger::vendor::{ReweConfig, Vendor};
use recipe_ranger::{Ingredient, IngredientStatus, Unit};

fn rewe() -> Vendor {
    Vendor::Rewe {
        config: ReweConfig { zip_code: 12345 },
    }
}

fn unchecked(name: &str) -> Ingredient {
    Ingredient {
        id: "ing1".to_string(),
        name: name.to_string(),
        probably_at_home: None,
        unit: Unit::Gram,
        quantity: 500,
        status: IngredientStatus::Unchecked,
    }
}

const ONE_PRODUCT: &str = r#"{
  "_embedded": {
    "products": [
      {
        "id": "p100",
        "productName": "Weizenmehl 550",
        "media": {
          "images": [
            { "_links": { "self": { "href": "https://img/mehl.png" } } }
          ]
        },
        "_embedded": {
          "articles": [
            {
              "_embedded": {
                "listing": { "pricing": { "currentRetailPrice": 89, "grammage": "1kg" } }
              }
            }
          ]
        }
      }
    ]
  }
}"#;

#[test]
fn vendor_name_and_query() {
    let v = rewe();
    assert_eq!(v.name(), "rewe");
    let (url, params) = v.search_query(&"Weizenmehl".to_string());
    assert_eq!(url, "https://shop.rewe.de/api/products");
    assert_eq!(params.len(), 8);
    assert_eq!(params[0], ("objectsPerPage".to_string(), "16".to_string()));
    assert_eq!(params[2], ("search".to_string(), "Weizenmehl".to_string()));
    assert_eq!(params[3], ("sorting".to_string(), "RELEVANCE_DESC".to_string()));
    assert_eq!(params[7], ("autocorrect".to_string(), "true".to_string()));
}

#[test]
fn empty_result_list_means_no_search_results() {
    let mut i = unchecked("Einhornstaub");
    let r = rewe().apply_search_response(&mut i, r#"{"_embedded":{"products":[]}}"#);
    assert_eq!(r, Ok(()));
    assert_eq!(*i.status(), IngredientStatus::NoSearchResults);
}

#[test]
fn products_become_candidates() {
    let mut i = unchecked("Mehl");
    let r = rewe().apply_search_response(&mut i, ONE_PRODUCT);
    assert_eq!(r, Ok(()));
    match i.status() {
        IngredientStatus::SearchResults { items } => {
            assert_eq!(items.len(), 1);
            let it = &items[0];
            // The candidate id is freshly generated, 32 alphanumerics.
            assert_eq!(it.id.chars().count(), 32);
            assert!(it.id.chars().all(|c| c.is_ascii_alphanumeric()));
            assert_eq!(it.name, "Weizenmehl 550");
            assert_eq!(it.quantity, Some("1kg".to_string()));
            assert_eq!(it.price_cent, Some(89));
            assert_eq!(it.url, Some("https://www.rewe.de/produkte/p100".to_string()));
            assert_eq!(it.image_url, Some("https://img/mehl.png".to_string()));
        }
        other => panic!("unexpected status: {:?}", other),
    }
}

#[test]
fn product_without_articles_has_no_price() {
    let body = r#"{"_embedded":{"products":[{
        "id": "p7", "productName": "Sonderposten",
        "media": { "images": [] },
        "_embedded": { "articles": [] }
    }]}}"#;
    let mut i = unchecked("Mehl");
    assert_eq!(rewe().apply_search_response(&mut i, body), Ok(()));
    match i.status() {
        IngredientStatus::SearchResults { items } => {
            assert_eq!(items.len(), 1);
            assert_eq!(items[0].price_cent, None);
            assert_eq!(items[0].quantity, None);
            assert_eq!(items[0].image_url, None);
        }
        other => panic!("unexpected status: {:?}", other),
    }
}

#[test]
fn unreadable_reply_marks_search_failed() {
    let mut i = unchecked("Mehl");
    let r = rewe().apply_search_response(&mut i, "<html>maintenance</html>");
    assert_eq!(
        r,
        Err("Die Antwort von Rewe konnte nicht verarbeitet werden.".to_string())
    );
    match i.status() {
        IngredientStatus::ApiSearchFailed { error } => {
            assert_eq!(error, "Die Antwort von Rewe konnte nicht verarbeitet werden.");
        }
        other => panic!("unexpected status: {:?}", other),
    }
    // A shape mismatch counts the same as unparsable text.
    let mut j = unchecked("Mehl");
    let r2 = rewe().apply_search_response(&mut j, r#"{"products":[]}"#);
    assert!(r2.is_err());
}

#[test]
fn transport_failure_marks_search_failed() {
    let mut i = unchecked("Mehl");
    let msg = rewe().apply_transport_failure(&mut i);
    assert_eq!(msg, "Die Anfrage an Rewe ist fehlgeschlagen");
    assert_eq!(
        *i.status(),
        IngredientStatus::ApiSearchFailed {
            error: "Die Anfrage an Rewe ist fehlgeschlagen".to_string()
        }
    );
}
