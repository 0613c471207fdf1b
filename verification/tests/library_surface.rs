use recipe_ranger::error::ApiResponse;
use recipe_ranger::pipeline::ItemDb;
use recipe_ranger::shopping_list::ShoppingList;
use recipe_ranger::{Ingredient, IngredientStatus, Item, ReweConfig, Unit, Vendor};

#[test]
fn shopping_list_holds_recipe_and_ingredients() {
    let mut list = ShoppingList::new("500 g Mehl".to_string());
    assert_eq!(list.recipe(), "500 g Mehl");
    assert_eq!(list.ingredients().len(), 0);
    let ing = Ingredient {
        id: "i1".to_string(),
        name: "Weizenmehl".to_string(),
        probably_at_home: None,
        unit: Unit::Gram,
        quantity: 500,
        status: IngredientStatus::Unchecked,
    };
    list.set_ingredients(vec![ing.clone()]);
    assert_eq!(list.ingredients().len(), 1);
    assert_eq!(list.ingredients()[0], ing);
}

#[test]
fn chosen_item_getter_follows_the_status() {
    let item = Item {
        id: "c1".to_string(),
        name: "Weizenmehl 550".to_string(),
        quantity: None,
        price_cent: Some(89),
        url: None,
        image_url: None,
    };
    let mut ing = Ingredient {
        id: "i1".to_string(),
        name: "Weizenmehl".to_string(),
        probably_at_home: None,
        unit: Unit::Gram,
        quantity: 500,
        status: IngredientStatus::Matched {
            item: item.clone(),
            pieces: 1,
            alternatives: vec![item.clone()],
        },
    };
    assert_eq!(ing.item(), Some(item.clone()));
    ing.set_status(IngredientStatus::NoSearchResults);
    assert_eq!(ing.item(), None);
}

#[test]
fn item_rows_are_vendor_stamped() {
    let item = Item {
        id: "c1".to_string(),
        name: "Weizenmehl 550".to_string(),
        quantity: Some("1kg".to_string()),
        price_cent: Some(89),
        url: Some("https://www.rewe.de/produkte/p1".to_string()),
        image_url: None,
    };
    let vendor = Vendor::Rewe {
        config: ReweConfig { zip_code: 1 },
    };
    let row = ItemDb::from((item.clone(), vendor));
    assert_eq!(row.name, item.name);
    assert_eq!(row.vendor, "rewe");
    assert_eq!(row.price_cent, Some(89));
    assert_eq!(row.quantity, Some("1kg".to_string()));
}

#[test]
fn unit_names_round_trip() {
    for (unit, name) in [
        (Unit::Gram, "Gramm"),
        (Unit::Kilogram, "Kilogramm"),
        (Unit::Milliliter, "Milliliter"),
        (Unit::Liter, "Liter"),
        (Unit::Piece, "Stück"),
    ] {
        assert_eq!(unit.name(), name);
        assert_eq!(Unit::from_name(&name.to_string()), Some(unit));
        assert_eq!(Unit::from_name(&name.to_lowercase()), Some(unit));
    }
    assert_eq!(Unit::from_name(&"Tasse".to_string()), None);
}

#[test]
fn api_response_envelope() {
    let ok: ApiResponse<u32> = ApiResponse::Success(7);
    let err: ApiResponse<u32> = ApiResponse::Failure("nein".to_string());
    assert!(matches!(ok, ApiResponse::Success(7)));
    assert!(matches!(err, ApiResponse::Failure(m) if m == "nein"));
}
