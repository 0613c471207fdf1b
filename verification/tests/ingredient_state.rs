use recipe_ranger::{Ingredient, IngredientStatus, Item, Unit};

fn item(id: &str, name: &str, price: Option<usize>) -> Item {
    Item {
        id: id.to_string(),
        name: name.to_string(),
        quantity: Some("500g".to_string()),
        price_cent: price,
        url: Some("https://www.rewe.de/produkte/1".to_string()),
        image_url: None,
    }
}

fn matched_ingredient() -> Ingredient {
    let alts = vec![item("a", "Mehl A", Some(199)), item("b", "Mehl B", Some(249))];
    Ingredient {
        id: "ing1".to_string(),
        name: "Weizenmehl".to_string(),
        probably_at_home: Some(false),
        unit: Unit::Gram,
        quantity: 500,
        status: IngredientStatus::Matched {
            item: item("a", "Mehl A", Some(199)),
            pieces: 2,
            alternatives: alts,
        },
    }
}

#[test]
fn pieces_clamp_rejects_out_of_range() {
    let mut i = matched_ingredient();
    i.set_item_pieces(0);
    if let IngredientStatus::Matched { pieces, .. } = i.status() {
        assert_eq!(*pieces, 2);
    } else {
        panic!("status changed");
    }
    i.set_item_pieces(100);
    if let IngredientStatus::Matched { pieces, .. } = i.status() {
        assert_eq!(*pieces, 2);
    } else {
        panic!("status changed");
    }
    i.set_item_pieces(99);
    if let IngredientStatus::Matched { pieces, .. } = i.status() {
        assert_eq!(*pieces, 99);
    } else {
        panic!("status changed");
    }
}

#[test]
fn pieces_clamp_needs_a_match() {
    let mut i = matched_ingredient();
    i.set_status(IngredientStatus::NoSearchResults);
    i.set_item_pieces(5);
    assert_eq!(*i.status(), IngredientStatus::NoSearchResults);
}

#[test]
fn select_item_switches_to_alternative() {
    let mut i = matched_ingredient();
    i.select_item(&"b".to_string(), None);
    if let IngredientStatus::Matched {
        item,
        pieces,
        alternatives,
    } = i.status()
    {
        assert_eq!(item.name, "Mehl B");
        assert_eq!(*pieces, 1);
        assert_eq!(alternatives.len(), 2);
    } else {
        panic!("not matched");
    }
}

#[test]
fn select_item_clamps_pieces_and_ignores_unknown_ids() {
    let mut i = matched_ingredient();
    i.select_item(&"b".to_string(), Some(1000));
    if let IngredientStatus::Matched { pieces, .. } = i.status() {
        assert_eq!(*pieces, 99);
    } else {
        panic!("not matched");
    }
    let before = i.clone();
    i.select_item(&"zzz".to_string(), Some(3));
    assert_eq!(i, before);
}

#[test]
fn enrich_applies_the_name_table() {
    let cases = [
        ("Mehl", "Weizenmehl"),
        ("Zucker", "Zucker"),
        ("Salz", "Speisesalz"),
        ("Ei", "Eier"),
        ("Eigelb", "Eier"),
        ("Eiweiß", "Eier"),
        ("Olivenöl", "Olivenöl"),
    ];
    for (from, to) in cases {
        let mut i = matched_ingredient();
        i.name = from.to_string();
        i.enrich();
        assert_eq!(i.name, to);
    }
}

#[test]
fn enrich_twice_equals_enrich_once() {
    for start in ["Mehl", "Zucker", "Salz", "Ei", "Eigelb", "Eiweiß", "Käse"] {
        let mut once = matched_ingredient();
        once.name = start.to_string();
        once.enrich();
        let mut twice = once.clone();
        twice.enrich();
        assert_eq!(once.name, twice.name);
    }
}

#[test]
fn price_totals_in_cents_and_text() {
    let it = item("a", "Mehl A", Some(1234));
    assert_eq!(it.price_total_cent(3), 3702);
    assert_eq!(it.price_total_string(3), "37.02");
    let free = item("b", "Gratis", None);
    assert_eq!(free.price_total_cent(5), 0);
    assert_eq!(free.price_total_string(5), "0.00");
    let i = matched_ingredient();
    assert_eq!(i.price_total_cent(), Some(398));
}
