//! The serialized form of ingredients and items.
//!
//! Ingredients travel between the browser, the server and the
//! request payloads as JSON; this module defines that layout and
//! proves that a serialized ingredient reparses to exactly the value
//! it came from, status variant and candidate lists included.

use vstd::prelude::*;
use vstd::string::StringExecFns;

use crate::ingredient::{Ingredient, IngredientV, IngredientStatus, StatusV, items_view};
use crate::item::{Item, ItemV};
use crate::json::{
    json_view, json_wf, jsons_view, members_view, str_wf, Json, JsonV,
};
use crate::text::string_is;
use crate::unit::{spec_unit_name, spec_unit_of, Unit};

verus! {

/// First value bound to `key` in an object's member list.
pub open spec fn spec_lookup(ms: Seq<(Seq<char>, JsonV)>, key: Seq<char>) -> Option<JsonV>
    decreases ms.len(),
{
    if ms.len() == 0 {
        None
    } else if ms[0].0 == key {
        Some(ms[0].1)
    } else {
        spec_lookup(ms.drop_first(), key)
    }
}

/// A found member is the first hit.
proof fn lemma_lookup_first(ms: Seq<(Seq<char>, JsonV)>, key: Seq<char>)
    ensures
        match spec_lookup(ms, key) {
            Some(v) => exists|i: int|
                {
                    &&& 0 <= i < ms.len()
                    &&& (#[trigger] ms[i]).0 == key
                    &&& ms[i].1 == v
                    &&& forall|j: int| 0 <= j < i ==> ms[j].0 != key
                },
            None => forall|j: int| 0 <= j < ms.len() ==> (#[trigger] ms[j]).0 != key,
        },
    decreases ms.len(),
{
    if ms.len() > 0 && ms[0].0 != key {
        let rest = ms.drop_first();
        lemma_lookup_first(rest, key);
        assert(forall|j: int| 0 <= j < rest.len() ==> rest[j] == ms[j + 1]);
        match spec_lookup(rest, key) {
            Some(v) => {
                let i = choose|i: int|
                    {
                        &&& 0 <= i < rest.len()
                        &&& (#[trigger] rest[i]).0 == key
                        &&& rest[i].1 == v
                        &&& forall|j: int| 0 <= j < i ==> rest[j].0 != key
                    };
                assert(ms[i + 1].0 == key && ms[i + 1].1 == v);
                assert forall|j: int| 0 <= j < i + 1 implies ms[j].0 != key by {
                    if j > 0 {
                        assert(rest[j - 1].0 != key);
                    }
                }
            },
            None => {
                assert forall|j: int| 0 <= j < ms.len() implies ms[j].0 != key by {
                    if j > 0 {
                        assert(rest[j - 1].0 != key);
                    }
                }
            },
        }
    }
}

/// First member of `ms` named `key`, as [`spec_lookup`] describes.
pub(crate) fn lookup<'a>(ms: &'a Vec<(String, Json)>, key: &str) -> (r: Option<&'a Json>)
    ensures
        match r {
            Some(j) => spec_lookup(members_view(ms@), key@) == Some(json_view(*j)),
            None => spec_lookup(members_view(ms@), key@) is None,
        },
{
    let ghost msv = members_view(ms@);
    proof {
        crate::json::lemma_members_view(ms@);
    }
    let n = ms.len();
    let mut k: usize = 0;
    while k < n
        invariant
            n == ms@.len(),
            k <= n,
            msv == members_view(ms@),
            msv.len() == n,
            forall|i: int| 0 <= i < ms@.len() ==> #[trigger] msv[i] == (ms@[i].0@, json_view(
                ms@[i].1,
            )),
            forall|j: int| 0 <= j < k ==> (#[trigger] msv[j]).0 != key@,
        decreases n - k,
    {
        if string_is(&ms[k].0, key) {
            proof {
                lemma_lookup_first(msv, key@);
                match spec_lookup(msv, key@) {
                    Some(v) => {
                        let i = choose|i: int|
                            {
                                &&& 0 <= i < msv.len()
                                &&& (#[trigger] msv[i]).0 == key@
                                &&& msv[i].1 == v
                                &&& forall|j: int| 0 <= j < i ==> msv[j].0 != key@
                            };
                        if i < k as int {
                            assert(msv[i].0 != key@);
                        }
                        if i > k as int {
                            assert(msv[k as int].0 != key@);
                        }
                        assert(i == k as int);
                    },
                    None => {
                        assert(msv[k as int].0 != key@);
                    },
                }
            }
            return Some(&ms[k].1);
        }
        k = k + 1;
    }
    proof {
        lemma_lookup_first(msv, key@);
        if spec_lookup(msv, key@) is Some {
            let i = choose|i: int|
                {
                    &&& 0 <= i < msv.len()
                    &&& (#[trigger] msv[i]).0 == key@
                    &&& msv[i].1 == spec_lookup(msv, key@)->0
                    &&& forall|j: int| 0 <= j < i ==> msv[j].0 != key@
                };
            assert(msv[i].0 != key@);
        }
    }
    None
}

/// An optional string as a JSON value: the text, or null.
pub open spec fn spec_opt_text(o: Option<Seq<char>>) -> JsonV {
    match o {
        Some(s) => JsonV::Text(s),
        None => JsonV::Null,
    }
}

/// The serialized layout of an item.
pub open spec fn spec_item_json(it: ItemV) -> JsonV {
    JsonV::Obj(
        seq![
            ("id"@, JsonV::Text(it.id)),
            ("name"@, JsonV::Text(it.name)),
            ("quantity"@, spec_opt_text(it.quantity)),
            (
                "price_cent"@,
                match it.price_cent {
                    Some(p) => JsonV::Int(p),
                    None => JsonV::Null,
                },
            ),
            ("url"@, spec_opt_text(it.url)),
            ("image_url"@, spec_opt_text(it.image_url)),
        ],
    )
}

/// The serialized layouts of a list of items.
pub open spec fn spec_items_json(items: Seq<ItemV>) -> Seq<JsonV> {
    items.map_values(|it: ItemV| spec_item_json(it))
}

/// The serialized layout of a status: a tag plus the variant's
/// payload fields.
pub open spec fn spec_status_json(st: StatusV) -> JsonV {
    match st {
        StatusV::Unchecked => JsonV::Obj(seq![("status"@, JsonV::Text("unchecked"@))]),
        StatusV::ApiSearchFailed { error } => JsonV::Obj(
            seq![
                ("status"@, JsonV::Text("api_search_failed"@)),
                ("error"@, JsonV::Text(error)),
            ],
        ),
        StatusV::NoSearchResults => JsonV::Obj(
            seq![("status"@, JsonV::Text("no_search_results"@))],
        ),
        StatusV::SearchResults { items } => JsonV::Obj(
            seq![
                ("status"@, JsonV::Text("search_results"@)),
                ("items"@, JsonV::Arr(spec_items_json(items))),
            ],
        ),
        StatusV::AiFailsToSelectItem { alternatives } => JsonV::Obj(
            seq![
                ("status"@, JsonV::Text("ai_fails_to_select_item"@)),
                ("alternatives"@, JsonV::Arr(spec_items_json(alternatives))),
            ],
        ),
        StatusV::Matched { item, pieces, alternatives } => JsonV::Obj(
            seq![
                ("status"@, JsonV::Text("matched"@)),
                ("item"@, spec_item_json(item)),
                ("pieces"@, JsonV::Int(pieces)),
                ("alternatives"@, JsonV::Arr(spec_items_json(alternatives))),
            ],
        ),
    }
}

/// The serialized layout of an ingredient.
pub open spec fn spec_ingredient_json(i: IngredientV) -> JsonV {
    JsonV::Obj(
        seq![
            ("id"@, JsonV::Text(i.id)),
            ("name"@, JsonV::Text(i.name)),
            (
                "probably_at_home"@,
                match i.probably_at_home {
                    Some(b) => JsonV::Bool(b),
                    None => JsonV::Null,
                },
            ),
            ("unit"@, JsonV::Text(spec_unit_name(i.unit))),
            ("quantity"@, JsonV::Int(i.quantity)),
            ("status"@, spec_status_json(i.status)),
        ],
    )
}

/// A field that must be a string.
pub open spec fn as_text(o: Option<JsonV>) -> Option<Seq<char>> {
    match o {
        Some(JsonV::Text(s)) => Some(s),
        _ => None,
    }
}

/// A field that is a string or null.
pub open spec fn as_opt_text(o: Option<JsonV>) -> Option<Option<Seq<char>>> {
    match o {
        Some(JsonV::Text(s)) => Some(Some(s)),
        Some(JsonV::Null) => Some(None),
        _ => None,
    }
}

/// A field that is a price in cents or null.
pub open spec fn as_price(o: Option<JsonV>) -> Option<Option<int>> {
    match o {
        Some(JsonV::Int(n)) => if 0 <= n <= usize::MAX {
            Some(Some(n))
        } else {
            None
        },
        Some(JsonV::Null) => Some(None),
        _ => None,
    }
}

/// The item denoted by a serialized layout.
pub open spec fn spec_json_item(v: JsonV) -> Option<ItemV> {
    match v {
        JsonV::Obj(ms) => {
            let id = as_text(spec_lookup(ms, "id"@));
            let name = as_text(spec_lookup(ms, "name"@));
            let quantity = as_opt_text(spec_lookup(ms, "quantity"@));
            let price = as_price(spec_lookup(ms, "price_cent"@));
            let url = as_opt_text(spec_lookup(ms, "url"@));
            let image_url = as_opt_text(spec_lookup(ms, "image_url"@));
            if id is Some && name is Some && quantity is Some && price is Some && url is Some
                && image_url is Some {
                Some(
                    ItemV {
                        id: id->0,
                        name: name->0,
                        quantity: quantity->0,
                        price_cent: price->0,
                        url: url->0,
                        image_url: image_url->0,
                    },
                )
            } else {
                None
            }
        },
        _ => None,
    }
}

/// The items denoted by a list of serialized layouts.
pub open spec fn spec_json_items(elems: Seq<JsonV>) -> Option<Seq<ItemV>>
    decreases elems.len(),
{
    if elems.len() == 0 {
        Some(Seq::empty())
    } else {
        match (spec_json_item(elems[0]), spec_json_items(elems.drop_first())) {
            (Some(it), Some(rest)) => Some(seq![it] + rest),
            _ => None,
        }
    }
}

/// The status denoted by a serialized layout. A matched status is
/// accepted only with a piece count inside `[1, 99]`.
pub open spec fn spec_json_status(v: JsonV) -> Option<StatusV> {
    match v {
        JsonV::Obj(ms) => match as_text(spec_lookup(ms, "status"@)) {
            Some(tag) => if tag == "unchecked"@ {
                Some(StatusV::Unchecked)
            } else if tag == "api_search_failed"@ {
                match as_text(spec_lookup(ms, "error"@)) {
                    Some(e) => Some(StatusV::ApiSearchFailed { error: e }),
                    None => None,
                }
            } else if tag == "no_search_results"@ {
                Some(StatusV::NoSearchResults)
            } else if tag == "search_results"@ {
                match spec_lookup(ms, "items"@) {
                    Some(JsonV::Arr(elems)) => match spec_json_items(elems) {
                        Some(items) => Some(StatusV::SearchResults { items }),
                        None => None,
                    },
                    _ => None,
                }
            } else if tag == "ai_fails_to_select_item"@ {
                match spec_lookup(ms, "alternatives"@) {
                    Some(JsonV::Arr(elems)) => match spec_json_items(elems) {
                        Some(alternatives) => Some(
                            StatusV::AiFailsToSelectItem { alternatives },
                        ),
                        None => None,
                    },
                    _ => None,
                }
            } else if tag == "matched"@ {
                match (spec_lookup(ms, "item"@), spec_lookup(ms, "pieces"@), spec_lookup(
                    ms,
                    "alternatives"@,
                )) {
                    (Some(itv), Some(JsonV::Int(p)), Some(JsonV::Arr(elems))) => match (
                        spec_json_item(itv),
                        spec_json_items(elems),
                    ) {
                        (Some(item), Some(alternatives)) => if 1 <= p <= 99 {
                            Some(StatusV::Matched { item, pieces: p, alternatives })
                        } else {
                            None
                        },
                        _ => None,
                    },
                    _ => None,
                }
            } else {
                None
            },
            None => None,
        },
        _ => None,
    }
}

/// The ingredient denoted by a serialized layout.
pub open spec fn spec_json_ingredient(v: JsonV) -> Option<IngredientV> {
    match v {
        JsonV::Obj(ms) => {
            let id = as_text(spec_lookup(ms, "id"@));
            let name = as_text(spec_lookup(ms, "name"@));
            let pah = match spec_lookup(ms, "probably_at_home"@) {
                Some(JsonV::Bool(b)) => Some(Some(b)),
                Some(JsonV::Null) => Some(None),
                _ => None,
            };
            let unit = match as_text(spec_lookup(ms, "unit"@)) {
                Some(u) => spec_unit_of(u),
                None => None,
            };
            let quantity = match spec_lookup(ms, "quantity"@) {
                Some(JsonV::Int(n)) => if 0 <= n <= usize::MAX {
                    Some(n)
                } else {
                    None
                },
                _ => None,
            };
            let status = match spec_lookup(ms, "status"@) {
                Some(st) => spec_json_status(st),
                None => None,
            };
            if id is Some && name is Some && pah is Some && unit is Some && quantity is Some
                && status is Some {
                Some(
                    IngredientV {
                        id: id->0,
                        name: name->0,
                        probably_at_home: pah->0,
                        unit: unit->0,
                        quantity: quantity->0,
                        status: status->0,
                    },
                )
            } else {
                None
            }
        },
        _ => None,
    }
}

/// An item whose serialized layout reparses and renders: strings are
/// printable and a price fits both the machine word and the JSON
/// integer.
pub open spec fn item_serializable(it: ItemV) -> bool {
    &&& str_wf(it.id)
    &&& str_wf(it.name)
    &&& match it.quantity {
        Some(q) => str_wf(q),
        None => true,
    }
    &&& match it.price_cent {
        Some(p) => 0 <= p <= usize::MAX && p <= i64::MAX,
        None => true,
    }
    &&& match it.url {
        Some(u) => str_wf(u),
        None => true,
    }
    &&& match it.image_url {
        Some(u) => str_wf(u),
        None => true,
    }
}

pub open spec fn items_serializable(items: Seq<ItemV>) -> bool {
    forall|k: int| 0 <= k < items.len() ==> item_serializable(#[trigger] items[k])
}

/// A status whose serialized layout reparses and renders.
pub open spec fn status_serializable(st: StatusV) -> bool {
    match st {
        StatusV::Unchecked => true,
        StatusV::ApiSearchFailed { error } => str_wf(error),
        StatusV::NoSearchResults => true,
        StatusV::SearchResults { items } => items_serializable(items),
        StatusV::AiFailsToSelectItem { alternatives } => items_serializable(alternatives),
        StatusV::Matched { item, pieces, alternatives } => {
            &&& item_serializable(item)
            &&& 1 <= pieces <= 99
            &&& items_serializable(alternatives)
        },
    }
}

/// An ingredient whose serialized layout reparses and renders.
pub open spec fn ingredient_serializable(i: IngredientV) -> bool {
    &&& str_wf(i.id)
    &&& str_wf(i.name)
    &&& 0 <= i.quantity <= usize::MAX && i.quantity <= i64::MAX
    &&& status_serializable(i.status)
}

/// A lookup resolves to position `i` when `i` holds the key and no
/// earlier member does.
proof fn lemma_lookup_at(ms: Seq<(Seq<char>, JsonV)>, key: Seq<char>, i: int)
    requires
        0 <= i < ms.len(),
        ms[i].0 == key,
        forall|j: int| 0 <= j < i ==> (#[trigger] ms[j]).0 != key,
    ensures
        spec_lookup(ms, key) == Some(ms[i].1),
    decreases i,
{
    if i > 0 {
        let rest = ms.drop_first();
        assert(forall|j: int| 0 <= j < rest.len() ==> rest[j] == ms[j + 1]);
        assert forall|j: int| 0 <= j < i - 1 implies (#[trigger] rest[j]).0 != key by {
            assert(ms[j + 1].0 != key);
        }
        lemma_lookup_at(rest, key, i - 1);
    }
}

/// Reparsing a serialized item yields the item back.
proof fn lemma_item_codec(it: ItemV)
    requires
        item_serializable(it),
    ensures
        spec_json_item(spec_item_json(it)) == Some(it),
{
    reveal_strlit("id");
    reveal_strlit("name");
    reveal_strlit("quantity");
    reveal_strlit("price_cent");
    reveal_strlit("url");
    reveal_strlit("image_url");
    assert("id"@.len() == 2 && "name"@.len() == 4 && "quantity"@.len() == 8
        && "price_cent"@.len() == 10 && "url"@.len() == 3 && "image_url"@.len() == 9);
    let v = spec_item_json(it);
    let ms = v->Obj_0;
    lemma_lookup_at(ms, "id"@, 0);
    lemma_lookup_at(ms, "name"@, 1);
    lemma_lookup_at(ms, "quantity"@, 2);
    lemma_lookup_at(ms, "price_cent"@, 3);
    lemma_lookup_at(ms, "url"@, 4);
    lemma_lookup_at(ms, "image_url"@, 5);
}

/// Reparsing a list of serialized items yields the items back.
proof fn lemma_items_codec(items: Seq<ItemV>)
    requires
        items_serializable(items),
    ensures
        spec_json_items(spec_items_json(items)) == Some(items),
    decreases items.len(),
{
    let js = spec_items_json(items);
    if items.len() == 0 {
        assert(items =~= Seq::<ItemV>::empty());
    } else {
        let rest = items.drop_first();
        assert(forall|k: int| 0 <= k < rest.len() ==> rest[k] == items[k + 1]);
        lemma_items_codec(rest);
        assert(js[0] == spec_item_json(items[0]));
        lemma_item_codec(items[0]);
        assert(js.drop_first() =~= spec_items_json(rest)) by {
            assert forall|k: int| 0 <= k < rest.len() implies js.drop_first()[k]
                == spec_items_json(rest)[k] by {
                assert(js.drop_first()[k] == js[k + 1]);
                assert(js[k + 1] == spec_item_json(items[k + 1]));
                assert(spec_items_json(rest)[k] == spec_item_json(rest[k]));
            }
        }
        assert(seq![items[0]] + rest =~= items);
    }
}

/// Reparsing a serialized status yields the status back, variant and
/// candidate lists included.
proof fn lemma_status_codec(st: StatusV)
    requires
        status_serializable(st),
    ensures
        spec_json_status(spec_status_json(st)) == Some(st),
{
    reveal_strlit("status");
    reveal_strlit("error");
    reveal_strlit("items");
    reveal_strlit("item");
    reveal_strlit("pieces");
    reveal_strlit("alternatives");
    reveal_strlit("unchecked");
    reveal_strlit("api_search_failed");
    reveal_strlit("no_search_results");
    reveal_strlit("search_results");
    reveal_strlit("ai_fails_to_select_item");
    reveal_strlit("matched");
    assert("status"@.len() == 6 && "error"@.len() == 5 && "items"@.len() == 5 && "item"@.len() == 4
        && "pieces"@.len() == 6 && "alternatives"@.len() == 12);
    assert("unchecked"@.len() == 9 && "api_search_failed"@.len() == 17
        && "no_search_results"@.len() == 17 && "search_results"@.len() == 14
        && "ai_fails_to_select_item"@.len() == 23 && "matched"@.len() == 7);
    assert("error"@[0] == 'e' && "items"@[0] == 'i' && "pieces"@[0] == 'p' && "status"@[0] == 's');
    assert("api_search_failed"@[0] == 'a' && "no_search_results"@[0] == 'n');
    let v = spec_status_json(st);
    let ms = v->Obj_0;
    match st {
        StatusV::Unchecked => {
            lemma_lookup_at(ms, "status"@, 0);
        },
        StatusV::ApiSearchFailed { error } => {
            lemma_lookup_at(ms, "status"@, 0);
            lemma_lookup_at(ms, "error"@, 1);
        },
        StatusV::NoSearchResults => {
            lemma_lookup_at(ms, "status"@, 0);
        },
        StatusV::SearchResults { items } => {
            lemma_lookup_at(ms, "status"@, 0);
            lemma_lookup_at(ms, "items"@, 1);
            lemma_items_codec(items);
        },
        StatusV::AiFailsToSelectItem { alternatives } => {
            lemma_lookup_at(ms, "status"@, 0);
            lemma_lookup_at(ms, "alternatives"@, 1);
            lemma_items_codec(alternatives);
        },
        StatusV::Matched { item, pieces, alternatives } => {
            lemma_lookup_at(ms, "status"@, 0);
            lemma_lookup_at(ms, "item"@, 1);
            lemma_lookup_at(ms, "pieces"@, 2);
            lemma_lookup_at(ms, "alternatives"@, 3);
            lemma_item_codec(item);
            lemma_items_codec(alternatives);
        },
    }
}

/// Reparsing a serialized ingredient yields the ingredient back.
proof fn lemma_ingredient_codec(i: IngredientV)
    requires
        ingredient_serializable(i),
    ensures
        spec_json_ingredient(spec_ingredient_json(i)) == Some(i),
{
    reveal_strlit("id");
    reveal_strlit("name");
    reveal_strlit("probably_at_home");
    reveal_strlit("unit");
    reveal_strlit("quantity");
    reveal_strlit("status");
    assert("id"@.len() == 2 && "name"@.len() == 4 && "probably_at_home"@.len() == 16
        && "unit"@.len() == 4 && "quantity"@.len() == 8 && "status"@.len() == 6);
    assert("name"@[0] == 'n' && "unit"@[0] == 'u');
    let v = spec_ingredient_json(i);
    let ms = v->Obj_0;
    lemma_lookup_at(ms, "id"@, 0);
    lemma_lookup_at(ms, "name"@, 1);
    lemma_lookup_at(ms, "probably_at_home"@, 2);
    lemma_lookup_at(ms, "unit"@, 3);
    lemma_lookup_at(ms, "quantity"@, 4);
    lemma_lookup_at(ms, "status"@, 5);
    crate::unit::lemma_unit_name_round_trip(i.unit);
    lemma_status_codec(i.status);
}

/// The serialized layout of a serializable item renders and reparses.
proof fn lemma_item_json_wf(it: ItemV)
    requires
        item_serializable(it),
    ensures
        json_wf(spec_item_json(it)),
{
    reveal_strlit("id");
    reveal_strlit("name");
    reveal_strlit("quantity");
    reveal_strlit("price_cent");
    reveal_strlit("url");
    reveal_strlit("image_url");
    assert(str_wf("id"@));
    assert(str_wf("name"@));
    assert(str_wf("quantity"@));
    assert(str_wf("price_cent"@));
    assert(str_wf("url"@));
    assert(str_wf("image_url"@));
    let ms = spec_item_json(it)->Obj_0;
    assert forall|k: int| 0 <= k < ms.len() implies str_wf((#[trigger] ms[k]).0) && json_wf(
        ms[k].1,
    ) by {
        if k == 0 {
        } else if k == 1 {
        } else if k == 2 {
        } else if k == 3 {
        } else if k == 4 {
        } else {
            assert(k == 5);
        }
    }
}

proof fn lemma_items_json_wf(items: Seq<ItemV>)
    requires
        items_serializable(items),
    ensures
        forall|k: int| 0 <= k < spec_items_json(items).len() ==> json_wf(
            #[trigger] spec_items_json(items)[k],
        ),
{
    assert forall|k: int| 0 <= k < spec_items_json(items).len() implies json_wf(
        #[trigger] spec_items_json(items)[k],
    ) by {
        assert(spec_items_json(items)[k] == spec_item_json(items[k]));
        lemma_item_json_wf(items[k]);
    }
}

proof fn lemma_status_json_wf(st: StatusV)
    requires
        status_serializable(st),
    ensures
        json_wf(spec_status_json(st)),
{
    reveal_strlit("status");
    reveal_strlit("error");
    reveal_strlit("items");
    reveal_strlit("item");
    reveal_strlit("pieces");
    reveal_strlit("alternatives");
    reveal_strlit("unchecked");
    reveal_strlit("api_search_failed");
    reveal_strlit("no_search_results");
    reveal_strlit("search_results");
    reveal_strlit("ai_fails_to_select_item");
    reveal_strlit("matched");
    assert(str_wf("status"@));
    assert(str_wf("error"@));
    assert(str_wf("items"@));
    assert(str_wf("item"@));
    assert(str_wf("pieces"@));
    assert(str_wf("alternatives"@));
    assert(str_wf("unchecked"@));
    assert(str_wf("api_search_failed"@));
    assert(str_wf("no_search_results"@));
    assert(str_wf("search_results"@));
    assert(str_wf("ai_fails_to_select_item"@));
    assert(str_wf("matched"@));
    let ms = spec_status_json(st)->Obj_0;
    match st {
        StatusV::SearchResults { items } => {
            lemma_items_json_wf(items);
        },
        StatusV::AiFailsToSelectItem { alternatives } => {
            lemma_items_json_wf(alternatives);
        },
        StatusV::Matched { item, pieces, alternatives } => {
            lemma_item_json_wf(item);
            lemma_items_json_wf(alternatives);
        },
        _ => (),
    }
    assert forall|k: int| 0 <= k < ms.len() implies str_wf((#[trigger] ms[k]).0) && json_wf(
        ms[k].1,
    ) by {
        if k == 0 {
        } else if k == 1 {
        } else if k == 2 {
        } else {
            assert(k == 3);
        }
    }
}

proof fn lemma_ingredient_json_wf(i: IngredientV)
    requires
        ingredient_serializable(i),
    ensures
        json_wf(spec_ingredient_json(i)),
{
    reveal_strlit("id");
    reveal_strlit("name");
    reveal_strlit("probably_at_home");
    reveal_strlit("unit");
    reveal_strlit("quantity");
    reveal_strlit("status");
    reveal_strlit("Gramm");
    reveal_strlit("Kilogramm");
    reveal_strlit("Milliliter");
    reveal_strlit("Liter");
    reveal_strlit("Stück");
    assert(str_wf("id"@));
    assert(str_wf("name"@));
    assert(str_wf("probably_at_home"@));
    assert(str_wf("unit"@));
    assert(str_wf("quantity"@));
    assert(str_wf("status"@));
    assert(str_wf(spec_unit_name(i.unit))) by {
        match i.unit {
            Unit::Gram => assert(str_wf("Gramm"@)),
            Unit::Kilogram => assert(str_wf("Kilogramm"@)),
            Unit::Milliliter => assert(str_wf("Milliliter"@)),
            Unit::Liter => assert(str_wf("Liter"@)),
            Unit::Piece => assert(str_wf("Stück"@)),
        }
    }
    lemma_status_json_wf(i.status);
    let ms = spec_ingredient_json(i)->Obj_0;
    assert forall|k: int| 0 <= k < ms.len() implies str_wf((#[trigger] ms[k]).0) && json_wf(
        ms[k].1,
    ) by {
        if k == 0 {
        } else if k == 1 {
        } else if k == 2 {
        } else if k == 3 {
        } else if k == 4 {
        } else {
            assert(k == 5);
        }
    }
}

/// An ingredient serialized to text and reparsed preserves its value
/// exactly — status variant and candidate lists included.
pub proof fn lemma_ingredient_serialization_round_trip(i: IngredientV)
    requires
        ingredient_serializable(i),
    ensures
        crate::json::spec_parse_json(crate::json::spec_render(spec_ingredient_json(i))) == Some(
            spec_ingredient_json(i),
        ),
        spec_json_ingredient(spec_ingredient_json(i)) == Some(i),
{
    lemma_ingredient_json_wf(i);
    crate::json::lemma_json_round_trip(spec_ingredient_json(i));
    lemma_ingredient_codec(i);
}


/// Numeric bounds that let a value be encoded with machine integers.
pub open spec fn item_encodable(it: ItemV) -> bool {
    match it.price_cent {
        Some(p) => p <= i64::MAX,
        None => true,
    }
}

pub open spec fn items_encodable(items: Seq<ItemV>) -> bool {
    forall|k: int| 0 <= k < items.len() ==> item_encodable(#[trigger] items[k])
}

pub open spec fn status_encodable(st: StatusV) -> bool {
    match st {
        StatusV::SearchResults { items } => items_encodable(items),
        StatusV::AiFailsToSelectItem { alternatives } => items_encodable(alternatives),
        StatusV::Matched { item, pieces, alternatives } => {
            &&& item_encodable(item)
            &&& pieces <= i64::MAX
            &&& items_encodable(alternatives)
        },
        _ => true,
    }
}

pub open spec fn ingredient_encodable(i: IngredientV) -> bool {
    &&& i.quantity <= i64::MAX
    &&& status_encodable(i.status)
}

fn opt_string_json(o: &Option<String>) -> (r: Json)
    ensures
        json_view(r) == spec_opt_text(
            match *o {
                Some(ref u) => Some(u@),
                None => None,
            },
        ),
{
    match o {
        Some(u) => Json::Text(u.clone()),
        None => Json::Null,
    }
}

/// The serialized layout of an item, as a tree.
pub fn item_to_json(it: &Item) -> (r: Json)
    requires
        item_encodable(it@),
    ensures
        json_view(r) == spec_item_json(it@),
{
    let mut ms: Vec<(String, Json)> = Vec::new();
    ms.push((String::from_str("id"), Json::Text(it.id.clone())));
    ms.push((String::from_str("name"), Json::Text(it.name.clone())));
    ms.push((String::from_str("quantity"), opt_string_json(&it.quantity)));
    let price = match it.price_cent {
        Some(p) => Json::Int(p as i64),
        None => Json::Null,
    };
    ms.push((String::from_str("price_cent"), price));
    ms.push((String::from_str("url"), opt_string_json(&it.url)));
    ms.push((String::from_str("image_url"), opt_string_json(&it.image_url)));
    let r = Json::Obj(ms);
    proof {
        let msv = r->Obj_0@;
        let target = spec_item_json(it@)->Obj_0;
        crate::json::lemma_members_view(msv);
        assert forall|j: int| 0 <= j < msv.len() implies members_view(msv)[j] == target[j] by {
            assert(members_view(msv)[j] == ((#[trigger] msv[j]).0@, json_view(msv[j].1)));
            if j == 0 {
            } else if j == 1 {
            } else if j == 2 {
            } else if j == 3 {
            } else if j == 4 {
            } else {
                assert(j == 5);
            }
        }
        assert(members_view(msv) =~= target);
    }
    r
}

/// The serialized layouts of a list of items, as trees.
pub fn items_to_json(v: &Vec<Item>) -> (r: Vec<Json>)
    requires
        items_encodable(items_view(v@)),
    ensures
        jsons_view(r@) == spec_items_json(items_view(v@)),
{
    let mut r: Vec<Json> = Vec::new();
    let mut k: usize = 0;
    while k < v.len()
        invariant
            k <= v@.len(),
            items_encodable(items_view(v@)),
            r@.len() == k,
            forall|t: int| 0 <= t < k ==> json_view(#[trigger] r@[t]) == spec_item_json(v@[t]@),
        decreases v@.len() - k,
    {
        proof {
            assert(items_view(v@)[k as int] == v@[k as int]@);
        }
        r.push(item_to_json(&v[k]));
        k = k + 1;
    }
    proof {
        crate::json::lemma_jsons_view(r@);
        assert forall|t: int| 0 <= t < v@.len() implies jsons_view(r@)[t] == spec_items_json(
            items_view(v@),
        )[t] by {
            assert(jsons_view(r@)[t] == json_view(r@[t]));
            assert(spec_items_json(items_view(v@))[t] == spec_item_json(items_view(v@)[t]));
            assert(items_view(v@)[t] == v@[t]@);
        }
        assert(jsons_view(r@) =~= spec_items_json(items_view(v@)));
    }
    r
}

/// The serialized layout of a status, as a tree.
pub fn status_to_json(st: &IngredientStatus) -> (r: Json)
    requires
        status_encodable(st@),
    ensures
        json_view(r) == spec_status_json(st@),
{
    let r = match st {
        IngredientStatus::Unchecked => {
            let mut ms: Vec<(String, Json)> = Vec::new();
            ms.push((String::from_str("status"), Json::Text(String::from_str("unchecked"))));
            Json::Obj(ms)
        },
        IngredientStatus::ApiSearchFailed { error } => {
            let mut ms: Vec<(String, Json)> = Vec::new();
            ms.push(
                (String::from_str("status"), Json::Text(String::from_str("api_search_failed"))),
            );
            ms.push((String::from_str("error"), Json::Text(error.clone())));
            Json::Obj(ms)
        },
        IngredientStatus::NoSearchResults => {
            let mut ms: Vec<(String, Json)> = Vec::new();
            ms.push(
                (String::from_str("status"), Json::Text(String::from_str("no_search_results"))),
            );
            Json::Obj(ms)
        },
        IngredientStatus::SearchResults { items } => {
            let mut ms: Vec<(String, Json)> = Vec::new();
            ms.push((String::from_str("status"), Json::Text(String::from_str("search_results"))));
            ms.push((String::from_str("items"), Json::Arr(items_to_json(items))));
            Json::Obj(ms)
        },
        IngredientStatus::AiFailsToSelectItem { alternatives } => {
            let mut ms: Vec<(String, Json)> = Vec::new();
            ms.push(
                (
                    String::from_str("status"),
                    Json::Text(String::from_str("ai_fails_to_select_item")),
                ),
            );
            ms.push((String::from_str("alternatives"), Json::Arr(items_to_json(alternatives))));
            Json::Obj(ms)
        },
        IngredientStatus::Matched { item, pieces, alternatives } => {
            let mut ms: Vec<(String, Json)> = Vec::new();
            ms.push((String::from_str("status"), Json::Text(String::from_str("matched"))));
            ms.push((String::from_str("item"), item_to_json(item)));
            ms.push((String::from_str("pieces"), Json::Int(*pieces as i64)));
            ms.push((String::from_str("alternatives"), Json::Arr(items_to_json(alternatives))));
            Json::Obj(ms)
        },
    };
    proof {
        let msv = r->Obj_0@;
        let target = spec_status_json(st@)->Obj_0;
        crate::json::lemma_members_view(msv);
        assert forall|j: int| 0 <= j < msv.len() implies members_view(msv)[j] == target[j] by {
            assert(members_view(msv)[j] == ((#[trigger] msv[j]).0@, json_view(msv[j].1)));
            if j == 0 {
            } else if j == 1 {
            } else if j == 2 {
            } else {
                assert(j == 3);
            }
        }
        assert(members_view(msv) =~= target);
    }
    r
}

/// The serialized layout of an ingredient, as a tree.
pub fn ingredient_to_json(i: &Ingredient) -> (r: Json)
    requires
        ingredient_encodable(i@),
    ensures
        json_view(r) == spec_ingredient_json(i@),
{
    let mut ms: Vec<(String, Json)> = Vec::new();
    ms.push((String::from_str("id"), Json::Text(i.id.clone())));
    ms.push((String::from_str("name"), Json::Text(i.name.clone())));
    let pah = match i.probably_at_home {
        Some(b) => Json::Bool(b),
        None => Json::Null,
    };
    ms.push((String::from_str("probably_at_home"), pah));
    ms.push((String::from_str("unit"), Json::Text(i.unit.name())));
    ms.push((String::from_str("quantity"), Json::Int(i.quantity as i64)));
    ms.push((String::from_str("status"), status_to_json(&i.status)));
    let r = Json::Obj(ms);
    proof {
        let msv = r->Obj_0@;
        let target = spec_ingredient_json(i@)->Obj_0;
        crate::json::lemma_members_view(msv);
        assert forall|j: int| 0 <= j < msv.len() implies members_view(msv)[j] == target[j] by {
            assert(members_view(msv)[j] == ((#[trigger] msv[j]).0@, json_view(msv[j].1)));
            if j == 0 {
            } else if j == 1 {
            } else if j == 2 {
            } else if j == 3 {
            } else if j == 4 {
            } else {
                assert(j == 5);
            }
        }
        assert(members_view(msv) =~= target);
    }
    r
}

/// The item denoted by a tree, as [`spec_json_item`] describes.
pub fn json_to_item(v: &Json) -> (r: Option<Item>)
    ensures
        match r {
            Some(it) => spec_json_item(json_view(*v)) == Some(it@),
            None => spec_json_item(json_view(*v)) is None,
        },
{
    let ms = match v {
        Json::Obj(ms) => ms,
        _ => {
            return None;
        },
    };
    let id: String = match lookup(ms, "id") {
        Some(Json::Text(t)) => t.clone(),
        _ => {
            return None;
        },
    };
    let name: String = match lookup(ms, "name") {
        Some(Json::Text(t)) => t.clone(),
        _ => {
            return None;
        },
    };
    let quantity: Option<String> = match lookup(ms, "quantity") {
        Some(Json::Text(t)) => Some(t.clone()),
        Some(Json::Null) => None,
        _ => {
            return None;
        },
    };
    let price_cent: Option<usize> = match lookup(ms, "price_cent") {
        Some(Json::Int(n)) => {
            if *n >= 0 && (*n as u64) <= (usize::MAX as u64) {
                Some(*n as usize)
            } else {
                return None;
            }
        },
        Some(Json::Null) => None,
        _ => {
            return None;
        },
    };
    let url: Option<String> = match lookup(ms, "url") {
        Some(Json::Text(t)) => Some(t.clone()),
        Some(Json::Null) => None,
        _ => {
            return None;
        },
    };
    let image_url: Option<String> = match lookup(ms, "image_url") {
        Some(Json::Text(t)) => Some(t.clone()),
        Some(Json::Null) => None,
        _ => {
            return None;
        },
    };
    Some(Item { id, name, quantity, price_cent, url, image_url })
}

/// The items denoted by the trees from position `k` on.
pub fn json_to_items(elems: &Vec<Json>, k: usize) -> (r: Option<Vec<Item>>)
    requires
        k <= elems@.len(),
    ensures
        match r {
            Some(its) => spec_json_items(
                jsons_view(elems@).subrange(k as int, elems@.len() as int),
            ) == Some(items_view(its@)),
            None => spec_json_items(
                jsons_view(elems@).subrange(k as int, elems@.len() as int),
            ) is None,
        },
    decreases elems@.len() - k,
{
    let ghost tail = jsons_view(elems@).subrange(k as int, elems@.len() as int);
    proof {
        crate::json::lemma_jsons_view(elems@);
    }
    if k >= elems.len() {
        proof {
            assert(tail.len() == 0);
            assert(items_view(Seq::<Item>::empty()) =~= Seq::<ItemV>::empty());
        }
        return Some(Vec::new());
    }
    proof {
        assert(tail[0] == jsons_view(elems@)[k as int]);
        assert(jsons_view(elems@)[k as int] == json_view(elems@[k as int]));
    }
    let first = match json_to_item(&elems[k]) {
        Some(it) => it,
        None => {
            return None;
        },
    };
    let rest = match json_to_items(elems, k + 1) {
        Some(r) => r,
        None => {
            proof {
                assert(tail.drop_first() =~= jsons_view(elems@).subrange(
                    k + 1,
                    elems@.len() as int,
                ));
            }
            return None;
        },
    };
    let ghost restv = rest@;
    let mut out = rest;
    out.insert(0, first);
    proof {
        assert(tail.drop_first() =~= jsons_view(elems@).subrange(k + 1, elems@.len() as int));
        assert(out@ =~= seq![first] + restv);
        assert(items_view(out@) =~= seq![first@] + items_view(restv)) by {
            assert(forall|t: int| 0 <= t < out@.len() ==> items_view(out@)[t] == #[trigger] out@[t]@);
            assert(forall|t: int| 0 <= t < restv.len() ==> items_view(restv)[t]
                == #[trigger] restv[t]@);
            assert forall|t: int| 0 <= t < out@.len() implies items_view(out@)[t] == (seq![first@]
                + items_view(restv))[t] by {
                if t > 0 {
                    assert(out@[t] == restv[t - 1]);
                }
            }
        }
    }
    Some(out)
}

/// The status denoted by a tree, as [`spec_json_status`] describes.
pub fn json_to_status(v: &Json) -> (r: Option<IngredientStatus>)
    ensures
        match r {
            Some(st) => spec_json_status(json_view(*v)) == Some(st@),
            None => spec_json_status(json_view(*v)) is None,
        },
{
    let ms = match v {
        Json::Obj(ms) => ms,
        _ => {
            return None;
        },
    };
    let tag: &String = match lookup(ms, "status") {
        Some(Json::Text(t)) => t,
        _ => {
            return None;
        },
    };
    if string_is(tag, "unchecked") {
        Some(IngredientStatus::Unchecked)
    } else if string_is(tag, "api_search_failed") {
        match lookup(ms, "error") {
            Some(Json::Text(e)) => Some(IngredientStatus::ApiSearchFailed { error: e.clone() }),
            _ => None,
        }
    } else if string_is(tag, "no_search_results") {
        Some(IngredientStatus::NoSearchResults)
    } else if string_is(tag, "search_results") {
        match lookup(ms, "items") {
            Some(Json::Arr(elems)) => match json_to_items(elems, 0) {
                Some(items) => {
                    proof {
                        crate::json::lemma_jsons_view(elems@);
                        assert(jsons_view(elems@).subrange(0, elems@.len() as int) =~= jsons_view(
                            elems@,
                        ));
                    }
                    Some(IngredientStatus::SearchResults { items })
                },
                None => {
                    proof {
                        crate::json::lemma_jsons_view(elems@);
                        assert(jsons_view(elems@).subrange(0, elems@.len() as int) =~= jsons_view(
                            elems@,
                        ));
                    }
                    None
                },
            },
            _ => None,
        }
    } else if string_is(tag, "ai_fails_to_select_item") {
        match lookup(ms, "alternatives") {
            Some(Json::Arr(elems)) => match json_to_items(elems, 0) {
                Some(alternatives) => {
                    proof {
                        crate::json::lemma_jsons_view(elems@);
                        assert(jsons_view(elems@).subrange(0, elems@.len() as int) =~= jsons_view(
                            elems@,
                        ));
                    }
                    Some(IngredientStatus::AiFailsToSelectItem { alternatives })
                },
                None => {
                    proof {
                        crate::json::lemma_jsons_view(elems@);
                        assert(jsons_view(elems@).subrange(0, elems@.len() as int) =~= jsons_view(
                            elems@,
                        ));
                    }
                    None
                },
            },
            _ => None,
        }
    } else if string_is(tag, "matched") {
        let itemj = match lookup(ms, "item") {
            Some(j) => j,
            None => {
                return None;
            },
        };
        let pieces: usize = match lookup(ms, "pieces") {
            Some(Json::Int(p)) => {
                if *p >= 1 && *p <= 99 {
                    *p as usize
                } else {
                    return None;
                }
            },
            _ => {
                return None;
            },
        };
        let elems = match lookup(ms, "alternatives") {
            Some(Json::Arr(elems)) => elems,
            _ => {
                return None;
            },
        };
        let item = match json_to_item(itemj) {
            Some(it) => it,
            None => {
                return None;
            },
        };
        match json_to_items(elems, 0) {
            Some(alternatives) => {
                proof {
                    crate::json::lemma_jsons_view(elems@);
                    assert(jsons_view(elems@).subrange(0, elems@.len() as int) =~= jsons_view(
                        elems@,
                    ));
                }
                Some(IngredientStatus::Matched { item, pieces, alternatives })
            },
            None => {
                proof {
                    crate::json::lemma_jsons_view(elems@);
                    assert(jsons_view(elems@).subrange(0, elems@.len() as int) =~= jsons_view(
                        elems@,
                    ));
                }
                None
            },
        }
    } else {
        None
    }
}

/// The ingredient denoted by a tree, as [`spec_json_ingredient`]
/// describes.
pub fn json_to_ingredient(v: &Json) -> (r: Option<Ingredient>)
    ensures
        match r {
            Some(ing) => spec_json_ingredient(json_view(*v)) == Some(ing@),
            None => spec_json_ingredient(json_view(*v)) is None,
        },
{
    let ms = match v {
        Json::Obj(ms) => ms,
        _ => {
            return None;
        },
    };
    let id: String = match lookup(ms, "id") {
        Some(Json::Text(t)) => t.clone(),
        _ => {
            return None;
        },
    };
    let name: String = match lookup(ms, "name") {
        Some(Json::Text(t)) => t.clone(),
        _ => {
            return None;
        },
    };
    let probably_at_home: Option<bool> = match lookup(ms, "probably_at_home") {
        Some(Json::Bool(b)) => Some(*b),
        Some(Json::Null) => None,
        _ => {
            return None;
        },
    };
    let unit: Unit = match lookup(ms, "unit") {
        Some(Json::Text(t)) => match Unit::from_name(t) {
            Some(u) => u,
            None => {
                return None;
            },
        },
        _ => {
            return None;
        },
    };
    let quantity: usize = match lookup(ms, "quantity") {
        Some(Json::Int(n)) => {
            if *n >= 0 && (*n as u64) <= (usize::MAX as u64) {
                *n as usize
            } else {
                return None;
            }
        },
        _ => {
            return None;
        },
    };
    let status: IngredientStatus = match lookup(ms, "status") {
        Some(st) => match json_to_status(st) {
            Some(st) => st,
            None => {
                return None;
            },
        },
        None => {
            return None;
        },
    };
    Some(Ingredient { id, name, probably_at_home, unit, quantity, status })
}

/// The textual serialized form of an ingredient.
pub fn serialize_ingredient(i: &Ingredient) -> (r: String)
    requires
        ingredient_encodable(i@),
    ensures
        r@ == crate::json::spec_render(spec_ingredient_json(i@)),
{
    let j = ingredient_to_json(i);
    crate::json::render_json(&j)
}

/// Reparses a serialized ingredient.
pub fn deserialize_ingredient(s: &str) -> (r: Option<Ingredient>)
    ensures
        match r {
            Some(ing) => {
                &&& crate::json::spec_parse_json(s@) is Some
                &&& spec_json_ingredient(crate::json::spec_parse_json(s@)->0) == Some(ing@)
            },
            None => crate::json::spec_parse_json(s@) is None || spec_json_ingredient(
                crate::json::spec_parse_json(s@)->0,
            ) is None,
        },
{
    match crate::json::parse_json(s) {
        Some(j) => json_to_ingredient(&j),
        None => None,
    }
}


/// One ingredient record as the extraction prompt demands it:
/// `{name, unit, quantity, probably_at_home}`.
#[derive(Debug, Clone, PartialEq, Eq)]
pub struct Extracted {
    pub name: String,
    pub unit: Unit,
    pub quantity: usize,
    pub probably_at_home: Option<bool>,
}

/// Mathematical model of an [`Extracted`] record.
pub struct ExtractedV {
    pub name: Seq<char>,
    pub unit: Unit,
    pub quantity: int,
    pub probably_at_home: Option<bool>,
}

impl View for Extracted {
    type V = ExtractedV;

    open spec fn view(&self) -> ExtractedV {
        ExtractedV {
            name: self.name@,
            unit: self.unit,
            quantity: self.quantity as int,
            probably_at_home: self.probably_at_home,
        }
    }
}

/// The record denoted by a tree. A missing or null
/// `probably_at_home` counts as no hint; unit and quantity are
/// mandatory and must lie in the closed unit set and the machine
/// range.
pub open spec fn spec_extracted_one(v: JsonV) -> Option<ExtractedV> {
    match v {
        JsonV::Obj(ms) => {
            let name = as_text(spec_lookup(ms, "name"@));
            let unit = match as_text(spec_lookup(ms, "unit"@)) {
                Some(u) => spec_unit_of(u),
                None => None,
            };
            let quantity = match spec_lookup(ms, "quantity"@) {
                Some(JsonV::Int(n)) => if 0 <= n <= usize::MAX {
                    Some(n)
                } else {
                    None
                },
                _ => None,
            };
            let pah = match spec_lookup(ms, "probably_at_home"@) {
                Some(JsonV::Bool(b)) => Some(Some(b)),
                Some(JsonV::Null) => Some(None),
                None => Some(None),
                _ => None,
            };
            if name is Some && unit is Some && quantity is Some && pah is Some {
                Some(
                    ExtractedV {
                        name: name->0,
                        unit: unit->0,
                        quantity: quantity->0,
                        probably_at_home: pah->0,
                    },
                )
            } else {
                None
            }
        },
        _ => None,
    }
}

pub open spec fn spec_extracted_list(elems: Seq<JsonV>) -> Option<Seq<ExtractedV>>
    decreases elems.len(),
{
    if elems.len() == 0 {
        Some(Seq::empty())
    } else {
        match (spec_extracted_one(elems[0]), spec_extracted_list(elems.drop_first())) {
            (Some(e), Some(rest)) => Some(seq![e] + rest),
            _ => None,
        }
    }
}

/// The record list denoted by an extraction response: a JSON array
/// of records.
pub open spec fn spec_extraction_response(v: JsonV) -> Option<Seq<ExtractedV>> {
    match v {
        JsonV::Arr(elems) => spec_extracted_list(elems),
        _ => None,
    }
}

/// The view of an extracted record list.
pub open spec fn extracted_view(s: Seq<Extracted>) -> Seq<ExtractedV> {
    s.map_values(|e: Extracted| e@)
}

fn json_to_extracted(v: &Json) -> (r: Option<Extracted>)
    ensures
        match r {
            Some(e) => spec_extracted_one(json_view(*v)) == Some(e@),
            None => spec_extracted_one(json_view(*v)) is None,
        },
{
    let ms = match v {
        Json::Obj(ms) => ms,
        _ => {
            return None;
        },
    };
    let name: String = match lookup(ms, "name") {
        Some(Json::Text(t)) => t.clone(),
        _ => {
            return None;
        },
    };
    let unit: Unit = match lookup(ms, "unit") {
        Some(Json::Text(t)) => match Unit::from_name(t) {
            Some(u) => u,
            None => {
                return None;
            },
        },
        _ => {
            return None;
        },
    };
    let quantity: usize = match lookup(ms, "quantity") {
        Some(Json::Int(n)) => {
            if *n >= 0 && (*n as u64) <= (usize::MAX as u64) {
                *n as usize
            } else {
                return None;
            }
        },
        _ => {
            return None;
        },
    };
    let probably_at_home: Option<bool> = match lookup(ms, "probably_at_home") {
        Some(Json::Bool(b)) => Some(*b),
        Some(Json::Null) => None,
        None => None,
        _ => {
            return None;
        },
    };
    Some(Extracted { name, unit, quantity, probably_at_home })
}

/// The records denoted by the trees from position `k` on.
pub fn json_to_extracted_list(elems: &Vec<Json>, k: usize) -> (r: Option<Vec<Extracted>>)
    requires
        k <= elems@.len(),
    ensures
        match r {
            Some(es) => spec_extracted_list(
                jsons_view(elems@).subrange(k as int, elems@.len() as int),
            ) == Some(extracted_view(es@)),
            None => spec_extracted_list(
                jsons_view(elems@).subrange(k as int, elems@.len() as int),
            ) is None,
        },
    decreases elems@.len() - k,
{
    let ghost tail = jsons_view(elems@).subrange(k as int, elems@.len() as int);
    proof {
        crate::json::lemma_jsons_view(elems@);
    }
    if k >= elems.len() {
        proof {
            assert(tail.len() == 0);
            assert(extracted_view(Seq::<Extracted>::empty()) =~= Seq::<ExtractedV>::empty());
        }
        return Some(Vec::new());
    }
    proof {
        assert(tail[0] == jsons_view(elems@)[k as int]);
        assert(jsons_view(elems@)[k as int] == json_view(elems@[k as int]));
    }
    let first = match json_to_extracted(&elems[k]) {
        Some(e) => e,
        None => {
            return None;
        },
    };
    let rest = match json_to_extracted_list(elems, k + 1) {
        Some(r) => r,
        None => {
            proof {
                assert(tail.drop_first() =~= jsons_view(elems@).subrange(
                    k + 1,
                    elems@.len() as int,
                ));
            }
            return None;
        },
    };
    let ghost restv = rest@;
    let mut out = rest;
    out.insert(0, first);
    proof {
        assert(tail.drop_first() =~= jsons_view(elems@).subrange(k + 1, elems@.len() as int));
        assert(out@ =~= seq![first] + restv);
        assert(extracted_view(out@) =~= seq![first@] + extracted_view(restv)) by {
            assert forall|t: int| 0 <= t < out@.len() implies extracted_view(out@)[t] == (seq![
                first@,
            ] + extracted_view(restv))[t] by {
                if t > 0 {
                    assert(out@[t] == restv[t - 1]);
                }
            }
        }
    }
    Some(out)
}

/// The selection the model answers with: a zero-based candidate
/// index, or null for a refusal, and a purchase count.
#[derive(Debug, Clone, PartialEq, Eq)]
pub struct IngredientItemMatch {
    pub item_index: Option<usize>,
    pub pieces_required: usize,
}

/// Mathematical model of an [`IngredientItemMatch`].
pub struct ItemMatchV {
    pub item_index: Option<int>,
    pub pieces_required: int,
}

impl View for IngredientItemMatch {
    type V = ItemMatchV;

    open spec fn view(&self) -> ItemMatchV {
        ItemMatchV {
            item_index: match self.item_index {
                Some(i) => Some(i as int),
                None => None,
            },
            pieces_required: self.pieces_required as int,
        }
    }
}

/// The selection denoted by a tree: `{item_index, pieces_required}`
/// with a null or missing index standing for a refusal.
pub open spec fn spec_match_response(v: JsonV) -> Option<ItemMatchV> {
    match v {
        JsonV::Obj(ms) => {
            let idx = match spec_lookup(ms, "item_index"@) {
                Some(JsonV::Int(n)) => if 0 <= n <= usize::MAX {
                    Some(Some(n))
                } else {
                    None
                },
                Some(JsonV::Null) => Some(None),
                None => Some(None),
                _ => None,
            };
            let pieces = match spec_lookup(ms, "pieces_required"@) {
                Some(JsonV::Int(n)) => if 0 <= n <= usize::MAX {
                    Some(n)
                } else {
                    None
                },
                _ => None,
            };
            if idx is Some && pieces is Some {
                Some(ItemMatchV { item_index: idx->0, pieces_required: pieces->0 })
            } else {
                None
            }
        },
        _ => None,
    }
}

/// The selection denoted by a tree, as [`spec_match_response`]
/// describes.
pub fn json_to_item_match(v: &Json) -> (r: Option<IngredientItemMatch>)
    ensures
        match r {
            Some(m) => spec_match_response(json_view(*v)) == Some(m@),
            None => spec_match_response(json_view(*v)) is None,
        },
{
    let ms = match v {
        Json::Obj(ms) => ms,
        _ => {
            return None;
        },
    };
    let item_index: Option<usize> = match lookup(ms, "item_index") {
        Some(Json::Int(n)) => {
            if *n >= 0 && (*n as u64) <= (usize::MAX as u64) {
                Some(*n as usize)
            } else {
                return None;
            }
        },
        Some(Json::Null) => None,
        None => None,
        _ => {
            return None;
        },
    };
    let pieces_required: usize = match lookup(ms, "pieces_required") {
        Some(Json::Int(n)) => {
            if *n >= 0 && (*n as u64) <= (usize::MAX as u64) {
                *n as usize
            } else {
                return None;
            }
        },
        _ => {
            return None;
        },
    };
    Some(IngredientItemMatch { item_index, pieces_required })
}

} // verus!
