//! The vendor adapter: translating an ingredient name into a ranked
//! list of candidate products via the retailer's public product
//! search.
//!
//! The HTTP round-trip itself lives outside the library; this module
//! fixes the query that is sent and gives the reply's JSON shape an
//! exact meaning, down to the ingredient status transition.

use vstd::prelude::*;
use vstd::string::StringExecFns;

use crate::codec::{lookup, spec_lookup, as_text};
use crate::ids::{is_id_string, new_id};
use crate::ingredient::{Ingredient, IngredientStatus, IngredientV, StatusV, items_view};
use crate::item::{Item, ItemV};
use crate::json::{json_view, jsons_view, Json, JsonV};

verus! {

#[derive(Debug, Clone, Copy, PartialEq, Eq, Structural)]
pub struct ReweConfig {
    pub zip_code: usize,
}

/// The set of supported retailers.
#[derive(Debug, Clone, Copy, PartialEq, Eq, Structural)]
pub enum Vendor {
    Rewe { config: ReweConfig },
}

impl Vendor {
    /// Stable short identifier, used on persisted `seeks` edges and
    /// item records.
    pub fn name(&self) -> (r: String)
        ensures
            r@ == "rewe"@,
    {
        String::from_str("rewe")
    }

    /// The search request for one ingredient name: the endpoint and
    /// its query parameters — a fixed page size of 16, page one,
    /// relevance-descending order, pickup service, a fixed market and
    /// autocorrect on.
    pub fn search_query(&self, ingredient_name: &String) -> (r: (String, Vec<(String, String)>))
        ensures
            r.0@ == "https://shop.rewe.de/api/products"@,
            r.1@.len() == 8,
            r.1@[0].0@ == "objectsPerPage"@ && r.1@[0].1@ == "16"@,
            r.1@[1].0@ == "page"@ && r.1@[1].1@ == "1"@,
            r.1@[2].0@ == "search"@ && r.1@[2].1@ == ingredient_name@,
            r.1@[3].0@ == "sorting"@ && r.1@[3].1@ == "RELEVANCE_DESC"@,
            r.1@[4].0@ == "serviceTypes"@ && r.1@[4].1@ == "PICKUP"@,
            r.1@[5].0@ == "market"@ && r.1@[5].1@ == "540528"@,
            r.1@[6].0@ == "debug"@ && r.1@[6].1@ == "false"@,
            r.1@[7].0@ == "autocorrect"@ && r.1@[7].1@ == "true"@,
    {
        let mut q: Vec<(String, String)> = Vec::new();
        q.push((String::from_str("objectsPerPage"), String::from_str("16")));
        q.push((String::from_str("page"), String::from_str("1")));
        q.push((String::from_str("search"), ingredient_name.clone()));
        q.push((String::from_str("sorting"), String::from_str("RELEVANCE_DESC")));
        q.push((String::from_str("serviceTypes"), String::from_str("PICKUP")));
        q.push((String::from_str("market"), String::from_str("540528")));
        q.push((String::from_str("debug"), String::from_str("false")));
        q.push((String::from_str("autocorrect"), String::from_str("true")));
        (String::from_str("https://shop.rewe.de/api/products"), q)
    }
}

/// A product as the retailer's reply carries it, reduced to what the
/// pipeline reads.
pub struct ProductV {
    pub id: Seq<char>,
    pub name: Seq<char>,
    pub image: Option<Seq<char>>,
    pub pricing: Option<(int, Seq<char>)>,
}

/// The character contents of a list of strings.
pub open spec fn strings_view(s: Seq<String>) -> Seq<Seq<char>> {
    s.map_values(|h: String| h@)
}

/// The models of a list of price/grammage pairs.
pub open spec fn pricings_view(s: Seq<(usize, String)>) -> Seq<(int, Seq<char>)> {
    s.map_values(|p: (usize, String)| (p.0 as int, p.1@))
}

/// The image address inside `{"_links":{"self":{"href": …}}}`.
pub open spec fn spec_image_href(v: JsonV) -> Option<Seq<char>> {
    match v {
        JsonV::Obj(ms) => match spec_lookup(ms, "_links"@) {
            Some(JsonV::Obj(ms2)) => match spec_lookup(ms2, "self"@) {
                Some(JsonV::Obj(ms3)) => as_text(spec_lookup(ms3, "href"@)),
                _ => None,
            },
            _ => None,
        },
        _ => None,
    }
}

pub open spec fn spec_images(elems: Seq<JsonV>) -> Option<Seq<Seq<char>>>
    decreases elems.len(),
{
    if elems.len() == 0 {
        Some(Seq::empty())
    } else {
        match (spec_image_href(elems[0]), spec_images(elems.drop_first())) {
            (Some(h), Some(rest)) => Some(seq![h] + rest),
            _ => None,
        }
    }
}

/// The price and grammage inside a pricing object; the price is a
/// cent amount within the machine range.
pub open spec fn spec_pricing(v: JsonV) -> Option<(int, Seq<char>)> {
    match v {
        JsonV::Obj(ms) => {
            let price = match spec_lookup(ms, "currentRetailPrice"@) {
                Some(JsonV::Int(n)) => if 0 <= n <= usize::MAX {
                    Some(n)
                } else {
                    None
                },
                _ => None,
            };
            let grammage = as_text(spec_lookup(ms, "grammage"@));
            if price is Some && grammage is Some {
                Some((price->0, grammage->0))
            } else {
                None
            }
        },
        _ => None,
    }
}

/// The pricing inside `{"_embedded":{"listing":{"pricing": …}}}`.
pub open spec fn spec_article_pricing(v: JsonV) -> Option<(int, Seq<char>)> {
    match v {
        JsonV::Obj(ms) => match spec_lookup(ms, "_embedded"@) {
            Some(JsonV::Obj(ms2)) => match spec_lookup(ms2, "listing"@) {
                Some(JsonV::Obj(ms3)) => match spec_lookup(ms3, "pricing"@) {
                    Some(p) => spec_pricing(p),
                    None => None,
                },
                _ => None,
            },
            _ => None,
        },
        _ => None,
    }
}

pub open spec fn spec_articles(elems: Seq<JsonV>) -> Option<Seq<(int, Seq<char>)>>
    decreases elems.len(),
{
    if elems.len() == 0 {
        Some(Seq::empty())
    } else {
        match (spec_article_pricing(elems[0]), spec_articles(elems.drop_first())) {
            (Some(p), Some(rest)) => Some(seq![p] + rest),
            _ => None,
        }
    }
}

/// One product record: identifier, display name, its images and its
/// articles; the first image and the first article's pricing are what
/// the pipeline keeps.
pub open spec fn spec_product(v: JsonV) -> Option<ProductV> {
    match v {
        JsonV::Obj(ms) => {
            let id = as_text(spec_lookup(ms, "id"@));
            let name = as_text(spec_lookup(ms, "productName"@));
            let imgs = match spec_lookup(ms, "media"@) {
                Some(JsonV::Obj(ms2)) => match spec_lookup(ms2, "images"@) {
                    Some(JsonV::Arr(elems)) => spec_images(elems),
                    _ => None,
                },
                _ => None,
            };
            let arts = match spec_lookup(ms, "_embedded"@) {
                Some(JsonV::Obj(ms2)) => match spec_lookup(ms2, "articles"@) {
                    Some(JsonV::Arr(elems)) => spec_articles(elems),
                    _ => None,
                },
                _ => None,
            };
            if id is Some && name is Some && imgs is Some && arts is Some {
                Some(
                    ProductV {
                        id: id->0,
                        name: name->0,
                        image: if imgs->0.len() > 0 {
                            Some(imgs->0[0])
                        } else {
                            None
                        },
                        pricing: if arts->0.len() > 0 {
                            Some(arts->0[0])
                        } else {
                            None
                        },
                    },
                )
            } else {
                None
            }
        },
        _ => None,
    }
}

pub open spec fn spec_products(elems: Seq<JsonV>) -> Option<Seq<ProductV>>
    decreases elems.len(),
{
    if elems.len() == 0 {
        Some(Seq::empty())
    } else {
        match (spec_product(elems[0]), spec_products(elems.drop_first())) {
            (Some(p), Some(rest)) => Some(seq![p] + rest),
            _ => None,
        }
    }
}

/// The product list inside `{"_embedded":{"products":[…]}}`.
pub open spec fn spec_search_response(v: JsonV) -> Option<Seq<ProductV>> {
    match v {
        JsonV::Obj(ms) => match spec_lookup(ms, "_embedded"@) {
            Some(JsonV::Obj(ms2)) => match spec_lookup(ms2, "products"@) {
                Some(JsonV::Arr(elems)) => spec_products(elems),
                _ => None,
            },
            _ => None,
        },
        _ => None,
    }
}

/// The products denoted by a reply body, if it parses and has the
/// documented shape.
pub open spec fn spec_search_products(body: Seq<char>) -> Option<Seq<ProductV>> {
    match crate::json::spec_parse_json(body) {
        Some(v) => spec_search_response(v),
        None => None,
    }
}

/// How a candidate item stands for a product: a fresh opaque
/// identifier, the product's name, the pricing's grammage and cent
/// price when present, the templated detail address, and the first
/// image if any.
pub open spec fn item_matches_product(it: ItemV, p: ProductV) -> bool {
    &&& is_id_string(it.id)
    &&& it.name == p.name
    &&& it.quantity == (match p.pricing {
        Some(pr) => Some(pr.1),
        None => None::<Seq<char>>,
    })
    &&& it.price_cent == (match p.pricing {
        Some(pr) => Some(pr.0),
        None => None::<int>,
    })
    &&& it.url == Some("https://www.rewe.de/produkte/"@ + p.id)
    &&& it.image_url == p.image
}

fn json_image_href(v: &Json) -> (r: Option<String>)
    ensures
        match r {
            Some(h) => spec_image_href(json_view(*v)) == Some(h@),
            None => spec_image_href(json_view(*v)) is None,
        },
{
    let ms = match v {
        Json::Obj(ms) => ms,
        _ => {
            return None;
        },
    };
    let ms2 = match lookup(ms, "_links") {
        Some(Json::Obj(ms2)) => ms2,
        _ => {
            return None;
        },
    };
    let ms3 = match lookup(ms2, "self") {
        Some(Json::Obj(ms3)) => ms3,
        _ => {
            return None;
        },
    };
    match lookup(ms3, "href") {
        Some(Json::Text(t)) => Some(t.clone()),
        _ => None,
    }
}

fn json_images(elems: &Vec<Json>, k: usize) -> (r: Option<Vec<String>>)
    requires
        k <= elems@.len(),
    ensures
        match r {
            Some(hs) => spec_images(jsons_view(elems@).subrange(k as int, elems@.len() as int))
                == Some(strings_view(hs@)),
            None => spec_images(
                jsons_view(elems@).subrange(k as int, elems@.len() as int),
            ) is None,
        },
    decreases elems@.len() - k,
{
    let ghost tail = jsons_view(elems@).subrange(k as int, elems@.len() as int);
    proof {
        crate::json::lemma_jsons_view(elems@);
    }
    if k >= elems.len() {
        let r: Vec<String> = Vec::new();
        proof {
            assert(tail.len() == 0);
            assert(strings_view(r@) =~= Seq::<Seq<char>>::empty());
        }
        return Some(r);
    }
    proof {
        assert(tail[0] == json_view(elems@[k as int]));
    }
    let first = match json_image_href(&elems[k]) {
        Some(h) => h,
        None => {
            return None;
        },
    };
    let rest = match json_images(elems, k + 1) {
        Some(r) => r,
        None => {
            proof {
                assert(tail.drop_first() =~= jsons_view(elems@).subrange(
                    k + 1,
                    elems@.len() as int,
                ));
            }
            return None;
        },
    };
    let ghost restv = rest@;
    let mut out = rest;
    out.insert(0, first);
    proof {
        assert(tail.drop_first() =~= jsons_view(elems@).subrange(k + 1, elems@.len() as int));
        assert(out@ =~= seq![first] + restv);
        assert(strings_view(out@) =~= seq![first@] + strings_view(restv)) by {
            assert forall|t: int| 0 <= t < out@.len() implies strings_view(out@)[t] == (seq![
                first@,
            ] + strings_view(restv))[t] by {
                if t > 0 {
                    assert(out@[t] == restv[t - 1]);
                }
            }
        }
    }
    Some(out)
}

fn json_pricing(v: &Json) -> (r: Option<(usize, String)>)
    ensures
        match r {
            Some(p) => spec_pricing(json_view(*v)) == Some((p.0 as int, p.1@)),
            None => spec_pricing(json_view(*v)) is None,
        },
{
    let ms = match v {
        Json::Obj(ms) => ms,
        _ => {
            return None;
        },
    };
    let price: usize = match lookup(ms, "currentRetailPrice") {
        Some(Json::Int(n)) => {
            if *n >= 0 && (*n as u64) <= (usize::MAX as u64) {
                *n as usize
            } else {
                return None;
            }
        },
        _ => {
            return None;
        },
    };
    let grammage: String = match lookup(ms, "grammage") {
        Some(Json::Text(t)) => t.clone(),
        _ => {
            return None;
        },
    };
    Some((price, grammage))
}

fn json_article_pricing(v: &Json) -> (r: Option<(usize, String)>)
    ensures
        match r {
            Some(p) => spec_article_pricing(json_view(*v)) == Some((p.0 as int, p.1@)),
            None => spec_article_pricing(json_view(*v)) is None,
        },
{
    let ms = match v {
        Json::Obj(ms) => ms,
        _ => {
            return None;
        },
    };
    let ms2 = match lookup(ms, "_embedded") {
        Some(Json::Obj(ms2)) => ms2,
        _ => {
            return None;
        },
    };
    let ms3 = match lookup(ms2, "listing") {
        Some(Json::Obj(ms3)) => ms3,
        _ => {
            return None;
        },
    };
    match lookup(ms3, "pricing") {
        Some(p) => json_pricing(p),
        None => None,
    }
}

fn json_articles(elems: &Vec<Json>, k: usize) -> (r: Option<Vec<(usize, String)>>)
    requires
        k <= elems@.len(),
    ensures
        match r {
            Some(ps) => spec_articles(jsons_view(elems@).subrange(k as int, elems@.len() as int))
                == Some(pricings_view(ps@)),
            None => spec_articles(
                jsons_view(elems@).subrange(k as int, elems@.len() as int),
            ) is None,
        },
    decreases elems@.len() - k,
{
    let ghost tail = jsons_view(elems@).subrange(k as int, elems@.len() as int);
    proof {
        crate::json::lemma_jsons_view(elems@);
    }
    if k >= elems.len() {
        let r: Vec<(usize, String)> = Vec::new();
        proof {
            assert(tail.len() == 0);
            assert(pricings_view(r@) =~= Seq::<(int, Seq<char>)>::empty());
        }
        return Some(r);
    }
    proof {
        assert(tail[0] == json_view(elems@[k as int]));
    }
    let first = match json_article_pricing(&elems[k]) {
        Some(p) => p,
        None => {
            return None;
        },
    };
    let rest = match json_articles(elems, k + 1) {
        Some(r) => r,
        None => {
            proof {
                assert(tail.drop_first() =~= jsons_view(elems@).subrange(
                    k + 1,
                    elems@.len() as int,
                ));
            }
            return None;
        },
    };
    let ghost restv = rest@;
    let mut out = rest;
    out.insert(0, first);
    proof {
        assert(tail.drop_first() =~= jsons_view(elems@).subrange(k + 1, elems@.len() as int));
        assert(out@ =~= seq![first] + restv);
        assert(pricings_view(out@) =~= seq![(first.0 as int, first.1@)] + pricings_view(
            restv,
        )) by {
            assert forall|t: int| 0 <= t < out@.len() implies pricings_view(out@)[t] == (seq![
                (first.0 as int, first.1@),
            ] + pricings_view(restv))[t] by {
                if t > 0 {
                    assert(out@[t] == restv[t - 1]);
                }
            }
        }
    }
    Some(out)
}

/// The candidate item standing for one product record; the candidate
/// identifier is freshly generated.
fn json_product_item(v: &Json) -> (r: Option<Item>)
    ensures
        match r {
            Some(it) => spec_product(json_view(*v)) is Some && item_matches_product(
                it@,
                spec_product(json_view(*v))->0,
            ),
            None => spec_product(json_view(*v)) is None,
        },
{
    let ms = match v {
        Json::Obj(ms) => ms,
        _ => {
            return None;
        },
    };
    let pid: String = match lookup(ms, "id") {
        Some(Json::Text(t)) => t.clone(),
        _ => {
            return None;
        },
    };
    let name: String = match lookup(ms, "productName") {
        Some(Json::Text(t)) => t.clone(),
        _ => {
            return None;
        },
    };
    let images: Vec<String> = match lookup(ms, "media") {
        Some(Json::Obj(ms2)) => match lookup(ms2, "images") {
            Some(Json::Arr(elems)) => match json_images(elems, 0) {
                Some(hs) => {
                    proof {
                        assert(jsons_view(elems@).subrange(0, elems@.len() as int) =~= jsons_view(
                            elems@,
                        )) by {
                            crate::json::lemma_jsons_view(elems@);
                        }
                    }
                    hs
                },
                None => {
                    proof {
                        assert(jsons_view(elems@).subrange(0, elems@.len() as int) =~= jsons_view(
                            elems@,
                        )) by {
                            crate::json::lemma_jsons_view(elems@);
                        }
                    }
                    return None;
                },
            },
            _ => {
                return None;
            },
        },
        _ => {
            return None;
        },
    };
    let articles: Vec<(usize, String)> = match lookup(ms, "_embedded") {
        Some(Json::Obj(ms2)) => match lookup(ms2, "articles") {
            Some(Json::Arr(elems)) => match json_articles(elems, 0) {
                Some(ps) => {
                    proof {
                        assert(jsons_view(elems@).subrange(0, elems@.len() as int) =~= jsons_view(
                            elems@,
                        )) by {
                            crate::json::lemma_jsons_view(elems@);
                        }
                    }
                    ps
                },
                None => {
                    proof {
                        assert(jsons_view(elems@).subrange(0, elems@.len() as int) =~= jsons_view(
                            elems@,
                        )) by {
                            crate::json::lemma_jsons_view(elems@);
                        }
                    }
                    return None;
                },
            },
            _ => {
                return None;
            },
        },
        _ => {
            return None;
        },
    };
    let (price_cent, quantity): (Option<usize>, Option<String>) = if articles.len() > 0 {
        let a = &articles[0];
        (Some(a.0), Some(a.1.clone()))
    } else {
        (None, None)
    };
    let image_url: Option<String> = if images.len() > 0 {
        Some(images[0].clone())
    } else {
        None
    };
    let url = String::from_str("https://www.rewe.de/produkte/").concat(pid.as_str());
    Some(
        Item {
            id: new_id(),
            name,
            quantity,
            price_cent,
            url: Some(url),
            image_url,
        },
    )
}

/// The candidate items standing for the products from `k` on.
fn json_product_items(elems: &Vec<Json>, k: usize) -> (r: Option<Vec<Item>>)
    requires
        k <= elems@.len(),
    ensures
        match r {
            Some(its) => {
                let ps = spec_products(jsons_view(elems@).subrange(k as int, elems@.len() as int));
                &&& ps is Some
                &&& its@.len() == ps->0.len()
                &&& forall|t: int| 0 <= t < its@.len() ==> item_matches_product(
                    (#[trigger] its@[t])@,
                    ps->0[t],
                )
            },
            None => spec_products(
                jsons_view(elems@).subrange(k as int, elems@.len() as int),
            ) is None,
        },
    decreases elems@.len() - k,
{
    let ghost tail = jsons_view(elems@).subrange(k as int, elems@.len() as int);
    proof {
        crate::json::lemma_jsons_view(elems@);
    }
    if k >= elems.len() {
        proof {
            assert(tail.len() == 0);
        }
        return Some(Vec::new());
    }
    proof {
        assert(tail[0] == json_view(elems@[k as int]));
    }
    let first = match json_product_item(&elems[k]) {
        Some(it) => it,
        None => {
            return None;
        },
    };
    let rest = match json_product_items(elems, k + 1) {
        Some(r) => r,
        None => {
            proof {
                assert(tail.drop_first() =~= jsons_view(elems@).subrange(
                    k + 1,
                    elems@.len() as int,
                ));
            }
            return None;
        },
    };
    let ghost restv = rest@;
    let mut out = rest;
    out.insert(0, first);
    proof {
        assert(tail.drop_first() =~= jsons_view(elems@).subrange(k + 1, elems@.len() as int));
        assert(out@ =~= seq![first] + restv);
        let ps = spec_products(tail);
        assert forall|t: int| 0 <= t < out@.len() implies item_matches_product(
            (#[trigger] out@[t])@,
            ps->0[t],
        ) by {
            if t > 0 {
                assert(out@[t] == restv[t - 1]);
            }
        }
    }
    Some(out)
}

/// The candidate items denoted by a reply body, or nothing when the
/// body does not parse or lacks the documented shape.
pub fn parse_product_search(body: &str) -> (r: Option<Vec<Item>>)
    ensures
        match r {
            Some(its) => {
                let ps = spec_search_products(body@);
                &&& ps is Some
                &&& its@.len() == ps->0.len()
                &&& forall|t: int| 0 <= t < its@.len() ==> item_matches_product(
                    (#[trigger] its@[t])@,
                    ps->0[t],
                )
            },
            None => spec_search_products(body@) is None,
        },
{
    let root = match crate::json::parse_json(body) {
        Some(j) => j,
        None => {
            return None;
        },
    };
    let ms = match &root {
        Json::Obj(ms) => ms,
        _ => {
            return None;
        },
    };
    let ms2 = match lookup(ms, "_embedded") {
        Some(Json::Obj(ms2)) => ms2,
        _ => {
            return None;
        },
    };
    let elems = match lookup(ms2, "products") {
        Some(Json::Arr(elems)) => elems,
        _ => {
            return None;
        },
    };
    match json_product_items(elems, 0) {
        Some(its) => {
            proof {
                assert(jsons_view(elems@).subrange(0, elems@.len() as int) =~= jsons_view(
                    elems@,
                )) by {
                    crate::json::lemma_jsons_view(elems@);
                }
            }
            Some(its)
        },
        None => {
            proof {
                assert(jsons_view(elems@).subrange(0, elems@.len() as int) =~= jsons_view(
                    elems@,
                )) by {
                    crate::json::lemma_jsons_view(elems@);
                }
            }
            None
        },
    }
}

impl Vendor {
    /// Digests one search reply into the ingredient's status: an
    /// unreadable reply marks the search failed, an empty product
    /// list yields *NoSearchResults*, and any other reply yields
    /// *SearchResults* with one candidate per product.
    pub fn apply_search_response(&self, ingredient: &mut Ingredient, body: &str) -> (r: Result<
        (),
        String,
    >)
        ensures
            match spec_search_products(body@) {
                Some(ps) => {
                    &&& r is Ok
                    &&& if ps.len() == 0 {
                        final(ingredient)@ == old(ingredient)@.with_status(
                            StatusV::NoSearchResults,
                        )
                    } else {
                        &&& final(ingredient)@.status is SearchResults
                        &&& final(ingredient)@ == old(ingredient)@.with_status(
                            final(ingredient)@.status,
                        )
                        &&& {
                            let items =
                                crate::ingredient::spec_status_candidates(
                                final(ingredient)@.status,
                            )->0;
                            &&& items.len() == ps.len()
                            &&& forall|t: int| 0 <= t < items.len() ==> item_matches_product(
                                #[trigger] items[t],
                                ps[t],
                            )
                        }
                    }
                },
                None => {
                    &&& r is Err
                    &&& r->Err_0@ == "Die Antwort von Rewe konnte nicht verarbeitet werden."@
                    &&& final(ingredient)@ == old(ingredient)@.with_status(
                        StatusV::ApiSearchFailed {
                            error: "Die Antwort von Rewe konnte nicht verarbeitet werden."@,
                        },
                    )
                },
            },
            final(ingredient)@.wf() || !old(ingredient)@.wf(),
    {
        match parse_product_search(body) {
            Some(items) => {
                if items.len() == 0 {
                    ingredient.status = IngredientStatus::NoSearchResults;
                } else {
                    proof {
                        crate::json::lemma_jsons_view(Seq::<Json>::empty());
                    }
                    ingredient.status = IngredientStatus::SearchResults { items };
                }
                Ok(())
            },
            None => {
                let msg = String::from_str("Die Antwort von Rewe konnte nicht verarbeitet werden.");
                ingredient.status = IngredientStatus::ApiSearchFailed { error: msg.clone() };
                Err(msg)
            },
        }
    }

    /// Marks the search failed after a transport error; the reply
    /// never arrived, so there is nothing to digest.
    pub fn apply_transport_failure(&self, ingredient: &mut Ingredient) -> (r: String)
        ensures
            r@ == "Die Anfrage an Rewe ist fehlgeschlagen"@,
            final(ingredient)@ == old(ingredient)@.with_status(
                StatusV::ApiSearchFailed {
                    error: "Die Anfrage an Rewe ist fehlgeschlagen"@,
                },
            ),
            final(ingredient)@.wf(),
    {
        let msg = String::from_str("Die Anfrage an Rewe ist fehlgeschlagen");
        ingredient.status = IngredientStatus::ApiSearchFailed { error: msg.clone() };
        msg
    }
}

} // verus!
