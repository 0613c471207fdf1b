//! The central entity of the pipeline: an ingredient and its
//! resolution lifecycle.
//!
//! The status is a discriminated union driving the state machine
//!
//! ```text
//! Unchecked --find-items--> SearchResults --select--> Matched
//!     |                          |
//!     |                          +--select(null/out-of-range)--> AiFailsToSelectItem
//!     |                          +--(empty list)--> NoSearchResults
//!     +--(transport/parse fail)--> ApiSearchFailed(reason)
//! ```
//!
//! A well-formed *Matched* ingredient always keeps its chosen item
//! inside the preserved candidate list and its piece count in `[1, 99]`.

use vstd::prelude::*;
use vstd::string::StringExecFns;

use crate::item::{duplicate_items, Item, ItemV};
use crate::text::string_is;
use crate::unit::Unit;

verus! {

#[derive(Debug, Clone, PartialEq, Eq)]
pub enum IngredientStatus {
    Unchecked,
    ApiSearchFailed { error: String },
    NoSearchResults,
    SearchResults { items: Vec<Item> },
    AiFailsToSelectItem { alternatives: Vec<Item> },
    Matched { item: Item, pieces: usize, alternatives: Vec<Item> },
}

/// Mathematical model of an [`IngredientStatus`].
pub enum StatusV {
    Unchecked,
    ApiSearchFailed { error: Seq<char> },
    NoSearchResults,
    SearchResults { items: Seq<ItemV> },
    AiFailsToSelectItem { alternatives: Seq<ItemV> },
    Matched { item: ItemV, pieces: int, alternatives: Seq<ItemV> },
}

/// The models of a list of items.
pub open spec fn items_view(s: Seq<Item>) -> Seq<ItemV> {
    s.map_values(|x: Item| x@)
}

impl View for IngredientStatus {
    type V = StatusV;

    open spec fn view(&self) -> StatusV {
        match self {
            IngredientStatus::Unchecked => StatusV::Unchecked,
            IngredientStatus::ApiSearchFailed { error } => StatusV::ApiSearchFailed {
                error: error@,
            },
            IngredientStatus::NoSearchResults => StatusV::NoSearchResults,
            IngredientStatus::SearchResults { items } => StatusV::SearchResults {
                items: items_view(items@),
            },
            IngredientStatus::AiFailsToSelectItem { alternatives } => StatusV::AiFailsToSelectItem {
                alternatives: items_view(alternatives@),
            },
            IngredientStatus::Matched { item, pieces, alternatives } => StatusV::Matched {
                item: item@,
                pieces: *pieces as int,
                alternatives: items_view(alternatives@),
            },
        }
    }
}

/// Invariant of a status: a matched ingredient's chosen item sits in
/// its candidate list and its piece count lies in `[1, 99]`.
pub open spec fn status_wf(s: StatusV) -> bool {
    match s {
        StatusV::Matched { item, pieces, alternatives } => {
            &&& 1 <= pieces <= 99
            &&& alternatives.contains(item)
        },
        _ => true,
    }
}

#[derive(Debug, Clone, PartialEq, Eq)]
pub struct Ingredient {
    pub id: String,
    pub name: String,
    pub probably_at_home: Option<bool>,
    pub unit: Unit,
    pub quantity: usize,
    pub status: IngredientStatus,
}

/// Mathematical model of an [`Ingredient`].
pub struct IngredientV {
    pub id: Seq<char>,
    pub name: Seq<char>,
    pub probably_at_home: Option<bool>,
    pub unit: Unit,
    pub quantity: int,
    pub status: StatusV,
}

impl View for Ingredient {
    type V = IngredientV;

    open spec fn view(&self) -> IngredientV {
        IngredientV {
            id: self.id@,
            name: self.name@,
            probably_at_home: self.probably_at_home,
            unit: self.unit,
            quantity: self.quantity as int,
            status: self.status@,
        }
    }
}

impl IngredientV {
    /// Well-formedness of an ingredient.
    pub open spec fn wf(self) -> bool {
        status_wf(self.status)
    }

    /// The same ingredient with another status.
    pub open spec fn with_status(self, status: StatusV) -> IngredientV {
        IngredientV { status, ..self }
    }
}

/// A piece count forced into the allowed range `[1, 99]`.
pub open spec fn spec_clamp_pieces(p: int) -> int {
    if p < 1 {
        1
    } else if p > 99 {
        99
    } else {
        p
    }
}

/// First position in `s` holding an item with identifier `id`.
pub open spec fn spec_find_item(s: Seq<ItemV>, id: Seq<char>) -> Option<int>
    decreases s.len(),
{
    if s.len() == 0 {
        None
    } else if s[0].id == id {
        Some(0)
    } else {
        match spec_find_item(s.drop_first(), id) {
            Some(i) => Some(i + 1),
            None => None,
        }
    }
}

/// The candidate list a status carries, if any.
pub open spec fn spec_status_candidates(s: StatusV) -> Option<Seq<ItemV>> {
    match s {
        StatusV::SearchResults { items } => Some(items),
        StatusV::AiFailsToSelectItem { alternatives } => Some(alternatives),
        StatusV::Matched { alternatives, .. } => Some(alternatives),
        _ => None,
    }
}

/// A found index lies in range, hits `id`, and nothing before it does.
pub proof fn lemma_find_item_first(s: Seq<ItemV>, id: Seq<char>)
    ensures
        match spec_find_item(s, id) {
            Some(i) => {
                &&& 0 <= i < s.len()
                &&& s[i].id == id
                &&& forall|j: int| 0 <= j < i ==> s[j].id != id
            },
            None => forall|j: int| 0 <= j < s.len() ==> s[j].id != id,
        },
    decreases s.len(),
{
    if s.len() > 0 && s[0].id != id {
        let rest = s.drop_first();
        lemma_find_item_first(rest, id);
        assert(forall|j: int| 0 <= j < rest.len() ==> rest[j] == s[j + 1]);
        match spec_find_item(rest, id) {
            Some(i) => {
                assert(rest[i] == s[i + 1]);
                assert forall|j: int| 0 <= j < i + 1 implies s[j].id != id by {
                    if j > 0 {
                        assert(rest[j - 1].id != id);
                    }
                }
            },
            None => {
                assert forall|j: int| 0 <= j < s.len() implies s[j].id != id by {
                    if j > 0 {
                        assert(rest[j - 1].id != id);
                    }
                }
            },
        }
    }
}

/// First position in `items` holding an item with identifier `id`,
/// agreeing with [`spec_find_item`] on the item models.
pub fn find_item_index(items: &Vec<Item>, id: &String) -> (r: Option<usize>)
    ensures
        match r {
            Some(k) => spec_find_item(items_view(items@), id@) == Some(k as int),
            None => spec_find_item(items_view(items@), id@) is None,
        },
{
    let ghost itemsv = items_view(items@);
    let n = items.len();
    let mut k: usize = 0;
    while k < n
        invariant
            n == items@.len(),
            k <= n,
            itemsv == items_view(items@),
            forall|j: int| 0 <= j < k ==> itemsv[j].id != id@,
        decreases n - k,
    {
        if string_is(&items[k].id, id.as_str()) {
            proof {
                lemma_find_item_first(itemsv, id@);
                match spec_find_item(itemsv, id@) {
                    Some(i) => {
                        if i < k as int {
                            assert(itemsv[i].id != id@);
                        }
                        if i > k as int {
                            assert(itemsv[k as int].id != id@);
                        }
                    },
                    None => {
                        assert(itemsv[k as int].id != id@);
                    },
                }
            }
            return Some(k);
        }
        k = k + 1;
    }
    proof {
        lemma_find_item_first(itemsv, id@);
        if spec_find_item(itemsv, id@) is Some {
            let i = spec_find_item(itemsv, id@)->0;
            assert(itemsv[i].id != id@);
        }
    }
    None
}

impl Ingredient {
    pub fn status(&self) -> (r: &IngredientStatus)
        ensures
            r == &self.status,
    {
        &self.status
    }

    pub fn set_status(&mut self, status: IngredientStatus)
        ensures
            final(self)@ == old(self)@.with_status(status@),
    {
        self.status = status;
    }

    pub fn name(&self) -> (r: String)
        ensures
            r@ == self@.name,
    {
        self.name.clone()
    }

    pub fn probably_at_home(&self) -> (r: Option<bool>)
        ensures
            r == self@.probably_at_home,
    {
        self.probably_at_home
    }

    pub fn unit(&self) -> (r: Unit)
        ensures
            r == self@.unit,
    {
        self.unit
    }

    pub fn quantity(&self) -> (r: usize)
        ensures
            r as int == self@.quantity,
    {
        self.quantity
    }

    /// Total price in cents of the chosen item times its piece count;
    /// `None` while the ingredient is not matched.
    pub fn price_total_cent(&self) -> (r: Option<u128>)
        ensures
            match self@.status {
                StatusV::Matched { item, pieces, .. } => {
                    r is Some && r->0 as int == crate::item::spec_price_total_cent(item, pieces)
                },
                _ => r is None,
            },
    {
        match &self.status {
            IngredientStatus::Matched { item, pieces, .. } => {
                Some(item.price_total_cent(*pieces))
            },
            _ => None,
        }
    }

    /// The chosen item, while the ingredient is matched.
    pub fn item(&self) -> (r: Option<Item>)
        ensures
            match self@.status {
                StatusV::Matched { item, .. } => r is Some && r->0@ == item,
                _ => r is None,
            },
    {
        match &self.status {
            IngredientStatus::Matched { item, .. } => Some(item.duplicate()),
            _ => None,
        }
    }

    /// Adjusts the piece count of a matched ingredient. A value
    /// outside `[1, 99]` leaves the stored value unchanged, as does
    /// any status other than *Matched*.
    pub fn set_item_pieces(&mut self, p: usize)
        ensures
            match old(self)@.status {
                StatusV::Matched { item, pieces, alternatives } => {
                    if 1 <= p <= 99 {
                        final(self)@ == old(self)@.with_status(
                            StatusV::Matched { item, pieces: p as int, alternatives },
                        )
                    } else {
                        *final(self) == *old(self)
                    }
                },
                _ => *final(self) == *old(self),
            },
            old(self)@.wf() ==> final(self)@.wf(),
    {
        if p < 1 || p > 99 {
            return ;
        }
        if let IngredientStatus::Matched { pieces, .. } = &mut self.status {
            *pieces = p;
        }
    }

    /// Re-selection: picks the first candidate with identifier `id`
    /// out of the status's preserved candidate list and matches the
    /// ingredient to it; the piece count defaults to 1 and is clamped
    /// into `[1, 99]`. Without a candidate list, or without a
    /// candidate carrying `id`, nothing changes.
    pub fn select_item(&mut self, id: &String, pieces: Option<usize>)
        ensures
            match spec_status_candidates(old(self)@.status) {
                Some(items) => match spec_find_item(items, id@) {
                    Some(i) => final(self)@ == old(self)@.with_status(
                        StatusV::Matched {
                            item: items[i],
                            pieces: spec_clamp_pieces(match pieces {
                                Some(p) => p as int,
                                None => 1,
                            }),
                            alternatives: items,
                        },
                    ),
                    None => *final(self) == *old(self),
                },
                None => *final(self) == *old(self),
            },
            final(self)@.wf() || (*final(self) == *old(self) && !old(self)@.wf()),
    {
        let p0: usize = match pieces {
            Some(p) => p,
            None => 1,
        };
        let p: usize = if p0 < 1 {
            1
        } else if p0 > 99 {
            99
        } else {
            p0
        };
        let idx_opt: Option<usize> = match &self.status {
            IngredientStatus::SearchResults { items } => find_item_index(items, id),
            IngredientStatus::AiFailsToSelectItem { alternatives } => find_item_index(
                alternatives,
                id,
            ),
            IngredientStatus::Matched { alternatives, .. } => find_item_index(alternatives, id),
            _ => {
                return ;
            },
        };
        let idx: usize = match idx_opt {
            Some(k) => k,
            None => {
                return ;
            },
        };
        proof {
            lemma_find_item_first(spec_status_candidates(self@.status)->0, id@);
        }
        let (chosen, alts): (Item, Vec<Item>) = match &self.status {
            IngredientStatus::SearchResults { items } => (
                items[idx].duplicate(),
                duplicate_items(items),
            ),
            IngredientStatus::AiFailsToSelectItem { alternatives } => (
                alternatives[idx].duplicate(),
                duplicate_items(alternatives),
            ),
            IngredientStatus::Matched { alternatives, .. } => (
                alternatives[idx].duplicate(),
                duplicate_items(alternatives),
            ),
            _ => {
                proof {
                    assert(false);
                }
                return ;
            },
        };
        proof {
            let items = spec_status_candidates(self@.status)->0;
            lemma_find_item_first(items, id@);
            assert(items.contains(items[idx as int]));
        }
        self.status = IngredientStatus::Matched { item: chosen, pieces: p, alternatives: alts };
    }

    /// Canonicalizes the display name to a findable grocery search
    /// term.
    pub fn enrich(&mut self)
        ensures
            final(self)@ == (IngredientV {
                name: spec_canonical_name(old(self)@.name),
                ..old(self)@
            }),
    {
        if string_is(&self.name, "Mehl") {
            self.name = String::from_str("Weizenmehl");
        } else if string_is(&self.name, "Zucker") {
            self.name = String::from_str("Zucker");
        } else if string_is(&self.name, "Salz") {
            self.name = String::from_str("Speisesalz");
        } else if string_is(&self.name, "Ei") || string_is(&self.name, "Eigelb") || string_is(
            &self.name,
            "Eiweiß",
        ) {
            self.name = String::from_str("Eier");
        }
    }
}

/// The canonicalization table biasing vendor search toward findable
/// SKU names.
pub open spec fn spec_canonical_name(s: Seq<char>) -> Seq<char> {
    if s == "Mehl"@ {
        "Weizenmehl"@
    } else if s == "Zucker"@ {
        "Zucker"@
    } else if s == "Salz"@ {
        "Speisesalz"@
    } else if s == "Ei"@ || s == "Eigelb"@ || s == "Eiweiß"@ {
        "Eier"@
    } else {
        s
    }
}

/// Canonicalization is idempotent: applying the name map twice equals
/// applying it once.
pub proof fn lemma_canonical_idempotent(s: Seq<char>)
    ensures
        spec_canonical_name(spec_canonical_name(s)) == spec_canonical_name(s),
{
    reveal_strlit("Mehl");
    reveal_strlit("Weizenmehl");
    reveal_strlit("Zucker");
    reveal_strlit("Salz");
    reveal_strlit("Speisesalz");
    reveal_strlit("Ei");
    reveal_strlit("Eigelb");
    reveal_strlit("Eiweiß");
    reveal_strlit("Eier");
    assert("Weizenmehl"@.len() == 10);
    assert("Speisesalz"@.len() == 10);
    assert("Mehl"@.len() == 4);
    assert("Zucker"@.len() == 6);
    assert("Salz"@.len() == 4);
    assert("Ei"@.len() == 2);
    assert("Eigelb"@.len() == 6);
    assert("Eiweiß"@.len() == 6);
    assert("Eier"@.len() == 4);
    assert("Eier"@[0] == 'E' && "Mehl"@[0] == 'M' && "Salz"@[0] == 'S');
}

} // verus!
