//! The model client: one chat completion round, metered and gated.
//!
//! The HTTP round itself lives outside the library. What is verified
//! here is everything around it: input validation, the budget gate,
//! the prompt texts, the cost settlement, and the reading of the two
//! machine-parseable answers the prompts demand.

use vstd::prelude::*;
use vstd::string::StringExecFns;

use crate::codec::{spec_extraction_response, spec_match_response, IngredientItemMatch};
use crate::cost::{spec_tokens, AiUsage, MAX_BILLABLE_CHARS};
use crate::error::Error;
use crate::guard::AiCostLimit;
use crate::ids::is_id_string;
use crate::ingredient::{
    spec_canonical_name, spec_clamp_pieces, spec_status_candidates, Ingredient, IngredientStatus,
    StatusV,
};
use crate::json::spec_parse_json;
use crate::ledger::{cost_of_flow, deployment_daily_flow, user_daily_flow, Ledger};
use crate::text::{from_chars, spec_trimmed, to_chars, trim_chars};
use crate::unit::spec_unit_name;

verus! {

/// The model client's static configuration: the hard ceiling on the
/// character length of one prompt.
#[derive(Debug, Clone, PartialEq, Eq)]
pub struct Ai {
    max_chars: usize,
}

impl Ai {
    pub closed spec fn spec_max_chars(self) -> int {
        self.max_chars as int
    }

    pub fn new() -> (r: Self)
        ensures
            r.spec_max_chars() == 16_000,
    {
        Self { max_chars: 16_000 }
    }
}

impl Default for Ai {
    fn default() -> (r: Self)
        ensures
            r.spec_max_chars() == 16_000,
    {
        Ai::new()
    }
}

/// The system message framing the agent as a grocery-domain
/// assistant.
pub open spec fn spec_system_prompt() -> Seq<char> {
    "Du bist in eine Rezept-Webanwendung integriert. Benutzer geben Rezepte ein, und du extrahierst die Zutaten. Anschließend ruft die App eine API eines Lebensmittelgeschäfts auf und versucht, passende Zutaten zu finden. Du hilfst dabei, die beste Übereinstimmung für die Zutaten zu finden. Du kennst dich sehr gut mit Lebensmitteln aus und kannst die besten Artikel für die Zutaten auswählen."@
}

pub fn system_prompt() -> (r: String)
    ensures
        r@ == spec_system_prompt(),
{
    String::from_str(
        "Du bist in eine Rezept-Webanwendung integriert. Benutzer geben Rezepte ein, und du extrahierst die Zutaten. Anschließend ruft die App eine API eines Lebensmittelgeschäfts auf und versucht, passende Zutaten zu finden. Du hilfst dabei, die beste Übereinstimmung für die Zutaten zu finden. Du kennst dich sehr gut mit Lebensmitteln aus und kannst die besten Artikel für die Zutaten auswählen.",
    )
}

/// The extraction prompt's fixed part: the contract that makes the
/// answer machine-parseable.
pub open spec fn spec_extraction_preamble() -> Seq<char> {
    "Extrahiere alle Zutaten aus dem Rezept. Übersetze die Zutaten ins Deutsche, wenn nötig.\n\"name\" wird verwendet, um einen Artikel in einer API für Lebensmittelgeschäfte zu suchen. Wenn z. B. im Rezept „gewürfelte Zwiebeln“ steht, sollte der Zutatenname „Zwiebel“ sein. „name“ sollte korrekt großgeschrieben werden, z. B. „Zwiebel“. Wenn der Name der Zutat vage ist, z. B. „Curry“, verwende die angegebene Menge, um zu bestimmen, was gemeint ist. Falls dieselbe Zutat mehrfach erwähnt wird, dann liste sie nur einmal und addiere die Mengen.\nFür \"unit\" sind einzig und allein diese Werte zulässig: \"Gramm\", \"Kilogramm\", \"Milliliter\", \"Liter\", \"Stück\". \"quantity\" gibt die Menge der Zutat in der Einheit an. Nur ganze Zahlen sind zulässig. Rechne \"unit\" und \"quantity\" entsprechend um, falls die im Rezept angegebene Einheit nicht in der Liste der zulässigen Einheiten ist.\nWenn die Zutat sehr wahrscheinlich in einem normalen Haushalt vorhanden ist, setze \"probably_at_home\" auf „true“. Beispiele dafür sind Pfeffer, Salz, Zucker, Wasser, Eiswürfel usw.\nAntworte im folgenden Format, damit die Antwort geparst werden kann. Verzichte auf Backticks oder andere Formatierung.\n[\n    {\n        \"name\": \"Olivenöl\",\n        \"unit\": \"Milliliter\",\n        \"quantity\": 50,\n        \"probably_at_home\": true\n    },\n    ...\n]"@
}

/// The extraction prompt for one recipe text.
pub fn extraction_prompt(recipe: &str) -> (r: String)
    ensures
        r@ == spec_extraction_preamble() + "\n\nRezept: "@ + recipe@,
{
    let mut p = String::from_str(
        "Extrahiere alle Zutaten aus dem Rezept. Übersetze die Zutaten ins Deutsche, wenn nötig.\n\"name\" wird verwendet, um einen Artikel in einer API für Lebensmittelgeschäfte zu suchen. Wenn z. B. im Rezept „gewürfelte Zwiebeln“ steht, sollte der Zutatenname „Zwiebel“ sein. „name“ sollte korrekt großgeschrieben werden, z. B. „Zwiebel“. Wenn der Name der Zutat vage ist, z. B. „Curry“, verwende die angegebene Menge, um zu bestimmen, was gemeint ist. Falls dieselbe Zutat mehrfach erwähnt wird, dann liste sie nur einmal und addiere die Mengen.\nFür \"unit\" sind einzig und allein diese Werte zulässig: \"Gramm\", \"Kilogramm\", \"Milliliter\", \"Liter\", \"Stück\". \"quantity\" gibt die Menge der Zutat in der Einheit an. Nur ganze Zahlen sind zulässig. Rechne \"unit\" und \"quantity\" entsprechend um, falls die im Rezept angegebene Einheit nicht in der Liste der zulässigen Einheiten ist.\nWenn die Zutat sehr wahrscheinlich in einem normalen Haushalt vorhanden ist, setze \"probably_at_home\" auf „true“. Beispiele dafür sind Pfeffer, Salz, Zucker, Wasser, Eiswürfel usw.\nAntworte im folgenden Format, damit die Antwort geparst werden kann. Verzichte auf Backticks oder andere Formatierung.\n[\n    {\n        \"name\": \"Olivenöl\",\n        \"unit\": \"Milliliter\",\n        \"quantity\": 50,\n        \"probably_at_home\": true\n    },\n    ...\n]",
    );
    p.append("\n\nRezept: ");
    p.append(recipe);
    p
}

/// The selection prompt's fixed part.
pub open spec fn spec_selection_preamble() -> Seq<char> {
    "Ich gebe dir eine Zutat (Ingredient) für ein Rezept. Jede Zutat hat eine Liste von Artikelkandidaten. Diese Artikel stammen aus der API eines Supermarktes. Ich möchte, dass du den besten Artikel für die Zutat auswählst.\nitem_index ist der nullbasierte Index des Artikels in der Liste. pieces_required gibt an, wie oft der Artikel gekauft werden muss, um die Menge der Zutat zu decken.\nFalls es keine Übereinstimmung für die Zutat gibt, setze item_index auf null.\nAntworte im folgenden Format, damit die Antwort geparst werden kann. Verzichte auf Backticks oder andere Formatierung.\n{\n    \"item_index\": 0,\n    \"pieces_required\": 1\n}"@
}

/// The selection prompt for one ingredient: its name, the required
/// quantity and unit, and the candidate list rendered as JSON.
pub fn selection_prompt(
    name: &String,
    quantity: usize,
    unit: crate::unit::Unit,
    items: &Vec<crate::item::Item>,
) -> (r: String)
    requires
        crate::codec::items_encodable(crate::ingredient::items_view(items@)),
        quantity <= 0xffff_ffff_ffff_ffff,
    ensures
        r@ == spec_selection_preamble() + "\n\nZutat: "@ + name@
            + "\n\nBenötigte Menge der Zutat: "@ + crate::text::spec_dec(quantity as int) + " "@
            + spec_unit_name(unit) + "\n\nArtikel aus dem Supermarkt: "@
            + crate::json::spec_render(
            crate::json::JsonV::Arr(
                crate::codec::spec_items_json(crate::ingredient::items_view(items@)),
            ),
        ),
{
    let mut p = String::from_str(
        "Ich gebe dir eine Zutat (Ingredient) für ein Rezept. Jede Zutat hat eine Liste von Artikelkandidaten. Diese Artikel stammen aus der API eines Supermarktes. Ich möchte, dass du den besten Artikel für die Zutat auswählst.\nitem_index ist der nullbasierte Index des Artikels in der Liste. pieces_required gibt an, wie oft der Artikel gekauft werden muss, um die Menge der Zutat zu decken.\nFalls es keine Übereinstimmung für die Zutat gibt, setze item_index auf null.\nAntworte im folgenden Format, damit die Antwort geparst werden kann. Verzichte auf Backticks oder andere Formatierung.\n{\n    \"item_index\": 0,\n    \"pieces_required\": 1\n}",
    );
    p.append("\n\nZutat: ");
    p.append(name.as_str());
    p.append("\n\nBenötigte Menge der Zutat: ");
    let mut digits: Vec<char> = Vec::new();
    crate::text::push_dec(quantity as u128, &mut digits);
    let q = from_chars(&digits);
    p.append(q.as_str());
    p.append(" ");
    let u = unit.name();
    p.append(u.as_str());
    p.append("\n\nArtikel aus dem Supermarkt: ");
    let arr = crate::json::Json::Arr(crate::codec::items_to_json(items));
    let rendered = crate::json::render_json(&arr);
    p.append(rendered.as_str());
    p
}

impl Ai {
    /// Trims the message and applies the two admission rules: an
    /// empty message is a bad request, a message beyond the ceiling
    /// is an oversized payload; anything else is forwarded trimmed.
    pub fn validate_message(&self, message: &str) -> (r: Result<String, Error>)
        ensures
            match r {
                Ok(m) => {
                    &&& m@ == spec_trimmed(message@)
                    &&& m@.len() > 0
                    &&& m@.len() <= self.spec_max_chars()
                },
                Err(e) => {
                    &&& ((e matches Error::BadRequest(msg) && msg@ == "empty message"@)
                        <==> spec_trimmed(message@).len() == 0)
                    &&& (e is BadRequest ==> spec_trimmed(message@).len() == 0)
                    &&& (e == Error::PayloadTooLarge <==> spec_trimmed(message@).len() > 0
                        && spec_trimmed(message@).len() > self.spec_max_chars())
                    &&& (e is BadRequest || e is PayloadTooLarge)
                },
            },
    {
        let cv = to_chars(message);
        let trimmed = trim_chars(&cv);
        if trimmed.len() == 0 {
            return Err(Error::BadRequest(String::from_str("empty message")));
        }
        if trimmed.len() > self.max_chars {
            return Err(Error::PayloadTooLarge);
        }
        Ok(from_chars(&trimmed))
    }

    /// The guarded admission of one prompt: validation first, then
    /// the budget gate against the ledger; the refusals surface
    /// unchanged.
    pub fn prepare_ask(
        &self,
        ledger: &Ledger,
        username: &String,
        message: &str,
        now: i64,
        limits: &AiCostLimit,
    ) -> (r: Result<String, Error>)
        requires
            now >= 0,
        ensures
            match r {
                Ok(m) => {
                    &&& m@ == spec_trimmed(message@)
                    &&& 0 < m@.len() <= self.spec_max_chars()
                    &&& cost_of_flow(deployment_daily_flow(ledger@, now as int))
                        <= limits.application_daily
                    &&& cost_of_flow(user_daily_flow(ledger@, username@, now as int))
                        <= limits.user_daily
                },
                Err(e) => {
                    ||| (e is BadRequest && spec_trimmed(message@).len() == 0)
                    ||| (e is PayloadTooLarge && spec_trimmed(message@).len()
                        > self.spec_max_chars())
                    ||| (e == Error::TooManyRequests && cost_of_flow(
                        deployment_daily_flow(ledger@, now as int),
                    ) > limits.application_daily)
                    ||| (e == Error::PaymentRequired && cost_of_flow(
                        user_daily_flow(ledger@, username@, now as int),
                    ) > limits.user_daily)
                },
            },
    {
        let m = match self.validate_message(message) {
            Ok(m) => m,
            Err(e) => {
                return Err(e);
            },
        };
        match ledger.check_limits(username, now, limits) {
            Ok(()) => Ok(m),
            Err(e) => Err(e),
        }
    }

    /// Settlement after the chat completion round: an absent reply is
    /// an internal error and charges nothing; a reply is billed as
    /// one input and one output usage against the user and handed
    /// back unchanged. The ledger write is infallible here, so the
    /// best-effort relaxation has nothing to swallow.
    pub fn settle_ask(
        &self,
        ledger: &mut Ledger,
        username: &String,
        input: &String,
        output: Option<String>,
        now: i64,
    ) -> (r: Result<String, Error>)
        requires
            input@.len() <= MAX_BILLABLE_CHARS,
            match output {
                Some(o) => o@.len() <= MAX_BILLABLE_CHARS,
                None => true,
            },
        ensures
            match output {
                None => {
                    &&& r == Result::<String, Error>::Err(Error::InternalServer)
                    &&& *final(ledger) == *old(ledger)
                },
                Some(o) => {
                    &&& r == Result::<String, Error>::Ok(o)
                    &&& final(ledger)@.len() == old(ledger)@.len() + 2
                    &&& forall|j: int| 0 <= j < old(ledger)@.len() ==> final(ledger)@[j] == old(
                        ledger,
                    )@[j]
                    &&& final(ledger)@[old(ledger)@.len() as int] == crate::ledger::spec_entry_for(
                        AiUsage::InputToken(spec_tokens(input@.len()) as usize),
                        username@,
                        now as int,
                    )
                    &&& final(ledger)@[old(ledger)@.len() as int + 1] == crate::ledger::spec_entry_for(
                        AiUsage::OutputToken(spec_tokens(o@.len()) as usize),
                        username@,
                        now as int,
                    )
                },
            },
    {
        let out = match output {
            Some(o) => o,
            None => {
                return Err(Error::InternalServer);
            },
        };
        let in_len = input.as_str().unicode_len();
        let out_len = out.as_str().unicode_len();
        let mut usages: Vec<AiUsage> = Vec::new();
        usages.push(AiUsage::input_token(in_len));
        usages.push(AiUsage::output_token(out_len));
        proof {
            vstd::arithmetic::div_mod::lemma_div_is_ordered(
                5 * (in_len as int) + 17,
                5 * 100_000_000int + 17,
                18,
            );
            vstd::arithmetic::div_mod::lemma_div_is_ordered(
                5 * (out_len as int) + 17,
                5 * 100_000_000int + 17,
                18,
            );
            assert(usages@.len() == 2);
            assert(usages@[0] == AiUsage::InputToken(spec_tokens(input@.len()) as usize));
            assert(usages@[1] == AiUsage::OutputToken(spec_tokens(out@.len()) as usize));
            assert(usages@[0].token_count() <= MAX_BILLABLE_CHARS);
            assert(usages@[1].token_count() <= MAX_BILLABLE_CHARS);
            assert forall|i: int| 0 <= i < usages@.len() implies #[trigger] usages@[
                i
            ].token_count() <= MAX_BILLABLE_CHARS by {
                if i == 0 {
                } else {
                    assert(i == 1);
                }
            }
        }
        ledger.attribute_ai_costs(username, &usages, now);
        Ok(out)
    }
}

/// Reads an extraction answer: a JSON array of records. Each record
/// becomes a fresh *Unchecked* ingredient whose name has passed the
/// canonicalization table; an unreadable answer is the fixed
/// extraction failure.
pub fn parse_ingredients_response(response: &str) -> (r: Result<Vec<Ingredient>, Error>)
    ensures
        ({
            let records = match spec_parse_json(response@) {
                Some(v) => spec_extraction_response(v),
                None => None,
            };
            match r {
                Ok(ings) => {
                    &&& records is Some
                    &&& ings@.len() == records->0.len()
                    &&& forall|k: int|
                        0 <= k < ings@.len() ==> {
                            let ing = (#[trigger] ings@[k])@;
                            let rec = records->0[k];
                            &&& ing.name == spec_canonical_name(rec.name)
                            &&& ing.unit == rec.unit
                            &&& ing.quantity == rec.quantity
                            &&& ing.probably_at_home == rec.probably_at_home
                            &&& ing.status is Unchecked
                            &&& is_id_string(ing.id)
                        }
                },
                Err(e) => {
                    &&& records is None
                    &&& e matches Error::BadRequest(msg)
                    &&& (e matches Error::BadRequest(msg) ==> msg@
                        == "Die AI konnte die Zutaten nicht extrahieren."@)
                },
            }
        }),
{
    let root = match crate::json::parse_json(response) {
        Some(j) => j,
        None => {
            return Err(
                Error::BadRequest(String::from_str("Die AI konnte die Zutaten nicht extrahieren.")),
            );
        },
    };
    let elems = match &root {
        crate::json::Json::Arr(elems) => elems,
        _ => {
            return Err(
                Error::BadRequest(String::from_str("Die AI konnte die Zutaten nicht extrahieren.")),
            );
        },
    };
    let records = match crate::codec::json_to_extracted_list(elems, 0) {
        Some(rs) => {
            proof {
                crate::json::lemma_jsons_view(elems@);
                assert(crate::json::jsons_view(elems@).subrange(0, elems@.len() as int)
                    =~= crate::json::jsons_view(elems@));
            }
            rs
        },
        None => {
            proof {
                crate::json::lemma_jsons_view(elems@);
                assert(crate::json::jsons_view(elems@).subrange(0, elems@.len() as int)
                    =~= crate::json::jsons_view(elems@));
            }
            return Err(
                Error::BadRequest(String::from_str("Die AI konnte die Zutaten nicht extrahieren.")),
            );
        },
    };
    let mut out: Vec<Ingredient> = Vec::new();
    let mut k: usize = 0;
    while k < records.len()
        invariant
            k <= records@.len(),
            out@.len() == k,
            forall|t: int|
                0 <= t < k ==> {
                    let ing = (#[trigger] out@[t])@;
                    let rec = records@[t]@;
                    &&& ing.name == spec_canonical_name(rec.name)
                    &&& ing.unit == rec.unit
                    &&& ing.quantity == rec.quantity
                    &&& ing.probably_at_home == rec.probably_at_home
                    &&& ing.status is Unchecked
                    &&& is_id_string(ing.id)
                },
        decreases records@.len() - k,
    {
        let rec = &records[k];
        let mut ing = Ingredient {
            id: crate::ids::new_id(),
            name: rec.name.clone(),
            probably_at_home: rec.probably_at_home,
            unit: rec.unit,
            quantity: rec.quantity,
            status: IngredientStatus::Unchecked,
        };
        ing.enrich();
        out.push(ing);
        k = k + 1;
    }
    proof {
        assert(crate::codec::extracted_view(records@).len() == records@.len());
        assert forall|k2: int| 0 <= k2 < records@.len() implies crate::codec::extracted_view(
            records@,
        )[k2] == (#[trigger] records@[k2])@ by {}
    }
    Ok(out)
}

/// Reads a selection answer: `{item_index, pieces_required}`. An
/// unreadable answer is the fixed selection failure.
pub fn parse_match_response(response: &str) -> (r: Result<IngredientItemMatch, Error>)
    ensures
        ({
            let parsed = match spec_parse_json(response@) {
                Some(v) => spec_match_response(v),
                None => None,
            };
            match r {
                Ok(m) => parsed == Some(m@),
                Err(e) => {
                    &&& parsed is None
                    &&& e matches Error::BadRequest(msg)
                    &&& (e matches Error::BadRequest(msg) ==> msg@
                        == "Die AI konnte keinen Artikel für die Zutat auswählen."@)
                },
            }
        }),
{
    let root = match crate::json::parse_json(response) {
        Some(j) => j,
        None => {
            return Err(
                Error::BadRequest(
                    String::from_str("Die AI konnte keinen Artikel für die Zutat auswählen."),
                ),
            );
        },
    };
    match crate::codec::json_to_item_match(&root) {
        Some(m) => Ok(m),
        None => Err(
            Error::BadRequest(
                String::from_str("Die AI konnte keinen Artikel für die Zutat auswählen."),
            ),
        ),
    }
}

/// Applies a parsed selection to an ingredient holding search
/// results: a null or out-of-range index, or a zero piece count,
/// leaves the terminal refusal state; a valid index matches the
/// ingredient to the chosen candidate with the piece count clamped
/// into `[1, 99]` and the candidate list preserved.
pub fn apply_match_decision(ingredient: &mut Ingredient, m: &IngredientItemMatch) -> (r: Result<
    (),
    Error,
>)
    requires
        old(ingredient)@.status is SearchResults,
    ensures
        ({
            let items = spec_status_candidates(old(ingredient)@.status)->0;
            match m.item_index {
                Some(idx) => {
                    if idx < items.len() && m.pieces_required >= 1 {
                        &&& r is Ok
                        &&& final(ingredient)@ == old(ingredient)@.with_status(
                            StatusV::Matched {
                                item: items[idx as int],
                                pieces: spec_clamp_pieces(m.pieces_required as int),
                                alternatives: items,
                            },
                        )
                    } else {
                        &&& r == Result::<(), Error>::Err(Error::NotFound)
                        &&& final(ingredient)@ == old(ingredient)@.with_status(
                            StatusV::AiFailsToSelectItem { alternatives: items },
                        )
                    }
                },
                None => {
                    &&& r == Result::<(), Error>::Err(Error::NotFound)
                    &&& final(ingredient)@ == old(ingredient)@.with_status(
                        StatusV::AiFailsToSelectItem { alternatives: items },
                    )
                },
            }
        }),
        final(ingredient)@.wf(),
{
    let items: Vec<crate::item::Item> = match &ingredient.status {
        IngredientStatus::SearchResults { items } => crate::item::duplicate_items(items),
        _ => {
            proof {
                assert(false);
            }
            Vec::new()
        },
    };
    let idx = match m.item_index {
        Some(idx) => idx,
        None => {
            ingredient.status = IngredientStatus::AiFailsToSelectItem { alternatives: items };
            return Err(Error::NotFound);
        },
    };
    if idx >= items.len() || m.pieces_required < 1 {
        ingredient.status = IngredientStatus::AiFailsToSelectItem { alternatives: items };
        return Err(Error::NotFound);
    }
    let chosen = items[idx].duplicate();
    let pieces: usize = if m.pieces_required > 99 {
        99
    } else {
        m.pieces_required
    };
    proof {
        let itemsv = crate::ingredient::items_view(items@);
        assert(itemsv.contains(itemsv[idx as int]));
    }
    ingredient.status = IngredientStatus::Matched { item: chosen, pieces, alternatives: items };
    Ok(())
}


/// The pipeline's gate before the selection call: only an ingredient
/// holding a non-empty candidate list goes to the model; anything
/// else is returned as-is with a not-found error.
pub fn selection_precheck(ingredient: &Ingredient) -> (r: Result<(), Error>)
    ensures
        match spec_status_candidates(ingredient@.status) {
            Some(items) => if ingredient@.status is SearchResults && items.len() > 0 {
                r is Ok
            } else {
                r == Result::<(), Error>::Err(Error::NotFound)
            },
            None => r == Result::<(), Error>::Err(Error::NotFound),
        },
{
    match &ingredient.status {
        IngredientStatus::SearchResults { items } => {
            if items.len() > 0 {
                Ok(())
            } else {
                Err(Error::NotFound)
            }
        },
        _ => Err(Error::NotFound),
    }
}

} // verus!
