//! A retailer SKU as returned by vendor search.

use vstd::prelude::*;

use crate::text::{from_chars, push_dec, push_dec2, spec_dec, spec_dec2};

verus! {

#[derive(Debug, Clone, PartialEq, Eq, Default)]
pub struct Item {
    pub id: String,
    pub name: String,
    pub quantity: Option<String>,
    pub price_cent: Option<usize>,
    pub url: Option<String>,
    pub image_url: Option<String>,
}

/// Mathematical model of an [`Item`].
pub struct ItemV {
    pub id: Seq<char>,
    pub name: Seq<char>,
    pub quantity: Option<Seq<char>>,
    pub price_cent: Option<int>,
    pub url: Option<Seq<char>>,
    pub image_url: Option<Seq<char>>,
}

impl View for Item {
    type V = ItemV;

    open spec fn view(&self) -> ItemV {
        ItemV {
            id: self.id@,
            name: self.name@,
            quantity: match self.quantity {
                Some(q) => Some(q@),
                None => None,
            },
            price_cent: match self.price_cent {
                Some(p) => Some(p as int),
                None => None,
            },
            url: match self.url {
                Some(u) => Some(u@),
                None => None,
            },
            image_url: match self.image_url {
                Some(u) => Some(u@),
                None => None,
            },
        }
    }
}

/// Total price in cents of `pieces` copies of an item; an item without
/// a price counts as zero.
pub open spec fn spec_price_total_cent(it: ItemV, pieces: int) -> int {
    match it.price_cent {
        Some(p) => p * pieces,
        None => 0,
    }
}

/// An amount of cents rendered as a decimal dollar/euro figure with
/// exactly two fraction digits.
pub open spec fn spec_money(cent: int) -> Seq<char> {
    spec_dec(cent / 100) + seq!['.'] + spec_dec2(cent % 100)
}

impl Item {
    pub fn id(&self) -> (r: String)
        ensures
            r@ == self@.id,
    {
        self.id.clone()
    }

    pub fn name(&self) -> (r: String)
        ensures
            r@ == self@.name,
    {
        self.name.clone()
    }

    /// The retailer's grammage display string, `"?"` when absent.
    pub fn quantity(&self) -> (r: String)
        ensures
            match self@.quantity {
                Some(q) => r@ == q,
                None => r@ == "?"@,
            },
    {
        match &self.quantity {
            Some(q) => q.clone(),
            None => {
                let mut r = String::new();
                r.push('?');
                proof {
                    reveal_strlit("?");
                    assert(r@ =~= "?"@);
                }
                r
            },
        }
    }

    pub fn url(&self) -> (r: Option<String>)
        ensures
            match self@.url {
                Some(u) => r is Some && r->0@ == u,
                None => r is None,
            },
    {
        match &self.url {
            Some(u) => Some(u.clone()),
            None => None,
        }
    }

    pub fn image_url(&self) -> (r: Option<String>)
        ensures
            match self@.image_url {
                Some(u) => r is Some && r->0@ == u,
                None => r is None,
            },
    {
        match &self.image_url {
            Some(u) => Some(u.clone()),
            None => None,
        }
    }

    /// An exact copy; unlike `clone`, its effect is visible to
    /// callers' proofs.
    pub fn duplicate(&self) -> (r: Item)
        ensures
            r == *self,
    {
        Item {
            id: self.id.clone(),
            name: self.name.clone(),
            quantity: match &self.quantity {
                Some(q) => Some(q.clone()),
                None => None,
            },
            price_cent: self.price_cent,
            url: match &self.url {
                Some(u) => Some(u.clone()),
                None => None,
            },
            image_url: match &self.image_url {
                Some(u) => Some(u.clone()),
                None => None,
            },
        }
    }

    /// Price in cents of buying this item `pieces` times.
    pub fn price_total_cent(&self, pieces: usize) -> (r: u128)
        ensures
            r == spec_price_total_cent(self@, pieces as int),
    {
        match self.price_cent {
            Some(p) => {
                proof {
                    assert((p as int) * (pieces as int) <= 0xffff_ffff_ffff_ffff
                        * 0xffff_ffff_ffff_ffff) by (nonlinear_arith)
                        requires
                            0 <= p <= 0xffff_ffff_ffff_ffff,
                            0 <= pieces <= 0xffff_ffff_ffff_ffff,
                    ;
                }
                let r = (p as u128) * (pieces as u128);
                r
            },
            None => 0,
        }
    }

    /// The total price rendered with two fraction digits, e.g. `"3.98"`.
    pub fn price_total_string(&self, pieces: usize) -> (r: String)
        ensures
            r@ == spec_money(spec_price_total_cent(self@, pieces as int)),
    {
        let cent = self.price_total_cent(pieces);
        let mut out: Vec<char> = Vec::new();
        push_dec(cent / 100, &mut out);
        out.push('.');
        push_dec2(cent % 100, &mut out);
        proof {
            assert(out@ =~= spec_money(spec_price_total_cent(self@, pieces as int)));
        }
        from_chars(&out)
    }
}

/// An exact copy of a list of items.
pub fn duplicate_items(v: &Vec<Item>) -> (r: Vec<Item>)
    ensures
        r@ == v@,
{
    let mut r: Vec<Item> = Vec::new();
    let mut i: usize = 0;
    while i < v.len()
        invariant
            i <= v@.len(),
            r@ == v@.subrange(0, i as int),
        decreases v@.len() - i,
    {
        r.push(v[i].duplicate());
        i = i + 1;
        proof {
            assert(r@ =~= v@.subrange(0, i as int));
        }
    }
    proof {
        assert(r@ =~= v@);
    }
    r
}

} // verus!
