//! A submitted recipe together with its extracted ingredients.

use vstd::prelude::*;

use crate::ingredient::Ingredient;

verus! {

#[derive(Debug, Clone, PartialEq, Eq)]
pub struct ShoppingList {
    recipe: String,
    ingredients: Vec<Ingredient>,
}

impl ShoppingList {
    pub closed spec fn spec_recipe(self) -> Seq<char> {
        self.recipe@
    }

    pub closed spec fn spec_ingredients(self) -> Seq<Ingredient> {
        self.ingredients@
    }

    /// A fresh list for a recipe text, with no ingredients yet.
    pub fn new(recipe: String) -> (r: ShoppingList)
        ensures
            r.spec_recipe() == recipe@,
            r.spec_ingredients().len() == 0,
    {
        ShoppingList { recipe, ingredients: Vec::new() }
    }

    pub fn recipe(&self) -> (r: String)
        ensures
            r@ == self.spec_recipe(),
    {
        self.recipe.clone()
    }

    pub fn ingredients(&self) -> (r: &Vec<Ingredient>)
        ensures
            r@ == self.spec_ingredients(),
    {
        &self.ingredients
    }

    /// Replaces the extracted ingredient list.
    pub fn set_ingredients(&mut self, ingredients: Vec<Ingredient>)
        ensures
            final(self).spec_recipe() == old(self).spec_recipe(),
            final(self).spec_ingredients() == ingredients@,
    {
        self.ingredients = ingredients;
    }
}

} // verus!
