use vstd::prelude::*;

verus! {

/// A catalog entry. Items are immutable values: a user's inventory and
/// equipment hold copies of catalog entries.
#[derive(Debug)]
pub struct Item {
    pub id: i32,
    pub name: String,
    pub description: String,
    pub category: String,
    pub image: String,
    pub price: i32,
    pub rarity: i32,
}

impl Item {
    pub fn new(
        id: i32,
        name: String,
        description: String,
        category: String,
        image: String,
        price: i32,
        rarity: i32,
    ) -> (r: Item)
        ensures
            r == (Item { id, name, description, category, image, price, rarity }),
    {
        Item { id, name, description, category, image, price, rarity }
    }

    /// A field-for-field copy of this item.
    pub fn duplicate(&self) -> (r: Item)
        ensures
            r == *self,
    {
        Item {
            id: self.id,
            name: self.name.clone(),
            description: self.description.clone(),
            category: self.category.clone(),
            image: self.image.clone(),
            price: self.price,
            rarity: self.rarity,
        }
    }

    /// Whether this item and `other` hold the same value in every field.
    pub fn same_as(&self, other: &Item) -> (r: bool)
        ensures
            r == crate::user::same_item(*self, *other),
    {
        self.id == other.id && self.name == other.name && self.description == other.description
            && self.category == other.category && self.image == other.image && self.price
            == other.price && self.rarity == other.rarity
    }

    /// Whether this item and `other` occupy the same equip slot.
    pub fn same_category(&self, other: &Item) -> (r: bool)
        ensures
            r == (self.category@ == other.category@),
    {
        self.category == other.category
    }
}

} // verus!
