use vstd::prelude::*;

verus! {

/// The broad class of a stockable good.
#[derive(Clone, Copy, Debug, PartialEq, Eq, Hash, Structural)]
pub enum ItemType {
    Currency,
    Food,
    Weapon,
    Armor,
    Misc,
}

/// A stockable good. Two items with the same name are the same good.
#[derive(Debug)]
pub struct Item {
    pub name: String,
    pub item_type: ItemType,
    pub description: String,
    /// What one unit trades for: a currency item's name and an amount of it.
    pub value: (String, i32),
}

/// An `Item` as plain mathematical values.
pub struct ItemView {
    pub name: Seq<char>,
    pub item_type: ItemType,
    pub description: Seq<char>,
    pub value: (Seq<char>, int),
}

impl View for Item {
    type V = ItemView;

    open spec fn view(&self) -> ItemView {
        ItemView {
            name: self.name@,
            item_type: self.item_type,
            description: self.description@,
            value: (self.value.0@, self.value.1 as int),
        }
    }
}

impl Item {
    pub fn new(name: String, item_type: ItemType, description: String, value: (String, i32)) -> (item:
        Item)
        ensures
            item@ == (ItemView {
                name: name@,
                item_type,
                description: description@,
                value: (value.0@, value.1 as int),
            }),
    {
        Item { name, item_type, description, value }
    }
}

impl Clone for Item {
    fn clone(&self) -> (copy: Item)
        ensures
            copy == *self,
    {
        Item {
            name: self.name.clone(),
            item_type: self.item_type,
            description: self.description.clone(),
            value: (self.value.0.clone(), self.value.1),
        }
    }
}

/// Whether some item of `items` is named `name`.
pub open spec fn known_in(items: Seq<Item>, name: Seq<char>) -> bool {
    exists|i: int| 0 <= i < items.len() && #[trigger] items[i].name@ == name
}

/// The goods known to the world, looked up by exact name.
pub struct Catalog {
    pub items: Vec<Item>,
}

impl Catalog {
    pub fn new(items: Vec<Item>) -> (catalog: Catalog)
        ensures
            catalog.items@ == items@,
    {
        Catalog { items }
    }

    /// Whether some item of the catalog is named `name`.
    pub open spec fn knows(&self, name: Seq<char>) -> bool {
        known_in(self.items@, name)
    }

    /// The first item named exactly `name` (case-sensitive), if the catalog has one.
    pub fn find(&self, name: &String) -> (found: Option<&Item>)
        ensures
            found is Some <==> self.knows(name@),
            found matches Some(item) ==> item.name@ == name@ && exists|i: int|
                0 <= i < self.items@.len() && self.items@[i] == *item && forall|j: int|
                    0 <= j < i ==> self.items@[j].name@ != name@,
    {
        let mut i: usize = 0;
        while i < self.items.len()
            invariant
                i <= self.items.len(),
                forall|j: int| 0 <= j < i ==> self.items@[j].name@ != name@,
            decreases self.items.len() - i,
        {
            if self.items[i].name == *name {
                return Some(&self.items[i]);
            }
            i += 1;
        }
        None
    }
}

} // verus!
