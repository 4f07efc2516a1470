use vstd::prelude::*;
use crate::error::CoreError;
use crate::item::Item;
use crate::user::{
    User, UserModel, has_item, holds_copy, same_item, one_per_category, equipped_owned,
    MAX_COMMAND_HISTORY,
};

verus! {

/// Keeps the items whose category is not `c`.
pub open spec fn other_category(c: Seq<char>) -> spec_fn(Item) -> bool {
    |e: Item| e.category@ != c
}

/// Keeps the items whose id is not `id`.
pub open spec fn other_id(id: i32) -> spec_fn(Item) -> bool {
    |e: Item| e.id != id
}

/// `k` is the first position of `items` that holds an item with id `id`.
pub open spec fn first_with_id(items: Seq<Item>, id: i32, k: int) -> bool {
    &&& 0 <= k < items.len()
    &&& items[k].id == id
    &&& forall|j: int| 0 <= j < k ==> (#[trigger] items[j]).id != id
}

/// What stays equipped once a copy of item `id` leaves the inventory: any
/// equipped item with that id is unequipped.
pub open spec fn equipped_after_removal(equipped: Seq<Item>, id: i32) -> Seq<Item> {
    equipped.filter(other_id(id))
}

/// Some item of `items` is of category `c`.
pub open spec fn has_category(items: Seq<Item>, c: Seq<char>) -> bool {
    exists|j: int| 0 <= j < items.len() && (#[trigger] items[j]).category@ == c
}

/// Every item that a filter keeps is an item of the filtered sequence.
proof fn lemma_filter_from(s: Seq<Item>, pred: spec_fn(Item) -> bool)
    ensures
        forall|t: int|
            0 <= t < s.filter(pred).len() ==> exists|j: int|
                0 <= j < s.len() && s[j] == #[trigger] s.filter(pred)[t],
        forall|t: int| 0 <= t < s.filter(pred).len() ==> pred(#[trigger] s.filter(pred)[t]),
    decreases s.len(),
{
    reveal(Seq::filter);
    if s.len() > 0 {
        let d = s.drop_last();
        lemma_filter_from(d, pred);
        let f = s.filter(pred);
        assert forall|t: int| 0 <= t < f.len() implies exists|j: int|
            0 <= j < s.len() && s[j] == #[trigger] f[t] by {
            if t < d.filter(pred).len() {
                let j = choose|j: int| 0 <= j < d.len() && d[j] == d.filter(pred)[t];
                assert(s[j] == f[t]);
            } else {
                assert(s[s.len() - 1] == f[t]);
            }
        }
    }
}

/// A filter keeps the equipped items owned and their categories distinct.
proof fn lemma_filter_keeps_slots(inventory: Seq<Item>, s: Seq<Item>, pred: spec_fn(Item) -> bool)
    requires
        one_per_category(s),
        equipped_owned(inventory, s),
    ensures
        one_per_category(s.filter(pred)),
        equipped_owned(inventory, s.filter(pred)),
    decreases s.len(),
{
    reveal(Seq::filter);
    if s.len() > 0 {
        let d = s.drop_last();
        assert forall|i: int, j: int|
            0 <= i < d.len() && 0 <= j < d.len() && i != j implies (#[trigger] d[i]).category@
            != (#[trigger] d[j]).category@ by {
            assert(d[i] == s[i] && d[j] == s[j]);
        }
        assert forall|i: int| 0 <= i < d.len() implies holds_copy(inventory, #[trigger] d[i]) by {
            assert(d[i] == s[i]);
        }
        lemma_filter_keeps_slots(inventory, d, pred);
        lemma_filter_from(d, pred);
        let fd = d.filter(pred);
        let last = s[s.len() - 1];
        assert forall|t: int| 0 <= t < fd.len() implies (#[trigger] fd[t]).category@ != last.category@ by {
            let j = choose|j: int| 0 <= j < d.len() && d[j] == fd[t];
            assert(s[j] == d[j]);
        }
        assert(holds_copy(inventory, s[s.len() - 1]));
    }
}

/// Filtering out the items of category `c` drops exactly one item when one
/// has that category, and none otherwise.
proof fn lemma_filter_category_len(s: Seq<Item>, c: Seq<char>)
    requires
        one_per_category(s),
    ensures
        s.filter(other_category(c)).len() == if has_category(s, c) {
            s.len() - 1
        } else {
            s.len() as int
        },
    decreases s.len(),
{
    reveal(Seq::filter);
    if s.len() > 0 {
        let d = s.drop_last();
        assert forall|i: int, j: int|
            0 <= i < d.len() && 0 <= j < d.len() && i != j implies (#[trigger] d[i]).category@
            != (#[trigger] d[j]).category@ by {
            assert(d[i] == s[i] && d[j] == s[j]);
        }
        lemma_filter_category_len(d, c);
        let last = s[s.len() - 1];
        if last.category@ == c {
            assert(has_category(s, c));
            assert forall|j: int| 0 <= j < d.len() implies (#[trigger] d[j]).category@ != c by {
                assert(d[j] == s[j]);
            }
            assert(!has_category(d, c));
        } else {
            if has_category(s, c) {
                let j = choose|j: int| 0 <= j < s.len() && (#[trigger] s[j]).category@ == c;
                assert(d[j] == s[j]);
                assert(has_category(d, c));
            }
            if has_category(d, c) {
                let j = choose|j: int| 0 <= j < d.len() && (#[trigger] d[j]).category@ == c;
                assert(d[j] == s[j]);
                assert(has_category(s, c));
            }
        }
    }
}

/// An item whose id is not that of the removed one is still owned after
/// the removal.
proof fn lemma_owned_after_remove(inventory: Seq<Item>, k: int, x: Item)
    requires
        0 <= k < inventory.len(),
        holds_copy(inventory, x),
        inventory[k].id != x.id,
    ensures
        holds_copy(inventory.remove(k), x),
{
    let j = choose|j: int| 0 <= j < inventory.len() && same_item(#[trigger] inventory[j], x);
    let r = inventory.remove(k);
    if j < k {
        assert(r[j] == inventory[j]);
    } else {
        assert(r[j - 1] == inventory[j]);
    }
}

/// Whether `items` holds a copy of `item`.
fn find_copy(items: &Vec<Item>, item: &Item) -> (r: bool)
    ensures
        r == holds_copy(items@, *item),
{
    let mut i: usize = 0;
    while i < items.len()
        invariant
            i <= items.len(),
            forall|j: int| 0 <= j < i ==> !same_item(#[trigger] items@[j], *item),
        decreases items.len() - i,
    {
        if items[i].same_as(item) {
            return true;
        }
        i += 1;
    }
    false
}

/// The position of the first item with id `id`, if any.
fn find_item(items: &Vec<Item>, id: i32) -> (r: Option<usize>)
    ensures
        match r {
            Some(k) => first_with_id(items@, id, k as int),
            None => !has_item(items@, id),
        },
{
    let mut i: usize = 0;
    while i < items.len()
        invariant
            i <= items.len(),
            forall|j: int| 0 <= j < i ==> (#[trigger] items@[j]).id != id,
        decreases items.len() - i,
    {
        if items[i].id == id {
            return Some(i);
        }
        i += 1;
    }
    None
}

/// Copies the items of `src` whose category is not `category`, in order.
fn retain_other_category(src: &Vec<Item>, category: &String) -> (r: Vec<Item>)
    ensures
        r@ == src@.filter(other_category(category@)),
{
    let mut r: Vec<Item> = Vec::new();
    let mut i: usize = 0;
    while i < src.len()
        invariant
            i <= src.len(),
            r@ == src@.subrange(0, i as int).filter(other_category(category@)),
        decreases src.len() - i,
    {
        let ghost before = src@.subrange(0, i as int);
        assert(src@.subrange(0, i + 1).drop_last() =~= before);
        reveal(Seq::filter);
        if src[i].category != *category {
            r.push(src[i].duplicate());
        }
        i += 1;
    }
    assert(src@.subrange(0, src.len() as int) =~= src@);
    r
}

/// Copies the items of `src` whose id is not `id`, in order.
fn retain_other_id(src: &Vec<Item>, id: i32) -> (r: Vec<Item>)
    ensures
        r@ == src@.filter(other_id(id)),
{
    let mut r: Vec<Item> = Vec::new();
    let mut i: usize = 0;
    while i < src.len()
        invariant
            i <= src.len(),
            r@ == src@.subrange(0, i as int).filter(other_id(id)),
        decreases src.len() - i,
    {
        let ghost before = src@.subrange(0, i as int);
        assert(src@.subrange(0, i + 1).drop_last() =~= before);
        reveal(Seq::filter);
        if src[i].id != id {
            r.push(src[i].duplicate());
        }
        i += 1;
    }
    assert(src@.subrange(0, src.len() as int) =~= src@);
    r
}

/// The equipped items after `item` is equipped: any item of the same
/// category leaves, and `item` comes last.
pub open spec fn equipped_after_equip(equipped: Seq<Item>, item: Item) -> Seq<Item> {
    equipped.filter(other_category(item.category@)).push(item)
}

/// Equipping never leaves two items of one category equipped: the new item
/// is the only one of its category, every item of another category stays,
/// and an item of the same category is replaced rather than joined, so the
/// count grows only when the category was empty.
pub proof fn lemma_equip_replaces(inventory: Seq<Item>, equipped: Seq<Item>, item: Item)
    requires
        one_per_category(equipped),
        equipped_owned(inventory, equipped),
    ensures
        one_per_category(equipped_after_equip(equipped, item)),
        forall|t: int|
            0 <= t < equipped_after_equip(equipped, item).len()
                && (#[trigger] equipped_after_equip(equipped, item)[t]).category@ == item.category@
                ==> t == equipped_after_equip(equipped, item).len() - 1,
        equipped_after_equip(equipped, item).last() == item,
        forall|j: int|
            0 <= j < equipped.len() && (#[trigger] equipped[j]).category@ != item.category@
                ==> equipped_after_equip(equipped, item).contains(equipped[j]),
        equipped_after_equip(equipped, item).len() as int == if has_category(equipped, item.category@) {
            equipped.len() as int
        } else {
            equipped.len() + 1 as int
        },
{
    lemma_filter_category_len(equipped, item.category@);
    let f = equipped.filter(other_category(item.category@));
    lemma_filter_keeps_slots(inventory, equipped, other_category(item.category@));
    lemma_filter_from(equipped, other_category(item.category@));
    broadcast use Seq::lemma_filter_contains;
    let e = f.push(item);
    assert forall|j: int|
        0 <= j < equipped.len() && (#[trigger] equipped[j]).category@ != item.category@
            implies e.contains(equipped[j]) by {
        assert(f.contains(equipped[j]));
        let t = choose|t: int| 0 <= t < f.len() && f[t] == equipped[j];
        assert(e[t] == equipped[j]);
    }
    assert forall|t: int|
        0 <= t < e.len() && (#[trigger] e[t]).category@ == item.category@ implies t == e.len() - 1 by {
        if t < f.len() {
            assert(e[t] == f[t]);
        }
    }
}

impl User {
    /// Appends `item` to the inventory; copies of one item may repeat.
    pub fn add_item(&mut self, item: Item)
        ensures
            final(self)@ == (UserModel { inventory: old(self)@.inventory.push(item), ..old(self)@ }),
            old(self)@.wf() ==> final(self)@.wf(),
    {
        let ghost before = self.inventory@;
        self.inventory.push(item);
        proof {
            let after = self.inventory@;
            let eq = self.equipped@;
            if equipped_owned(before, eq) {
                assert forall|i: int| 0 <= i < eq.len() implies holds_copy(after, #[trigger] eq[i]) by {
                    assert(holds_copy(before, eq[i]));
                    let j = choose|j: int| 0 <= j < before.len() && same_item(#[trigger] before[j], eq[i]);
                    assert(after[j] == before[j]);
                }
            }
        }
    }

    /// Removes the first copy of item `id` from the inventory and returns it.
    /// When the item is equipped, it is unequipped too. Fails with
    /// `ItemNotOwned`, changing nothing, when no copy is owned.
    pub fn remove_item(&mut self, id: i32) -> (r: Result<Item, CoreError>)
        ensures
            !has_item(old(self)@.inventory, id) ==> r == Err::<Item, CoreError>(CoreError::ItemNotOwned)
                && final(self)@ == old(self)@,
            has_item(old(self)@.inventory, id) ==> r is Ok && exists|k: int|
                first_with_id(old(self)@.inventory, id, k) && r->Ok_0 == old(self)@.inventory[k]
                    && final(self)@ == (UserModel {
                    inventory: old(self)@.inventory.remove(k),
                    equipped: equipped_after_removal(old(self)@.equipped, id),
                    ..old(self)@
                }),
            old(self)@.wf() ==> final(self)@.wf(),
    {
        let found = find_item(&self.inventory, id);
        match found {
            None => Err(CoreError::ItemNotOwned),
            Some(k) => {
                let ghost old_inv = self.inventory@;
                let ghost old_eq = self.equipped@;
                let removed = self.inventory.remove(k);
                let kept = retain_other_id(&self.equipped, id);
                self.equipped = kept;
                proof {
                    let inv = self.inventory@;
                    assert(inv == old_inv.remove(k as int));
                    if one_per_category(old_eq) && equipped_owned(old_inv, old_eq) {
                        lemma_filter_keeps_slots(old_inv, old_eq, other_id(id));
                        lemma_filter_from(old_eq, other_id(id));
                        let f = old_eq.filter(other_id(id));
                        assert forall|t: int| 0 <= t < f.len() implies holds_copy(inv, #[trigger] f[t]) by {
                            let j = choose|j: int| 0 <= j < old_eq.len() && old_eq[j] == f[t];
                            assert(other_id(id)(f[t]));
                            assert(old_eq[j].id != id);
                            lemma_owned_after_remove(old_inv, k as int, f[t]);
                        }
                    }
                }
                Ok(removed)
            },
        }
    }

    /// Equips the first owned copy of item `id`. An item already equipped in
    /// the same category is unequipped first, so each category holds at most
    /// one item. Fails with `ItemNotOwned`, changing nothing, when no copy is
    /// owned.
    pub fn equip(&mut self, id: i32) -> (r: Result<(), CoreError>)
        ensures
            !has_item(old(self)@.inventory, id) ==> r == Err::<(), CoreError>(CoreError::ItemNotOwned)
                && final(self)@ == old(self)@,
            has_item(old(self)@.inventory, id) ==> r is Ok && exists|k: int|
                first_with_id(old(self)@.inventory, id, k) && final(self)@ == (UserModel {
                    equipped: equipped_after_equip(old(self)@.equipped, old(self)@.inventory[k]),
                    ..old(self)@
                }),
            old(self)@.wf() ==> final(self)@.wf(),
    {
        match find_item(&self.inventory, id) {
            None => Err(CoreError::ItemNotOwned),
            Some(k) => {
                let ghost old_eq = self.equipped@;
                let item = self.inventory[k].duplicate();
                let mut kept = retain_other_category(&self.equipped, &item.category);
                kept.push(item);
                self.equipped = kept;
                proof {
                    let inv = self.inventory@;
                    if one_per_category(old_eq) && equipped_owned(inv, old_eq) {
                        lemma_equip_replaces(inv, old_eq, inv[k as int]);
                        lemma_filter_keeps_slots(inv, old_eq, other_category(inv[k as int].category@));
                        let e = self.equipped@;
                        assert forall|t: int| 0 <= t < e.len() implies holds_copy(inv, #[trigger] e[t]) by {
                            if t == e.len() - 1 {
                                assert(same_item(inv[k as int], e[t]));
                            } else {
                                assert(e[t] == old_eq.filter(other_category(inv[k as int].category@))[t]);
                            }
                        }
                    }
                }
                Ok(())
            },
        }
    }

    /// Unequips item `id`; the inventory is untouched. Fails with
    /// `ItemNotEquipped`, changing nothing, when it is not equipped.
    pub fn unequip(&mut self, id: i32) -> (r: Result<(), CoreError>)
        ensures
            !has_item(old(self)@.equipped, id) ==> r == Err::<(), CoreError>(CoreError::ItemNotEquipped)
                && final(self)@ == old(self)@,
            has_item(old(self)@.equipped, id) ==> r is Ok && final(self)@ == (UserModel {
                equipped: old(self)@.equipped.filter(other_id(id)),
                ..old(self)@
            }),
            old(self)@.wf() ==> final(self)@.wf(),
    {
        match find_item(&self.equipped, id) {
            None => Err(CoreError::ItemNotEquipped),
            Some(_) => {
                let ghost old_eq = self.equipped@;
                let kept = retain_other_id(&self.equipped, id);
                self.equipped = kept;
                proof {
                    if one_per_category(old_eq) && equipped_owned(self.inventory@, old_eq) {
                        lemma_filter_keeps_slots(self.inventory@, old_eq, other_id(id));
                    }
                }
                Ok(())
            },
        }
    }
}

/// Whether no two items of `items` share a category.
fn categories_distinct(items: &Vec<Item>) -> (r: bool)
    ensures
        r == one_per_category(items@),
{
    let n = items.len();
    let mut i: usize = 0;
    while i < n
        invariant
            i <= n,
            n == items@.len(),
            forall|a: int, b: int|
                0 <= a < i && 0 <= b < n && a != b ==> (#[trigger] items@[a]).category@
                    != (#[trigger] items@[b]).category@,
        decreases n - i,
    {
        let mut j: usize = 0;
        while j < n
            invariant
                i < n,
                j <= n,
                n == items@.len(),
                forall|a: int, b: int|
                    0 <= a < i && 0 <= b < n && a != b ==> (#[trigger] items@[a]).category@
                        != (#[trigger] items@[b]).category@,
                forall|b: int|
                    0 <= b < j && b != i ==> items@[i as int].category@ != (#[trigger] items@[b]).category@,
            decreases n - j,
        {
            if j != i && items[i].same_category(&items[j]) {
                return false;
            }
            j += 1;
        }
        i += 1;
    }
    true
}

impl User {
    /// Whether this record meets the record invariant: no negative counter
    /// or amount, at most one equipped item per category, every equipped item
    /// owned, and a history no longer than `MAX_COMMAND_HISTORY`.
    pub fn is_well_formed(&self) -> (r: bool)
        ensures
            r == self@.wf(),
    {
        if self.xp < 0 || self.messages_sent < 0 || self.balance < 0 || self.cash < 0 {
            return false;
        }
        if self.last_command_list.len() > MAX_COMMAND_HISTORY {
            return false;
        }
        if !categories_distinct(&self.equipped) {
            return false;
        }
        let mut i: usize = 0;
        while i < self.equipped.len()
            invariant
                i <= self.equipped@.len(),
                forall|t: int| 0 <= t < i ==> holds_copy(self.inventory@, #[trigger] self.equipped@[t]),
            decreases self.equipped.len() - i,
        {
            if !find_copy(&self.inventory, &self.equipped[i]) {
                return false;
            }
            i += 1;
        }
        true
    }
}

} // verus!
