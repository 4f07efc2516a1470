use vstd::prelude::*;
use crate::item::Item;

verus! {

/// Longest command history kept per user; older entries are evicted first.
pub const MAX_COMMAND_HISTORY: usize = 20;

/// One invoked command, kept for analytics.
#[derive(Debug)]
pub struct CommandUsed {
    pub id: u64,
    pub command: String,
    pub timestamp: i64,
}

impl CommandUsed {
    pub fn new(id: u64, command: String, timestamp: i64) -> (r: CommandUsed)
        ensures
            r == (CommandUsed { id, command, timestamp }),
    {
        CommandUsed { id, command, timestamp }
    }

    /// A field-for-field copy of this entry.
    pub fn duplicate(&self) -> (r: CommandUsed)
        ensures
            r == *self,
    {
        CommandUsed { id: self.id, command: self.command.clone(), timestamp: self.timestamp }
    }
}

/// The state kept for one account. There is no level field: the level is
/// always derived from `xp`.
#[derive(Debug)]
pub struct User {
    pub id: u64,
    pub xp: i32,
    pub messages_sent: i32,
    pub last_message: i64,
    pub balance: i32,
    pub cash: i32,
    pub inventory: Vec<Item>,
    pub equipped: Vec<Item>,
    pub last_command_list: Vec<CommandUsed>,
}

/// The mathematical content of a `User`.
pub struct UserModel {
    pub id: u64,
    pub xp: int,
    pub messages_sent: int,
    pub last_message: int,
    pub balance: int,
    pub cash: int,
    pub inventory: Seq<Item>,
    pub equipped: Seq<Item>,
    pub last_command_list: Seq<CommandUsed>,
}

impl View for User {
    type V = UserModel;

    open spec fn view(&self) -> UserModel {
        UserModel {
            id: self.id,
            xp: self.xp as int,
            messages_sent: self.messages_sent as int,
            last_message: self.last_message as int,
            balance: self.balance as int,
            cash: self.cash as int,
            inventory: self.inventory@,
            equipped: self.equipped@,
            last_command_list: self.last_command_list@,
        }
    }
}

/// Some item in `items` has the id `id`.
pub open spec fn has_item(items: Seq<Item>, id: i32) -> bool {
    exists|j: int| 0 <= j < items.len() && (#[trigger] items[j]).id == id
}

/// No two items of `equipped` share a category.
pub open spec fn one_per_category(equipped: Seq<Item>) -> bool {
    forall|i: int, j: int|
        0 <= i < equipped.len() && 0 <= j < equipped.len() && i != j
            ==> (#[trigger] equipped[i]).category@ != (#[trigger] equipped[j]).category@
}

/// `a` and `b` are the same item: every field holds the same value.
pub open spec fn same_item(a: Item, b: Item) -> bool {
    &&& a.id == b.id
    &&& a.name@ == b.name@
    &&& a.description@ == b.description@
    &&& a.category@ == b.category@
    &&& a.image@ == b.image@
    &&& a.price == b.price
    &&& a.rarity == b.rarity
}

/// `items` holds a copy of `item`.
pub open spec fn holds_copy(items: Seq<Item>, item: Item) -> bool {
    exists|j: int| 0 <= j < items.len() && same_item(#[trigger] items[j], item)
}

/// Every equipped item is owned: a copy of it is in the inventory.
pub open spec fn equipped_owned(inventory: Seq<Item>, equipped: Seq<Item>) -> bool {
    forall|i: int| 0 <= i < equipped.len() ==> holds_copy(inventory, #[trigger] equipped[i])
}

impl UserModel {
    /// The record invariant.
    pub open spec fn wf(self) -> bool {
        &&& self.xp >= 0
        &&& self.messages_sent >= 0
        &&& self.balance >= 0
        &&& self.cash >= 0
        &&& one_per_category(self.equipped)
        &&& equipped_owned(self.inventory, self.equipped)
        &&& self.last_command_list.len() <= MAX_COMMAND_HISTORY
    }

}

/// The zero-valued record of an account seen for the first time.
pub open spec fn fresh_model(id: u64) -> UserModel {
    UserModel {
        id,
        xp: 0,
        messages_sent: 0,
        last_message: 0,
        balance: 0,
        cash: 0,
        inventory: Seq::empty(),
        equipped: Seq::empty(),
        last_command_list: Seq::empty(),
    }
}

/// Copies the items of `src`, in order.
fn duplicate_items(src: &Vec<Item>) -> (r: Vec<Item>)
    ensures
        r@ == src@,
{
    let mut r: Vec<Item> = Vec::new();
    let mut i: usize = 0;
    while i < src.len()
        invariant
            i <= src.len(),
            r@ == src@.subrange(0, i as int),
        decreases src.len() - i,
    {
        r.push(src[i].duplicate());
        i += 1;
    }
    assert(r@ =~= src@);
    r
}

/// Copies the entries of `src`, in order.
fn duplicate_commands(src: &Vec<CommandUsed>) -> (r: Vec<CommandUsed>)
    ensures
        r@ == src@,
{
    let mut r: Vec<CommandUsed> = Vec::new();
    let mut i: usize = 0;
    while i < src.len()
        invariant
            i <= src.len(),
            r@ == src@.subrange(0, i as int),
        decreases src.len() - i,
    {
        r.push(src[i].duplicate());
        i += 1;
    }
    assert(r@ =~= src@);
    r
}

impl User {
    /// The record of an account seen for the first time: every counter and
    /// balance zero, no items, no history.
    pub fn new(id: u64) -> (r: User)
        ensures
            r@ == fresh_model(id),
            r@.wf(),
    {
        User {
            id,
            xp: 0,
            messages_sent: 0,
            last_message: 0,
            balance: 0,
            cash: 0,
            inventory: Vec::new(),
            equipped: Vec::new(),
            last_command_list: Vec::new(),
        }
    }

    /// A copy of this record with the same content.
    pub fn duplicate(&self) -> (r: User)
        ensures
            r@ == self@,
    {
        User {
            id: self.id,
            xp: self.xp,
            messages_sent: self.messages_sent,
            last_message: self.last_message,
            balance: self.balance,
            cash: self.cash,
            inventory: duplicate_items(&self.inventory),
            equipped: duplicate_items(&self.equipped),
            last_command_list: duplicate_commands(&self.last_command_list),
        }
    }
}

} // verus!
