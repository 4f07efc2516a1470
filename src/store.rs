use vstd::prelude::*;
use std::collections::HashMap;
use crate::error::CoreError;
use crate::user::{User, UserModel, fresh_model};

verus! {

broadcast use vstd::std_specs::hash::group_hash_axioms;

/// The records of all accounts seen so far, keyed by account id.
pub struct UserStore {
    users: HashMap<u64, User>,
}

/// The records after `id` is resolved: unchanged when `id` has a record,
/// else with a fresh record for `id` added.
pub open spec fn get_or_create_spec(m: Map<u64, UserModel>, id: u64) -> Map<u64, UserModel> {
    if m.contains_key(id) {
        m
    } else {
        m.insert(id, fresh_model(id))
    }
}

/// The records after `n` resolutions of `id` in a row.
pub open spec fn get_or_create_times(m: Map<u64, UserModel>, id: u64, n: nat) -> Map<u64, UserModel>
    decreases n,
{
    if n == 0 {
        m
    } else {
        get_or_create_times(get_or_create_spec(m, id), id, (n - 1) as nat)
    }
}

/// However many times an account is resolved, at most one record is
/// created for it, by the first resolution only, and every resolution
/// sees the same record.
pub proof fn lemma_created_at_most_once(m: Map<u64, UserModel>, id: u64, n: nat)
    requires
        n >= 1,
    ensures
        get_or_create_times(m, id, n) == get_or_create_spec(m, id),
        get_or_create_spec(m, id).contains_key(id),
        get_or_create_spec(m, id)[id] == if m.contains_key(id) {
            m[id]
        } else {
            fresh_model(id)
        },
        get_or_create_spec(m, id).dom() == m.dom().insert(id),
    decreases n,
{
    let m1 = get_or_create_spec(m, id);
    assert(get_or_create_spec(m1, id) == m1);
    if n > 1 {
        lemma_created_at_most_once(m1, id, (n - 1) as nat);
    } else {
        assert(get_or_create_times(m1, id, 0) == m1);
    }
    assert(get_or_create_spec(m, id).dom() =~= m.dom().insert(id));
}

impl View for UserStore {
    type V = Map<u64, UserModel>;

    closed spec fn view(&self) -> Map<u64, UserModel> {
        Map::new(|k: u64| self.users@.contains_key(k), |k: u64| self.users@[k]@)
    }
}

impl UserStore {
    /// Every stored record is well formed and filed under its own id.
    pub open spec fn wf(&self) -> bool {
        forall|id: u64| #[trigger] self@.contains_key(id) ==> self@[id].wf() && self@[id].id == id
    }

    /// A store with no records.
    pub fn new() -> (r: UserStore)
        ensures
            r@ == Map::<u64, UserModel>::empty(),
            r.wf(),
    {
        let r = UserStore { users: HashMap::new() };
        assert(r@ =~= Map::<u64, UserModel>::empty());
        r
    }

    /// Whether `id` has a record.
    pub fn contains(&self, id: u64) -> (r: bool)
        ensures
            r == self@.contains_key(id),
    {
        self.users.contains_key(&id)
    }

    /// A copy of the record of `id`; fails with `NotFound` when there is none.
    /// Creates nothing.
    pub fn get(&self, id: u64) -> (r: Result<User, CoreError>)
        ensures
            self@.contains_key(id) ==> r is Ok && r->Ok_0@ == self@[id],
            !self@.contains_key(id) ==> r == Err::<User, CoreError>(CoreError::NotFound),
    {
        match self.users.get(&id) {
            Some(u) => Ok(u.duplicate()),
            None => Err(CoreError::NotFound),
        }
    }

    /// Resolves `id`: a copy of its record, created and stored first when
    /// the account is new, and whether it was created. The check and the
    /// insertion form one step on `&mut self`, so two resolutions of one id
    /// can never both create.
    pub fn get_or_create(&mut self, id: u64) -> (r: (User, bool))
        ensures
            final(self)@ == get_or_create_spec(old(self)@, id),
            r.1 == !old(self)@.contains_key(id),
            r.0@ == final(self)@[id],
            old(self).wf() ==> final(self).wf(),
    {
        match self.users.get(&id) {
            Some(u) => (u.duplicate(), false),
            None => {
                let fresh = User::new(id);
                let copy = fresh.duplicate();
                self.users.insert(id, fresh);
                assert(self@ =~= old(self)@.insert(id, fresh_model(id)));
                (copy, true)
            },
        }
    }

    /// Stores `user` under its id, replacing any earlier record of it.
    pub fn save(&mut self, user: User)
        requires
            user@.wf(),
        ensures
            final(self)@ == old(self)@.insert(user.id, user@),
            old(self).wf() ==> final(self).wf(),
    {
        let ghost model = user@;
        let id = user.id;
        self.users.insert(id, user);
        assert(self@ =~= old(self)@.insert(id, model));
    }

    /// Takes a record read back from durable storage into the store. A
    /// record that breaks the record invariant is refused with
    /// `StoreCorrupt` and the store is unchanged.
    pub fn load(&mut self, user: User) -> (r: Result<(), CoreError>)
        ensures
            user@.wf() ==> r is Ok && final(self)@ == old(self)@.insert(user.id, user@),
            !user@.wf() ==> r == Err::<(), CoreError>(CoreError::StoreCorrupt) && final(self)@ == old(self)@,
            old(self).wf() ==> final(self).wf(),
    {
        if user.is_well_formed() {
            self.save(user);
            Ok(())
        } else {
            Err(CoreError::StoreCorrupt)
        }
    }

    /// How many records are stored.
    pub fn len(&self) -> (r: usize)
        ensures
            r == self@.len(),
    {
        proof {
            assert(self@.dom() =~= self.users@.dom());
        }
        self.users.len()
    }
}

/// The worker, out of `shards`, that owns the records of `id`. All writes of
/// one account go to one worker, and different accounts spread over all of
/// them.
pub fn shard_index(id: u64, shards: usize) -> (r: usize)
    requires
        shards > 0,
    ensures
        r == id % (shards as u64),
        r < shards,
{
    (id % (shards as u64)) as usize
}

} // verus!
