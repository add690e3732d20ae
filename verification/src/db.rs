//! The store: live records by identifier, with create, read, list, update,
//! delete and the eviction sweep.

use std::collections::HashMap;
use vstd::prelude::*;
use vstd::std_specs::iter::IteratorSpec;
use crate::decimal::{decimal, push_decimal};
use crate::model::{created, deleted, evicts, found, is_listing, swept, updated, Records};
use crate::random::{random_index, random_u64};
use crate::record::{draw_chance, Data, DataView, Id, CHANCE_SCALE};
use crate::value::DataValue;
use vstd::string::StringExecFns;

verus! {

/// No record is live under the identifier that an update or a delete named.
#[derive(Debug, Clone, Copy, PartialEq, Eq, Structural)]
pub struct NotFoundError {
    pub id: Id,
}

impl NotFoundError {
    /// The words of the error: `no data with id `, then the identifier.
    pub open spec fn text(self) -> Seq<char> {
        "no data with id "@ + decimal(self.id as nat)
    }

    /// The error in words.
    pub fn message(&self) -> (words: String)
        ensures
            words@ == self.text(),
    {
        let mut words = String::from_str("no data with id ");
        push_decimal(&mut words, self.id);
        words
    }
}

/// The store. All records live in one map; whoever holds the store
/// exclusively is the only one to change it.
#[derive(Debug)]
pub struct Db {
    data: HashMap<Id, Data>,
}

impl View for Db {
    type V = Records;

    closed spec fn view(&self) -> Records {
        self.data@.map_values(|data: Data| data@)
    }
}

/// What a listing holds, as mathematics.
pub open spec fn entries_view(entries: Seq<(&Id, &Data)>) -> Seq<(Id, DataView)> {
    entries.map_values(|entry: (&Id, &Data)| (*entry.0, entry.1@))
}

impl Db {
    /// A store is never infinite.
    pub proof fn lemma_finite(&self)
        ensures
            self@.dom().finite(),
    {
        assert(self@.dom() =~= self.data@.dom());
    }

    /// An empty store.
    pub fn new() -> (db: Self)
        ensures
            db@ == Records::empty(),
    {
        let db = Db { data: HashMap::new() };
        assert(db@ =~= Records::empty());
        db
    }

    /// The number of live records.
    pub fn len(&self) -> (n: usize)
        ensures
            n == self@.len(),
    {
        assert(self@.dom() =~= self.data@.dom());
        self.data.len()
    }

    /// Puts `data` under `id`, in place of whatever was there, and returns
    /// `id`.
    pub fn create_with(&mut self, id: Id, data: Data) -> (made: Id)
        ensures
            made == id,
            final(self)@ == created(old(self)@, id, data@),
    {
        self.data.insert(id, data);
        assert(self@ =~= created(old(self)@, id, data@));
        id
    }

    /// Stores `value` under an identifier drawn at random, with a chance
    /// drawn at random, and returns the identifier. Every other record stays
    /// as it was.
    pub fn create(&mut self, value: DataValue) -> (id: Id)
        ensures
            final(self)@.contains_key(id),
            final(self)@[id].value == value@,
            final(self)@[id].chance < CHANCE_SCALE,
            final(self)@ == created(old(self)@, id, final(self)@[id]),
    {
        let data = Data::new(value);
        self.create_with(random_u64(), data)
    }

    /// The record under `id`, if one is live.
    pub fn read(&self, id: Id) -> (record: Option<&Data>)
        ensures
            found(self@, id) == match record {
                Some(data) => Some(data@),
                None => None,
            },
    {
        self.data.get(&id)
    }

    /// Every live record with its identifier, once each, in no particular
    /// order.
    pub fn list(&self) -> (entries: Vec<(&Id, &Data)>)
        ensures
            entries@.len() == self@.len(),
            is_listing(self@, entries_view(entries@)),
    {
        let mut entries: Vec<(&Id, &Data)> = Vec::new();
        for entry in it: self.data.iter()
            invariant
                entries@ == it.seq().take(it.index()),
                it.seq() == self.data.iter().remaining(),
                it.seq().no_duplicates(),
        {
            entries.push(entry);
        }
        assert(entries@ == self.data.iter().remaining());
        proof {
            let pairs = entries@;
            let shown = entries_view(pairs);
            assert(self@.dom() =~= self.data@.dom());
            assert forall|i: int, j: int| 0 <= i < j < shown.len() implies (#[trigger] shown[i]).0
                != (#[trigger] shown[j]).0 by {
                if *pairs[i].0 == *pairs[j].0 {
                    assert(self.data@.contains_key(*pairs[i].0));
                    assert(self.data@[*pairs[i].0] == *pairs[i].1);
                    assert(self.data@[*pairs[j].0] == *pairs[j].1);
                    assert(pairs[i] == pairs[j]);
                }
            }
            assert forall|i: int| 0 <= i < shown.len() implies self@.contains_key(
                (#[trigger] shown[i]).0,
            ) && self@[shown[i].0] == shown[i].1 by {
                assert(self.data@.contains_key(*pairs[i].0));
                assert(self.data@[*pairs[i].0] == *pairs[i].1);
            }
        }
        entries
    }

    /// Replaces the record under `id` by `data`, where one is live; where
    /// none is, changes nothing and says so.
    pub fn update_with(&mut self, id: Id, data: Data) -> (done: Result<(), NotFoundError>)
        ensures
            final(self)@ == updated(old(self)@, id, data@),
            done == if old(self)@.contains_key(id) {
                Ok::<(), NotFoundError>(())
            } else {
                Err::<(), NotFoundError>(NotFoundError { id })
            },
    {
        assert(self@.dom() =~= self.data@.dom());
        if self.data.contains_key(&id) {
            self.data.insert(id, data);
            assert(self@ =~= updated(old(self)@, id, data@));
            Ok(())
        } else {
            Err(NotFoundError { id })
        }
    }

    /// Replaces the record under `id` by one of `new_value`, with a chance
    /// drawn afresh, where one is live; where none is, changes nothing and
    /// says so.
    pub fn update(&mut self, id: Id, new_value: DataValue) -> (done: Result<(), NotFoundError>)
        ensures
            done == if old(self)@.contains_key(id) {
                Ok::<(), NotFoundError>(())
            } else {
                Err::<(), NotFoundError>(NotFoundError { id })
            },
            done is Err ==> final(self)@ == old(self)@,
            done is Ok ==> final(self)@[id].value == new_value@ && final(self)@[id].chance
                < CHANCE_SCALE && final(self)@ == updated(old(self)@, id, final(self)@[id]),
    {
        let data = Data::new(new_value);
        self.update_with(id, data)
    }

    /// Removes the record under `id`, where one is live; where none is,
    /// changes nothing and says so.
    pub fn delete(&mut self, id: Id) -> (done: Result<(), NotFoundError>)
        ensures
            final(self)@ == deleted(old(self)@, id),
            done == if old(self)@.contains_key(id) {
                Ok::<(), NotFoundError>(())
            } else {
                Err::<(), NotFoundError>(NotFoundError { id })
            },
    {
        assert(self@.dom() =~= self.data@.dom());
        let removed = self.data.remove(&id);
        assert(self@ =~= deleted(old(self)@, id));
        match removed {
            Some(_) => Ok(()),
            None => Err(NotFoundError { id }),
        }
    }

    /// One sweep with its candidate and its draw given: the record under
    /// `id` goes if it is live and `draw` stands for a chance strictly
    /// greater than its own. Says whether it went.
    pub fn forget_with(&mut self, id: Id, draw: u64) -> (evicted: bool)
        ensures
            evicted == evicts(old(self)@, id, draw),
            final(self)@ == swept(old(self)@, id, draw),
    {
        assert(self@.dom() =~= self.data@.dom());
        let threshold: u32 = draw_chance(draw);
        let evict = match self.data.get(&id) {
            Some(data) => threshold > data.chance,
            None => false,
        };
        if evict {
            self.data.remove(&id);
            assert(self@ =~= old(self)@.remove(id));
        }
        evict
    }

    /// One eviction sweep. An empty store stays empty. Else one live record
    /// is picked at random, each as likely as any other, a chance is drawn at
    /// random, and the record goes if the drawn chance is strictly greater than
    /// its own. At most one record goes, and no other changes.
    pub fn forget_random(&mut self)
        ensures
            old(self)@.len() == 0 ==> final(self)@ == old(self)@,
            old(self)@.len() > 0 ==> exists|id: Id, draw: u64|
                old(self)@.contains_key(id) && final(self)@ == #[trigger] swept(
                    old(self)@,
                    id,
                    draw,
                ),
    {
        let entries = self.list();
        if entries.len() == 0 {
            return ;
        }
        let index: usize = random_index(entries.len());
        let ghost shown = entries_view(entries@);
        assert(self@.contains_key(shown[index as int].0));
        let id: Id = *entries[index].0;
        let draw: u64 = random_u64();
        self.forget_with(id, draw);
        assert(self@ == swept(old(self)@, id, draw));
    }
}

} // verus!
