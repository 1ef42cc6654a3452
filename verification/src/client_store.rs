//! The client store: the client records of one client file, held as a
//! table in file order.
//!
//! The caller loads the table from the file bytes (`csvio`) and persists it
//! back after a mutating operation; the operations here are the store's
//! whole logic.

use vstd::prelude::*;

use crate::ids::{
    decimal_digits, lemma_max_id_val_bounds, lemma_next_id_monotonic, lemma_parsed_rendered_id,
    max_id_val, next_id_val, parse_id, parsed_id, render_id, MAX_ID,
};
use crate::model::{Client, ClientV};
use crate::text::str_eq;

verus! {

/// The id strings of a client table, in order.
pub open spec fn client_ids(cs: Seq<ClientV>) -> Seq<Seq<char>> {
    cs.map_values(|c: ClientV| c.id)
}

/// The position of the first client whose id matches, or `-1`.
pub open spec fn spec_client_index(cs: Seq<Client>, id: Seq<char>) -> int
    decreases cs.len(),
{
    if cs.len() == 0 {
        -1
    } else if cs[0]@.id == id {
        0
    } else {
        let rest = spec_client_index(cs.drop_first(), id);
        if rest == -1 {
            -1
        } else {
            rest + 1
        }
    }
}

/// What the index of the first matching client means.
pub proof fn lemma_client_index_props(cs: Seq<Client>, id: Seq<char>)
    ensures
        -1 <= spec_client_index(cs, id) < cs.len(),
        spec_client_index(cs, id) == -1 ==> (forall|k: int|
            0 <= k < cs.len() ==> (#[trigger] cs[k])@.id != id),
        spec_client_index(cs, id) >= 0 ==> {
            let j = spec_client_index(cs, id);
            &&& j < cs.len()
            &&& cs[j]@.id == id
            &&& forall|k: int| 0 <= k < j ==> (#[trigger] cs[k])@.id != id
        },
    decreases cs.len(),
{
    if cs.len() > 0 && cs[0]@.id != id {
        let t = cs.drop_first();
        lemma_client_index_props(t, id);
        assert(forall|k: int| 0 <= k < t.len() ==> #[trigger] t[k] == cs[k + 1]);
        let rest = spec_client_index(t, id);
        if rest == -1 {
            assert forall|k: int| 0 <= k < cs.len() implies (#[trigger] cs[k])@.id != id by {
                if k > 0 {
                    assert(t[k - 1] == cs[k]);
                }
            }
        } else {
            assert(cs[rest + 1] == t[rest]);
            assert forall|k: int| 0 <= k < rest + 1 implies (#[trigger] cs[k])@.id != id by {
                if k > 0 {
                    assert(t[k - 1] == cs[k]);
                }
            }
        }
    }
}

/// The client store over one client file.
pub struct ClientFileRepository {
    /// Where the table is persisted; carried, not read, by this store.
    pub file_path: String,
    /// The client records, in file order.
    pub clients: Vec<Client>,
}

impl ClientFileRepository {
    /// A store for the given file, before any records are loaded.
    pub fn new(file_path: &str) -> (r: Self)
        ensures
            r.file_path@ == file_path@,
            r.clients@.len() == 0,
    {
        ClientFileRepository { file_path: String::from_str(file_path), clients: Vec::new() }
    }

    /// Every stored client, in file order.
    pub fn fetch(&self) -> (r: Vec<Client>)
        ensures
            r@ == self.clients@,
    {
        let mut out: Vec<Client> = Vec::new();
        let mut i: usize = 0;
        while i < self.clients.len()
            invariant
                0 <= i <= self.clients@.len(),
                out@ =~= self.clients@.subrange(0, i as int),
            decreases self.clients@.len() - i,
        {
            out.push(self.clients[i].clone());
            i = i + 1;
        }
        proof {
            assert(out@ =~= self.clients@);
        }
        out
    }

    /// The first stored client with the given id, or nothing; a missing id
    /// is not an error.
    pub fn get(&self, id: &str) -> (r: Option<Client>)
        ensures
            ({
                let j = spec_client_index(self.clients@, id@);
                if j >= 0 {
                    r matches Some(c) && c == self.clients@[j]
                } else {
                    r is None
                }
            }),
    {
        proof {
            lemma_client_index_props(self.clients@, id@);
        }
        let mut i: usize = 0;
        while i < self.clients.len()
            invariant
                0 <= i <= self.clients@.len(),
                forall|k: int| 0 <= k < i ==> (#[trigger] self.clients@[k])@.id != id@,
                -1 <= spec_client_index(self.clients@, id@) < self.clients@.len(),
                spec_client_index(self.clients@, id@) == -1 ==> (forall|k: int|
                    0 <= k < self.clients@.len() ==> (#[trigger] self.clients@[k])@.id != id@),
                spec_client_index(self.clients@, id@) >= 0 ==> {
                    let j = spec_client_index(self.clients@, id@);
                    &&& j < self.clients@.len()
                    &&& self.clients@[j]@.id == id@
                    &&& forall|k: int|
                        0 <= k < j ==> (#[trigger] self.clients@[k])@.id != id@
                },
            decreases self.clients@.len() - i,
        {
            if str_eq(self.clients[i].id.as_str(), id) {
                return Some(self.clients[i].clone());
            }
            i = i + 1;
        }
        None
    }

    /// The id the store will assign next: one more than the largest value
    /// among the stored ids, `1` over an empty table.
    pub fn new_client_id(&self) -> (r: u64)
        ensures
            r == next_id_val(client_ids(self.clients.deep_view())),
    {
        let ghost ids = client_ids(self.clients.deep_view());
        let mut max: u64 = 0;
        let mut i: usize = 0;
        while i < self.clients.len()
            invariant
                0 <= i <= self.clients@.len(),
                ids == client_ids(self.clients.deep_view()),
                ids.len() == self.clients@.len(),
                max == max_id_val(ids.subrange(0, i as int)),
                max <= MAX_ID,
            decreases self.clients@.len() - i,
        {
            let v = parse_id(self.clients[i].id.as_str());
            proof {
                assert(ids[i as int] == self.clients@[i as int]@.id);
                assert(ids.subrange(0, i as int + 1).drop_last() =~= ids.subrange(0, i as int));
                assert(ids.subrange(0, i as int + 1).last() == ids[i as int]);
                assert(parsed_id(ids[i as int]) <= MAX_ID);
            }
            if v > max {
                max = v;
            }
            i = i + 1;
        }
        proof {
            assert(ids.subrange(0, self.clients@.len() as int) =~= ids);
        }
        max + 1
    }

    /// Assigns the next id, overwrites the new client's id field with it,
    /// appends the record, and hands the id back as a string.
    pub fn add(&mut self, new_client: Client) -> (r: String)
        ensures
            ({
                let n = next_id_val(client_ids(old(self).clients.deep_view()));
                &&& r@ == decimal_digits(n)
                &&& final(self).file_path == old(self).file_path
                &&& final(self).clients@.len() == old(self).clients@.len() + 1
                &&& final(self).clients@.drop_last() == old(self).clients@
                &&& final(self).clients@.last()@ == (ClientV {
                    id: decimal_digits(n),
                    name: new_client.name@,
                    contact_person: new_client.contact_person@,
                })
            }),
    {
        let n = self.new_client_id();
        let nid = render_id(n);
        let stored = Client {
            id: nid.clone(),
            name: new_client.name,
            contact_person: new_client.contact_person,
        };
        self.clients.push(stored);
        proof {
            assert(final(self).clients@.drop_last() =~= old(self).clients@);
        }
        nid
    }

    /// Replaces every stored client whose id matches the updated record's
    /// id with the updated record; with no match the table is left as it
    /// was, and the call still succeeds.
    pub fn update(&mut self, updated_client: Client)
        ensures
            final(self).file_path == old(self).file_path,
            final(self).clients@.len() == old(self).clients@.len(),
            forall|k: int|
                0 <= k < old(self).clients@.len() ==> final(self).clients@[k] == (if (
                #[trigger] old(self).clients@[k])@.id == updated_client@.id {
                    updated_client
                } else {
                    old(self).clients@[k]
                }),
    {
        let mut out: Vec<Client> = Vec::new();
        let mut i: usize = 0;
        while i < self.clients.len()
            invariant
                0 <= i <= self.clients@.len(),
                out@.len() == i,
                forall|k: int|
                    0 <= k < i ==> out@[k] == (if (#[trigger] self.clients@[k])@.id
                        == updated_client@.id {
                        updated_client
                    } else {
                        self.clients@[k]
                    }),
            decreases self.clients@.len() - i,
        {
            if str_eq(self.clients[i].id.as_str(), updated_client.id.as_str()) {
                out.push(updated_client.clone());
            } else {
                out.push(self.clients[i].clone());
            }
            i = i + 1;
        }
        self.clients = out;
    }
}

/// Ids assigned by `add` grow strictly: the id assigned over a table is
/// strictly greater, as a number, than the value of every id already in the
/// table — in particular than every id `add` itself put there — and over an
/// empty table it is `1`.  Once an assigned id is stored, the next
/// assignment is exactly one higher, as long as the table stays within the
/// allocator's range.
pub proof fn lemma_client_ids_grow(cs: Seq<ClientV>)
    ensures
        forall|i: int|
            0 <= i < cs.len() ==> parsed_id(#[trigger] client_ids(cs)[i]) < next_id_val(
                client_ids(cs),
            ),
        cs.len() == 0 ==> next_id_val(client_ids(cs)) == 1,
        forall|c: ClientV|
            (#[trigger] c.id == decimal_digits(next_id_val(client_ids(cs))) && next_id_val(
                client_ids(cs),
            ) <= MAX_ID) ==> next_id_val(client_ids(cs.push(c))) == next_id_val(client_ids(cs))
                + 1,
{
    lemma_next_id_monotonic(client_ids(cs));
    let n = next_id_val(client_ids(cs));
    assert forall|c: ClientV|
        (c.id == decimal_digits(n) && n <= MAX_ID) implies next_id_val(client_ids(cs.push(c)))
        == n + 1 by {
        lemma_parsed_rendered_id(n);
        let ids2 = client_ids(cs.push(c));
        assert(ids2.drop_last() =~= client_ids(cs));
        assert(ids2.last() == c.id);
        lemma_max_id_val_bounds(client_ids(cs));
    }
}

} // verus!
