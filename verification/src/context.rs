use crate::address::{AddressDomain, SocketAddr};
use crate::error::Error;
use crate::json::clone_json;
use vstd::prelude::*;

verus! {

/// A value kept in a [`Context`] under a key of its own.
pub trait CommonField {
    const KEY: &'static str;
}

/// The name of the process behind a connection.
pub struct ProcessInfo {
    pub process_name: String,
}

impl CommonField for ProcessInfo {
    const KEY: &'static str = "process_info";
}

/// The domain and port a connection is headed for, written `domain:port`.
pub struct DestDomain(pub AddressDomain);

impl CommonField for DestDomain {
    const KEY: &'static str = "dest_domain";
}

/// The address a connection is headed for.
pub struct DestSocketAddr(pub SocketAddr);

impl CommonField for DestSocketAddr {
    const KEY: &'static str = "dest_socket_addr";
}

/// The address a connection comes from.
pub struct SrcSocketAddr(pub SocketAddr);

impl CommonField for SrcSocketAddr {
    const KEY: &'static str = "src_socket_addr";
}

/// No key occurs twice among `entries`.
pub open spec fn keys_unique(entries: Seq<(String, serde_json::Value)>) -> bool {
    forall|i: int, j: int| 0 <= i < j < entries.len() ==> entries[i].0@ != entries[j].0@
}

/// The map from keys to values that `entries` spell, later entries over earlier ones.
pub open spec fn entries_map(entries: Seq<(String, serde_json::Value)>) -> Map<
    Seq<char>,
    serde_json::Value,
>
    decreases entries.len(),
{
    if entries.len() == 0 {
        Map::empty()
    } else {
        entries_map(entries.drop_last()).insert(entries.last().0@, entries.last().1)
    }
}

/// With keys that occur once, the map holds exactly the keys of the entries, each with
/// the value of its entry, and as many keys as there are entries.
pub proof fn lemma_entries_map(s: Seq<(String, serde_json::Value)>)
    requires
        keys_unique(s),
    ensures
        forall|k: Seq<char>|
            #![trigger entries_map(s).contains_key(k)]
            entries_map(s).contains_key(k) <==> exists|i: int| 0 <= i < s.len() && s[i].0@ == k,
        forall|i: int| 0 <= i < s.len() ==> entries_map(s)[#[trigger] s[i].0@] == s[i].1,
        entries_map(s).dom().finite(),
        entries_map(s).len() == s.len(),
    decreases s.len(),
{
    if s.len() > 0 {
        let t = s.drop_last();
        let last = s.last();
        assert(keys_unique(t));
        lemma_entries_map(t);
        assert(!entries_map(t).contains_key(last.0@)) by {
            if entries_map(t).contains_key(last.0@) {
                let i = choose|i: int| 0 <= i < t.len() && t[i].0@ == last.0@;
                assert(s[i].0@ != s[s.len() - 1].0@);
            }
        }
        assert forall|k: Seq<char>|
            #![trigger entries_map(s).contains_key(k)]
            entries_map(s).contains_key(k) <==> exists|i: int| 0 <= i < s.len() && s[i].0@ == k by {
            if entries_map(s).contains_key(k) && k != last.0@ {
                let i = choose|i: int| 0 <= i < t.len() && t[i].0@ == k;
                assert(s[i].0@ == k);
            }
            if exists|i: int| 0 <= i < s.len() && s[i].0@ == k {
                let i = choose|i: int| 0 <= i < s.len() && s[i].0@ == k;
                if i < s.len() - 1 {
                    assert(t[i].0@ == k);
                }
            }
        }
        assert forall|i: int| 0 <= i < s.len() implies entries_map(s)[#[trigger] s[i].0@] == s[i].1 by {
            if i < s.len() - 1 {
                assert(t[i] == s[i]);
                assert(s[i].0@ != last.0@);
            }
        }
    }
}

/// Replacing the entry of a key sets that key in the map.
pub proof fn lemma_entries_map_update(
    s: Seq<(String, serde_json::Value)>,
    i: int,
    e: (String, serde_json::Value),
)
    requires
        keys_unique(s),
        0 <= i < s.len(),
        s[i].0@ == e.0@,
    ensures
        keys_unique(s.update(i, e)),
        entries_map(s.update(i, e)) == entries_map(s).insert(e.0@, e.1),
{
    let u = s.update(i, e);
    assert(keys_unique(u)) by {
        assert forall|a: int, b: int| 0 <= a < b < u.len() implies u[a].0@ != u[b].0@ by {
            assert(s[a].0@ != s[b].0@);
        }
    }
    lemma_entries_map(s);
    lemma_entries_map(u);
    let m = entries_map(s).insert(e.0@, e.1);
    assert forall|k: Seq<char>| #[trigger] entries_map(u).contains_key(k) <==> m.contains_key(k) by {
        if m.contains_key(k) && k != e.0@ {
            let j = choose|j: int| 0 <= j < s.len() && s[j].0@ == k;
            assert(u[j].0@ == k);
        }
        if m.contains_key(k) && k == e.0@ {
            assert(u[i].0@ == k);
        }
        if entries_map(u).contains_key(k) {
            let j = choose|j: int| 0 <= j < u.len() && u[j].0@ == k;
            if j != i {
                assert(s[j].0@ == k);
            }
        }
    }
    assert forall|k: Seq<char>| #[trigger] entries_map(u).contains_key(k) implies entries_map(u)[k]
        == m[k] by {
        let j = choose|j: int| 0 <= j < u.len() && u[j].0@ == k;
        assert(entries_map(u)[u[j].0@] == u[j].1);
        if j != i {
            assert(s[j] == u[j]);
            assert(entries_map(s)[s[j].0@] == s[j].1);
        }
    }
    assert(entries_map(u) =~= m);
}

/// Removing the entry of a key removes that key from the map.
pub proof fn lemma_entries_map_remove(s: Seq<(String, serde_json::Value)>, i: int)
    requires
        keys_unique(s),
        0 <= i < s.len(),
    ensures
        keys_unique(s.remove(i)),
        entries_map(s.remove(i)) == entries_map(s).remove(s[i].0@),
{
    let u = s.remove(i);
    assert(keys_unique(u)) by {
        assert forall|a: int, b: int| 0 <= a < b < u.len() implies u[a].0@ != u[b].0@ by {
            let a2 = if a < i { a } else { a + 1 };
            let b2 = if b < i { b } else { b + 1 };
            assert(u[a] == s[a2] && u[b] == s[b2]);
            assert(s[a2].0@ != s[b2].0@);
        }
    }
    lemma_entries_map(s);
    lemma_entries_map(u);
    let k0 = s[i].0@;
    let m = entries_map(s).remove(k0);
    assert forall|k: Seq<char>| #[trigger] entries_map(u).contains_key(k) <==> m.contains_key(k) by {
        if m.contains_key(k) {
            let j = choose|j: int| 0 <= j < s.len() && s[j].0@ == k;
            assert(j != i);
            let j2 = if j < i { j } else { j - 1 };
            assert(u[j2] == s[j]);
        }
        if entries_map(u).contains_key(k) {
            let j = choose|j: int| 0 <= j < u.len() && u[j].0@ == k;
            let j2 = if j < i { j } else { j + 1 };
            assert(u[j] == s[j2]);
            assert(s[j2].0@ != s[i].0@);
        }
    }
    assert forall|k: Seq<char>| #[trigger] entries_map(u).contains_key(k) implies entries_map(u)[k]
        == m[k] by {
        let j = choose|j: int| 0 <= j < u.len() && u[j].0@ == k;
        let j2 = if j < i { j } else { j + 1 };
        assert(u[j] == s[j2]);
        assert(entries_map(u)[u[j].0@] == u[j].1);
        assert(entries_map(s)[s[j2].0@] == s[j2].1);
    }
    assert(entries_map(u) =~= m);
}

/// Appending an entry for a new key adds that key to the map.
pub proof fn lemma_entries_map_push(s: Seq<(String, serde_json::Value)>, e: (String, serde_json::Value))
    requires
        keys_unique(s),
        forall|j: int| 0 <= j < s.len() ==> s[j].0@ != e.0@,
    ensures
        keys_unique(s.push(e)),
        entries_map(s.push(e)) == entries_map(s).insert(e.0@, e.1),
{
    let u = s.push(e);
    assert(u.drop_last() =~= s);
    assert(keys_unique(u)) by {
        assert forall|a: int, b: int| 0 <= a < b < u.len() implies u[a].0@ != u[b].0@ by {
            if b == s.len() {
                assert(u[a] == s[a]);
            } else {
                assert(u[a] == s[a] && u[b] == s[b]);
            }
        }
    }
}

/// What is known of a connection while it is made: values under string keys, and the
/// names of the nets it went through, in order.
#[derive(Clone, Debug)]
pub struct Context {
    data: Vec<(String, serde_json::Value)>,
    net_list: Vec<String>,
}

impl Context {
    /// No key occurs twice.
    pub closed spec fn wf(self) -> bool {
        keys_unique(self.data@)
    }

    /// The values, by key.
    pub closed spec fn data_view(self) -> Map<Seq<char>, serde_json::Value> {
        entries_map(self.data@)
    }

    /// The key-value entries, in the order the keys were first set.
    pub closed spec fn spec_entries(self) -> Seq<(String, serde_json::Value)> {
        self.data@
    }

    /// The names of the nets, in order.
    pub closed spec fn spec_net_list(self) -> Seq<String> {
        self.net_list@
    }

    /// An empty context.
    pub fn new() -> (r: Context)
        ensures
            r.wf(),
            r.data_view() == Map::<Seq<char>, serde_json::Value>::empty(),
            r.spec_net_list() == Seq::<String>::empty(),
    {
        Context { data: Vec::with_capacity(16), net_list: Vec::with_capacity(16) }
    }

    /// The position of the entry of `key`, if there is one.
    fn find(&self, key: &str) -> (r: Option<usize>)
        ensures
            r matches Some(i) ==> i < self.data@.len() && self.data@[i as int].0@ == key@,
            r is None ==> forall|j: int| 0 <= j < self.data@.len() ==> self.data@[j].0@ != key@,
    {
        let mut i: usize = 0;
        while i < self.data.len()
            invariant
                0 <= i <= self.data@.len(),
                forall|j: int| 0 <= j < i ==> self.data@[j].0@ != key@,
            decreases self.data@.len() - i,
        {
            if crate::text::str_eq(self.data[i].0.as_str(), key) {
                return Some(i);
            }
            i = i + 1;
        }
        None
    }

    /// The number of keys.
    pub fn len(&self) -> (r: usize)
        requires
            self.wf(),
        ensures
            r == self.data_view().len(),
    {
        proof {
            lemma_entries_map(self.data@);
        }
        self.data.len()
    }

    /// The key-value entries, in the order the keys were first set.
    pub fn entries(&self) -> (r: &[(String, serde_json::Value)])
        ensures
            r@ == self.spec_entries(),
            self.wf() ==> keys_unique(r@) && entries_map(r@) == self.data_view(),
    {
        self.data.as_slice()
    }

    /// Removes `key`; fails with `NonExist` when it is not there.
    pub fn remove(&mut self, key: &str) -> (r: Result<(), Error>)
        requires
            old(self).wf(),
        ensures
            final(self).wf(),
            r is Ok <==> old(self).data_view().contains_key(key@),
            r is Err ==> r == Err::<(), Error>(Error::NonExist),
            final(self).data_view() == old(self).data_view().remove(key@),
            final(self).spec_net_list() == old(self).spec_net_list(),
    {
        proof {
            lemma_entries_map(self.data@);
        }
        match self.find(key) {
            Some(i) => {
                proof {
                    lemma_entries_map_remove(self.data@, i as int);
                }
                self.data.remove(i);
                Ok(())
            },
            None => {
                assert(old(self).data_view().remove(key@) =~= old(self).data_view());
                Err(Error::NonExist)
            },
        }
    }

    /// Sets `key` to `value`.
    pub fn insert_value(&mut self, key: String, value: serde_json::Value)
        requires
            old(self).wf(),
        ensures
            final(self).wf(),
            final(self).data_view() == old(self).data_view().insert(key@, value),
            final(self).spec_net_list() == old(self).spec_net_list(),
    {
        match self.find(key.as_str()) {
            Some(i) => {
                let ghost e = (key, value);
                proof {
                    lemma_entries_map_update(self.data@, i as int, e);
                }
                self.data.set(i, (key, value));
                assert(self.data@ == old(self).data@.update(i as int, e));
            },
            None => {
                let ghost e = (key, value);
                proof {
                    lemma_entries_map_push(self.data@, e);
                }
                self.data.push((key, value));
            },
        }
    }

    /// Removes `key` if it is there, giving back the value it had.
    pub fn remove_value(&mut self, key: &str) -> (r: Option<serde_json::Value>)
        requires
            old(self).wf(),
        ensures
            final(self).wf(),
            r is Some <==> old(self).data_view().contains_key(key@),
            r matches Some(v) ==> v == old(self).data_view()[key@],
            final(self).data_view() == old(self).data_view().remove(key@),
            final(self).spec_net_list() == old(self).spec_net_list(),
    {
        proof {
            lemma_entries_map(self.data@);
        }
        match self.find(key) {
            Some(i) => {
                proof {
                    lemma_entries_map_remove(self.data@, i as int);
                }
                let (_, v) = self.data.remove(i);
                Some(v)
            },
            None => {
                assert(old(self).data_view().remove(key@) =~= old(self).data_view());
                None
            },
        }
    }

    /// A copy of the value of `key`; fails with `NonExist` when it is not there.
    pub fn get_value(&self, key: &str) -> (r: Result<serde_json::Value, Error>)
        requires
            self.wf(),
        ensures
            r is Ok <==> self.data_view().contains_key(key@),
            r matches Ok(v) ==> v == self.data_view()[key@],
            r is Err ==> r == Err::<serde_json::Value, Error>(Error::NonExist),
    {
        match self.get(key) {
            Some(v) => Ok(v),
            None => Err(Error::NonExist),
        }
    }

    /// A copy of the value of `key`, if it is there.
    pub fn get(&self, key: &str) -> (r: Option<serde_json::Value>)
        requires
            self.wf(),
        ensures
            r is Some <==> self.data_view().contains_key(key@),
            r matches Some(v) ==> v == self.data_view()[key@],
    {
        proof {
            lemma_entries_map(self.data@);
        }
        match self.find(key) {
            Some(i) => Some(clone_json(&self.data[i].1)),
            None => None,
        }
    }

    /// Sets the key of `T` to `value`, the field in JSON form.
    pub fn insert_common<T: CommonField>(&mut self, value: serde_json::Value) -> (r: Result<
        (),
        Error,
    >)
        requires
            old(self).wf(),
        ensures
            final(self).wf(),
            r is Ok,
            final(self).data_view() == old(self).data_view().insert(T::KEY@, value),
            final(self).spec_net_list() == old(self).spec_net_list(),
    {
        self.insert_value(T::KEY.to_owned(), value);
        Ok(())
    }

    /// A copy of the value under the key of `T`, if it is there.
    pub fn get_common<T: CommonField>(&self) -> (r: Option<serde_json::Value>)
        requires
            self.wf(),
        ensures
            r is Some <==> self.data_view().contains_key(T::KEY@),
            r matches Some(v) ==> v == self.data_view()[T::KEY@],
    {
        self.get(T::KEY)
    }

    /// Records that the connection went through the net `net_name`.
    pub fn append_net(&mut self, net_name: &str)
        ensures
            final(self).spec_net_list().len() == old(self).spec_net_list().len() + 1,
            final(self).spec_net_list().take(old(self).spec_net_list().len() as int) == old(
                self,
            ).spec_net_list(),
            final(self).spec_net_list().last()@ == net_name@,
            final(self).spec_entries() == old(self).spec_entries(),
            final(self).wf() == old(self).wf(),
            final(self).data_view() == old(self).data_view(),
    {
        self.net_list.push(net_name.to_owned());
        assert(self.net_list@.take(old(self).net_list@.len() as int) =~= old(self).net_list@);
    }

    /// The names of the nets the connection went through, in order.
    pub fn net_list(&self) -> (r: &Vec<String>)
        ensures
            r@ == self.spec_net_list(),
    {
        &self.net_list
    }

    /// Takes the list of nets out, leaving it empty.
    pub fn take_net_list(&mut self) -> (r: Vec<String>)
        ensures
            r@ == old(self).spec_net_list(),
            final(self).spec_net_list() == Seq::<String>::empty(),
            final(self).spec_entries() == old(self).spec_entries(),
            final(self).wf() == old(self).wf(),
            final(self).data_view() == old(self).data_view(),
    {
        let mut taken: Vec<String> = Vec::new();
        std::mem::swap(&mut taken, &mut self.net_list);
        taken
    }
}

/// Law: a value read back under a key is the one last written under it, and writing
/// one key leaves every other key as it was.
pub proof fn law_context_read_after_write(
    data: Map<Seq<char>, serde_json::Value>,
    key: Seq<char>,
    value: serde_json::Value,
    other: Seq<char>,
)
    ensures
        data.insert(key, value).contains_key(key),
        data.insert(key, value)[key] == value,
        other != key ==> data.insert(key, value).contains_key(other) == data.contains_key(other),
        other != key && data.contains_key(other) ==> data.insert(key, value)[other] == data[other],
{
}

/// Law: once a key is removed it is gone, so a second removal fails with `NonExist`;
/// other keys stay.
pub proof fn law_context_remove(data: Map<Seq<char>, serde_json::Value>, key: Seq<char>, other: Seq<char>)
    ensures
        !data.remove(key).contains_key(key),
        other != key ==> data.remove(key).contains_key(other) == data.contains_key(other),
{
}

} // verus!
