use vstd::prelude::*;

use crate::table::Table;
use crate::text::{chars_of, push_range, string_of};

verus! {

/// The key a stored text goes under: the app's own prefix, then the name.
pub open spec fn storage_key(name: Seq<char>) -> Seq<char> {
    "antenna-toolbox/"@ + name
}

/// The key a stored text goes under, `antenna-toolbox/` and the name.
pub fn key(name: &str) -> (out: String)
    ensures
        out@ == storage_key(name@),
{
    let mut out = string_of("antenna-toolbox/");
    let n = chars_of(name);
    push_range(&mut out, &n, 0, n.len());
    assert(n@.subrange(0, n@.len() as int) =~= n@);
    out
}

/// The texts the app keeps between runs, each under the key of its name.
/// The app writes every change through to its disk or browser storage.
pub struct Store {
    texts: Table,
}

impl Store {
    /// The stored texts, by key.
    pub closed spec fn view(&self) -> Map<Seq<char>, Seq<char>> {
        self.texts.view()
    }

    /// A store with nothing in it.
    pub fn new() -> (s: Store)
        ensures
            s.view() == Map::<Seq<char>, Seq<char>>::empty(),
    {
        Store { texts: Table::new() }
    }
}

/// The text stored under `name`, if there is one.
pub fn read(store: &Store, name: &str) -> (r: Option<String>)
    ensures
        match r {
            Some(t) => store.view().dom().contains(storage_key(name@)) && t@ == store.view()[storage_key(
                name@,
            )],
            None => !store.view().dom().contains(storage_key(name@)),
        },
{
    let k = key(name);
    store.texts.get(k.as_str())
}

/// Stores `text` under `name`, replacing what was there.
pub fn write(store: &mut Store, name: &str, text: &str)
    ensures
        final(store).view() == old(store).view().insert(storage_key(name@), text@),
{
    let k = key(name);
    let t = string_of(text);
    store.texts.insert(k, t);
}

/// Forgets whatever is stored under `name`.
pub fn remove(store: &mut Store, name: &str)
    ensures
        final(store).view() == old(store).view().remove(storage_key(name@)),
{
    let k = key(name);
    store.texts.remove(k.as_str());
}

/// Different names go under different keys.
pub proof fn keys_differ(a: Seq<char>, b: Seq<char>)
    requires
        a != b,
    ensures
        storage_key(a) != storage_key(b),
{
    let p = "antenna-toolbox/"@;
    if storage_key(a) == storage_key(b) {
        assert((p + a).skip(p.len() as int) =~= a);
        assert((p + b).skip(p.len() as int) =~= b);
    }
}

/// A read gives back what the last write under the same name wrote, and a
/// write under one name leaves what every other name reads alone.
pub proof fn read_after_write(m: Map<Seq<char>, Seq<char>>, name: Seq<char>, text: Seq<char>, other: Seq<char>)
    requires
        other != name,
    ensures
        m.insert(storage_key(name), text).dom().contains(storage_key(name)),
        m.insert(storage_key(name), text)[storage_key(name)] == text,
        m.insert(storage_key(name), text).dom().contains(storage_key(other)) == m.dom().contains(
            storage_key(other),
        ),
        m.insert(storage_key(name), text)[storage_key(other)] == m[storage_key(other)],
{
    keys_differ(name, other);
}

/// After a removal, nothing is read under that name, and every other name
/// reads what it did before.
pub proof fn read_after_remove(m: Map<Seq<char>, Seq<char>>, name: Seq<char>, other: Seq<char>)
    requires
        other != name,
    ensures
        !m.remove(storage_key(name)).dom().contains(storage_key(name)),
        m.remove(storage_key(name)).dom().contains(storage_key(other)) == m.dom().contains(
            storage_key(other),
        ),
        m.remove(storage_key(name))[storage_key(other)] == m[storage_key(other)],
{
    keys_differ(name, other);
}

/// Every key is the app's prefix `antenna-toolbox/` followed by the name,
/// whatever the name.
pub proof fn keys_carry_the_prefix(name: Seq<char>)
    ensures
        storage_key(name).len() == 16 + name.len(),
        storage_key(name).take(16) == seq!['a', 'n', 't', 'e', 'n', 'n', 'a', '-', 't', 'o', 'o', 'l', 'b', 'o', 'x', '/'],
        storage_key(name).skip(16) == name,
{
    reveal_strlit("antenna-toolbox/");
    assert(storage_key(name).take(16) =~= seq!['a', 'n', 't', 'e', 'n', 'n', 'a', '-', 't', 'o', 'o', 'l', 'b', 'o', 'x', '/']);
    assert(storage_key(name).skip(16) =~= name);
}

} // verus!
