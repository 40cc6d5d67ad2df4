//! The registry of discovered devices, by name, in name order.

use vstd::prelude::*;
use vstd::string::*;
use crate::text::{lex_less, str_eq, str_less, lemma_lex_less_total};
use crate::fs::tmpfs::{
    dir_lookup, sorted_names, entry_names, strings_view, lemma_dir_lookup_exact, lemma_sorted_insert,
};

verus! {

/// Devices (each held as `D`) by name.
pub struct DeviceRegistry<D> {
    /// The devices, sorted by name, each name once.
    devices: Vec<(String, D)>,
}

/// The entries of `v` as (name, device) pairs.
pub open spec fn registry_entries<D>(v: Seq<(String, D)>) -> Seq<(Seq<char>, D)> {
    v.map_values(|e: (String, D)| (e.0@, e.1))
}

/// Replacing the device of the entry at `k` keeps the names sorted and
/// changes what that name finds, and nothing else.
proof fn lemma_sorted_update<D>(es: Seq<(Seq<char>, D)>, k: int, v: D)
    requires
        sorted_names(es),
        0 <= k < es.len(),
    ensures
        sorted_names(es.update(k, (es[k].0, v))),
        forall|m: Seq<char>|
            #[trigger] dir_lookup(es.update(k, (es[k].0, v)), m) == if m == es[k].0 {
                Some(v)
            } else {
                dir_lookup(es, m)
            },
{
    let e = es.update(k, (es[k].0, v));
    assert forall|i: int, j: int| 0 <= i < j < e.len() implies lex_less(#[trigger] e[i].0, #[trigger] e[j].0) by {
        assert(e[i].0 == es[i].0);
        assert(e[j].0 == es[j].0);
    }
    assert forall|m: Seq<char>| #[trigger] dir_lookup(e, m) == if m == es[k].0 {
        Some(v)
    } else {
        dir_lookup(es, m)
    } by {
        lemma_dir_lookup_exact(e, m);
        lemma_dir_lookup_exact(es, m);
        if m != es[k].0 {
            assert forall|i: int| 0 <= i < es.len() implies (e[i].0 == m) == (es[i].0 == m) && (e[i].0 == m ==> e[i].1 == es[i].1) by {
                if i == k {
                } else {
                    assert(e[i] == es[i]);
                }
            }
            match dir_lookup(es, m) {
                Some(x) => {
                    let i = choose|i: int| 0 <= i < es.len() && es[i].0 == m && es[i].1 == x;
                    assert(e[i].0 == m);
                },
                None => {
                    match dir_lookup(e, m) {
                        Some(y) => {
                            let i = choose|i: int| 0 <= i < e.len() && e[i].0 == m && e[i].1 == y;
                            assert(es[i].0 == m);
                        },
                        None => {},
                    }
                },
            }
        } else {
            assert(e[k].0 == m);
        }
    }
}

impl<D> DeviceRegistry<D> {
    /// The (name, device) pairs, in name order.
    pub closed spec fn entries(&self) -> Seq<(Seq<char>, D)> {
        registry_entries(self.devices@)
    }

    /// Names are strictly increasing.
    pub open spec fn wf(&self) -> bool {
        sorted_names(self.entries())
    }

    /// An empty registry.
    pub fn new() -> (r: Self)
        ensures
            r.wf(),
            r.entries() == Seq::<(Seq<char>, D)>::empty(),
    {
        let r = DeviceRegistry { devices: Vec::new() };
        assert(r.entries() =~= Seq::<(Seq<char>, D)>::empty());
        r
    }

    /// Where `name` is, or where it belongs, and whether it is there.
    fn position(&self, name: &str) -> (r: (usize, bool))
        requires
            self.wf(),
        ensures
            r.0 <= self.entries().len(),
            r.1 ==> r.0 < self.entries().len() && self.entries()[r.0 as int].0 == name@,
            !r.1 ==> (forall|i: int| 0 <= i < r.0 ==> lex_less(#[trigger] self.entries()[i].0, name@))
                && (forall|i: int| r.0 <= i < self.entries().len() ==> lex_less(name@, #[trigger] self.entries()[i].0)),
    {
        let ghost es = self.entries();
        let mut k: usize = 0;
        while k < self.devices.len()
            invariant
                es == self.entries(),
                self.wf(),
                k <= self.devices@.len(),
                es.len() == self.devices@.len(),
                forall|i: int| 0 <= i < k ==> lex_less(#[trigger] es[i].0, name@),
            decreases self.devices@.len() - k,
        {
            let entry_name = self.devices[k].0.as_str();
            assert(es[k as int].0 == entry_name@);
            if str_eq(name, entry_name) {
                return (k, true);
            }
            if str_less(name, entry_name) {
                assert forall|i: int| k <= i < es.len() implies lex_less(name@, #[trigger] es[i].0) by {
                    if i > k {
                        assert(lex_less(es[k as int].0, es[i].0));
                        crate::text::lemma_lex_less_trans(name@, es[k as int].0, es[i].0);
                    }
                }
                return (k, false);
            }
            proof {
                lemma_lex_less_total(name@, entry_name@);
            }
            k = k + 1;
        }
        (k, false)
    }

    /// Register `device` under `name`, replacing a device of that name.
    pub fn register(&mut self, name: String, device: D)
        requires
            old(self).wf(),
        ensures
            final(self).wf(),
            forall|m: Seq<char>|
                #[trigger] dir_lookup(final(self).entries(), m) == if m == name@ {
                    Some(device)
                } else {
                    dir_lookup(old(self).entries(), m)
                },
    {
        let ghost es = self.entries();
        let (k, found) = self.position(name.as_str());
        let ghost n = name@;
        if found {
            self.devices.set(k, (name, device));
            proof {
                lemma_sorted_update(es, k as int, device);
                assert(self.entries() =~= es.update(k as int, (es[k as int].0, device)));
            }
        } else {
            self.devices.insert(k, (name, device));
            proof {
                lemma_sorted_insert(es, k as int, n, device);
                assert(self.entries() =~= es.insert(k as int, (n, device)));
            }
        }
    }

    /// The device registered under `name`.
    pub fn get(&self, name: &str) -> (r: Option<&D>)
        requires
            self.wf(),
        ensures
            match dir_lookup(self.entries(), name@) {
                Some(d) => r matches Some(x) && *x == d,
                None => r is None,
            },
    {
        let (k, found) = self.position(name);
        proof {
            lemma_dir_lookup_exact(self.entries(), name@);
        }
        if found {
            Some(&self.devices[k].1)
        } else {
            proof {
                assert forall|i: int| 0 <= i < self.entries().len() implies self.entries()[i].0 != name@ by {
                    if i < k {
                        assert(lex_less(self.entries()[i].0, name@));
                    } else {
                        assert(lex_less(name@, self.entries()[i].0));
                    }
                    lemma_lex_less_total(name@, name@);
                }
            }
            None
        }
    }

    /// The registered names, in order.
    pub fn list(&self) -> (r: Vec<String>)
        ensures
            strings_view(r@) == entry_names(self.entries()),
    {
        let mut names: Vec<String> = Vec::new();
        let mut k: usize = 0;
        while k < self.devices.len()
            invariant
                k <= self.devices@.len(),
                strings_view(names@) == entry_names(self.entries()).take(k as int),
            decreases self.devices@.len() - k,
        {
            let ghost prev = names@;
            names.push(self.devices[k].0.clone());
            assert(strings_view(names@) =~= strings_view(prev).push(self.devices@[k as int].0@));
            assert(entry_names(self.entries()).take(k + 1) =~= entry_names(self.entries()).take(k as int).push(self.entries()[k as int].0));
            k = k + 1;
        }
        assert(entry_names(self.entries()).take(self.devices@.len() as int) =~= entry_names(self.entries()));
        names
    }
}

/// A device registered under a name is what `get` then finds under that
/// name, and every other name finds what it found before: `after` holds
/// what `register(name, device)` makes of `before`.
pub proof fn lemma_register_then_get<D>(
    before: DeviceRegistry<D>,
    after: DeviceRegistry<D>,
    name: Seq<char>,
    device: D,
    other: Seq<char>,
)
    requires
        forall|m: Seq<char>|
            #[trigger] dir_lookup(after.entries(), m) == if m == name {
                Some(device)
            } else {
                dir_lookup(before.entries(), m)
            },
    ensures
        dir_lookup(after.entries(), name) == Some(device),
        other != name ==> dir_lookup(after.entries(), other) == dir_lookup(before.entries(), other),
{
    assert(dir_lookup(after.entries(), name) == Some(device));
    assert(dir_lookup(after.entries(), other) == if other == name {
        Some(device)
    } else {
        dir_lookup(before.entries(), other)
    });
}

} // verus!
