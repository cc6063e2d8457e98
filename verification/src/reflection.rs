//! The type registry: stable type names (full and short form) mapped to an
//! opaque runtime type key, and back.
//!
//! Registration happens once at startup; afterwards the registry is only read.
//! Lookup by full path takes priority over lookup by short path.

use vstd::prelude::*;

verus! {

/// Opaque, process-stable identifier for a registered native type.
#[derive(Clone, Copy, PartialEq, Eq, Structural, Debug, Hash)]
pub struct TypeKey(pub u64);

/// One registered type: its stable names and its runtime key.
#[derive(Clone, Debug)]
pub struct TypeRegistration {
    pub full_path: String,
    pub short_path: String,
    pub key: TypeKey,
}

/// Whether entry `i` of `s` carries `name` as its full path.
pub open spec fn full_match_at(s: Seq<TypeRegistration>, name: Seq<char>, i: int) -> bool {
    s[i].full_path@ == name
}

/// Whether entry `i` of `s` carries `name` as its short path.
pub open spec fn short_match_at(s: Seq<TypeRegistration>, name: Seq<char>, i: int) -> bool {
    s[i].short_path@ == name
}

/// Whether entry `i` of `s` carries the key `key`.
pub open spec fn key_at(s: Seq<TypeRegistration>, key: TypeKey, i: int) -> bool {
    s[i].key == key
}

/// The first entry at or after `from` whose full path is `name`, or `s.len()`.
pub open spec fn first_full_from(s: Seq<TypeRegistration>, name: Seq<char>, from: int) -> int
    decreases s.len() - from,
{
    if from < 0 || from >= s.len() {
        s.len() as int
    } else if full_match_at(s, name, from) {
        from
    } else {
        first_full_from(s, name, from + 1)
    }
}

/// The first entry at or after `from` whose short path is `name`, or `s.len()`.
pub open spec fn first_short_from(s: Seq<TypeRegistration>, name: Seq<char>, from: int) -> int
    decreases s.len() - from,
{
    if from < 0 || from >= s.len() {
        s.len() as int
    } else if short_match_at(s, name, from) {
        from
    } else {
        first_short_from(s, name, from + 1)
    }
}

/// The first entry at or after `from` carrying `key`, or `s.len()`.
pub open spec fn first_key_from(s: Seq<TypeRegistration>, key: TypeKey, from: int) -> int
    decreases s.len() - from,
{
    if from < 0 || from >= s.len() {
        s.len() as int
    } else if key_at(s, key, from) {
        from
    } else {
        first_key_from(s, key, from + 1)
    }
}

/// What a name resolves to: the key of the first entry whose full path is
/// `name`, else of the first whose short path is, else nothing.
pub open spec fn resolve_key(s: Seq<TypeRegistration>, name: Seq<char>) -> Option<TypeKey> {
    let f = first_full_from(s, name, 0);
    if f < s.len() {
        Some(s[f].key)
    } else {
        let sh = first_short_from(s, name, 0);
        if sh < s.len() {
            Some(s[sh].key)
        } else {
            None
        }
    }
}

/// The full path registered for `key`: that of the first entry carrying it.
pub open spec fn path_of_key(s: Seq<TypeRegistration>, key: TypeKey) -> Option<Seq<char>> {
    let i = first_key_from(s, key, 0);
    if i < s.len() {
        Some(s[i].full_path@)
    } else {
        None
    }
}

/// Maps stable type names to runtime type keys. Built once by generated
/// registration calls before any command is processed.
pub struct TypeRegistry {
    entries: Vec<TypeRegistration>,
}

impl View for TypeRegistry {
    type V = Seq<TypeRegistration>;

    closed spec fn view(&self) -> Seq<TypeRegistration> {
        self.entries@
    }
}

impl TypeRegistry {
    /// Keys are unique per distinct type and full paths name one type each;
    /// short paths may collide, and then the first registration wins lookup.
    pub open spec fn wf(&self) -> bool {
        forall|i: int, j: int|
            0 <= i < j < self@.len() ==> #[trigger] self@[i].key != #[trigger] self@[j].key
                && self@[i].full_path@ != self@[j].full_path@
    }

    /// An empty registry.
    pub fn new() -> (r: TypeRegistry)
        ensures
            r@ == Seq::<TypeRegistration>::empty(),
            r.wf(),
    {
        TypeRegistry { entries: Vec::new() }
    }

    /// Adds one registration. A key or a full path that is already present is
    /// refused, so that keys stay unique and are never reused across types.
    pub fn register_type(&mut self, full_path: String, short_path: String, key: TypeKey) -> (added:
        bool)
        requires
            old(self).wf(),
        ensures
            final(self).wf(),
            added == (forall|i: int|
                0 <= i < old(self)@.len() ==> !key_at(old(self)@, key, i) && !full_match_at(
                    old(self)@,
                    full_path@,
                    i,
                )),
            added ==> final(self)@ == old(self)@.push(
                TypeRegistration { full_path, short_path, key },
            ),
            !added ==> final(self)@ == old(self)@,
    {
        let n = self.entries.len();
        let mut i: usize = 0;
        while i < n
            invariant
                0 <= i <= n,
                *self == *old(self),
                old(self).wf(),
                n == self.entries@.len(),
                forall|j: int| 0 <= j < i ==> !(#[trigger] key_at(self.entries@, key, j)),
                forall|j: int|
                    0 <= j < i ==> !(#[trigger] full_match_at(self.entries@, full_path@, j)),
            decreases n - i,
        {
            if self.entries[i].key == key || self.entries[i].full_path == full_path {
                proof {
                    assert(key_at(old(self)@, key, i as int) || full_match_at(
                        old(self)@,
                        full_path@,
                        i as int,
                    ));
                }
                return false;
            }
            i += 1;
        }
        self.entries.push(TypeRegistration { full_path, short_path, key });
        proof {
            let s0 = old(self)@;
            let s1 = self@;
            assert forall|a: int, b: int| 0 <= a < b < s1.len() implies s1[a].key != s1[b].key
                && s1[a].full_path@ != s1[b].full_path@ by {
                if b < s0.len() {
                    assert(s1[a] == s0[a] && s1[b] == s0[b]);
                } else {
                    assert(s1[a] == s0[a]);
                    assert(!key_at(s0, key, a));
                    assert(!full_match_at(s0, full_path@, a));
                }
            }
        }
        true
    }

    /// How many types are registered.
    pub fn len(&self) -> (r: usize)
        ensures
            r == self@.len(),
    {
        self.entries.len()
    }

    /// Borrows the registration at position `i`, in registration order.
    pub fn registration_at(&self, i: usize) -> (r: &TypeRegistration)
        requires
            i < self@.len(),
        ensures
            *r == self@[i as int],
    {
        &self.entries[i]
    }

    /// The full path of the type behind `key`, if any type carries it.
    pub fn full_path_of(&self, key: TypeKey) -> (r: Option<&String>)
        ensures
            match r {
                Some(path) => path_of_key(self@, key) == Some(path@),
                None => path_of_key(self@, key) is None,
            },
    {
        let n = self.entries.len();
        let mut i: usize = 0;
        while i < n
            invariant
                0 <= i <= n,
                n == self.entries@.len(),
                first_key_from(self@, key, 0) == first_key_from(self@, key, i as int),
            decreases n - i,
        {
            if self.entries[i].key == key {
                proof {
                    assert(key_at(self@, key, i as int));
                    assert(first_key_from(self@, key, i as int) == i as int);
                }
                return Some(&self.entries[i].full_path);
            }
            proof {
                assert(first_key_from(self@, key, i as int) == first_key_from(self@, key, i + 1));
            }
            i += 1;
        }
        None
    }
}

/// Resolves a type name to its runtime key: the first registration whose full
/// path is `name`, else the first whose short path is `name`, else
/// nothing. Failure to resolve is not an error at this layer.
pub fn get_type_id_by_str(name: &str, type_registry: &TypeRegistry) -> (r: Option<TypeKey>)
    ensures
        r == resolve_key(type_registry@, name@),
{
    let owned: String = name.to_owned();
    let n = type_registry.entries.len();
    let mut i: usize = 0;
    while i < n
        invariant
            0 <= i <= n,
            owned@ == name@,
            n == type_registry@.len(),
            first_full_from(type_registry@, name@, 0) == first_full_from(
                type_registry@,
                name@,
                i as int,
            ),
        decreases n - i,
    {
        if type_registry.entries[i].full_path == owned {
            proof {
                assert(full_match_at(type_registry@, name@, i as int));
                assert(first_full_from(type_registry@, name@, i as int) == i as int);
            }
            return Some(type_registry.entries[i].key);
        }
        proof {
            assert(first_full_from(type_registry@, name@, i as int) == first_full_from(
                type_registry@,
                name@,
                i + 1,
            ));
        }
        i += 1;
    }
    let mut i: usize = 0;
    while i < n
        invariant
            0 <= i <= n,
            owned@ == name@,
            n == type_registry@.len(),
            first_full_from(type_registry@, name@, 0) == n as int,
            first_short_from(type_registry@, name@, 0) == first_short_from(
                type_registry@,
                name@,
                i as int,
            ),
        decreases n - i,
    {
        if type_registry.entries[i].short_path == owned {
            proof {
                assert(short_match_at(type_registry@, name@, i as int));
                assert(first_short_from(type_registry@, name@, i as int) == i as int);
            }
            return Some(type_registry.entries[i].key);
        }
        proof {
            assert(first_short_from(type_registry@, name@, i as int) == first_short_from(
                type_registry@,
                name@,
                i + 1,
            ));
        }
        i += 1;
    }
    None
}

} // verus!
