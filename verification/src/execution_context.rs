//! The conversion registry: per runtime type key, a descriptor that can build
//! a native instance from nothing (field defaults), build one from a dynamic
//! payload, and project one back to a dynamic value.
//!
//! A descriptor is a field schema: the generated registration calls describe
//! each component type as an ordered list of named, tagged fields. A dynamic
//! payload is *shaped* for a type when it is a table with exactly those
//! fields, in order, each carrying the right tag.

use vstd::prelude::*;
use crate::dynamic::{
    spec_tag_of, DynValue, DynValueView, FieldTag, FieldValue, FieldValueView,
};
use crate::reflection::TypeKey;

verus! {

/// One field of a component type: its name, its tag, and its default value.
#[derive(Clone, Debug)]
pub struct FieldSchema {
    pub name: String,
    pub tag: FieldTag,
    pub default: FieldValue,
}

impl FieldSchema {
    /// The default value carries the field's own tag.
    pub open spec fn wf(&self) -> bool {
        spec_tag_of(self.default@) == self.tag
    }
}

/// A constructed native component instance: the values of its fields, in
/// schema order, under the type's runtime key.
#[derive(Clone, Debug)]
pub struct NativeInstance {
    pub key: TypeKey,
    pub values: Vec<FieldValue>,
}

/// Mathematical shape of a native instance.
#[verifier::ext_equal]
pub struct InstModel {
    pub key: TypeKey,
    pub values: Seq<FieldValueView>,
}

impl View for NativeInstance {
    type V = InstModel;

    open spec fn view(&self) -> InstModel {
        InstModel { key: self.key, values: self.values@.map_values(|v: FieldValue| v@) }
    }
}

/// The field table of a dynamic value, empty unless it is a table.
pub open spec fn table_pairs(v: DynValueView) -> Seq<(Seq<char>, FieldValueView)> {
    match v {
        DynValueView::Table(pairs) => pairs,
        _ => Seq::empty(),
    }
}

/// Whether position `j` of `pairs` carries the name that `fields` asks for.
pub open spec fn field_name_ok(
    fields: Seq<FieldSchema>,
    pairs: Seq<(Seq<char>, FieldValueView)>,
    j: int,
) -> bool {
    pairs[j].0 == fields[j].name@
}

/// Whether position `j` of `pairs` carries the tag that `fields` asks for.
pub open spec fn field_tag_ok(
    fields: Seq<FieldSchema>,
    pairs: Seq<(Seq<char>, FieldValueView)>,
    j: int,
) -> bool {
    spec_tag_of(pairs[j].1) == fields[j].tag
}

/// A dynamic payload is shaped for a field schema when it is a table with
/// exactly the schema's fields, in schema order, each with the right tag.
pub open spec fn is_shaped_for(fields: Seq<FieldSchema>, v: DynValueView) -> bool {
    &&& v is Table
    &&& table_pairs(v).len() == fields.len()
    &&& forall|j: int| 0 <= j < fields.len() ==> #[trigger] field_name_ok(fields, table_pairs(v), j)
    &&& forall|j: int| 0 <= j < fields.len() ==> #[trigger] field_tag_ok(fields, table_pairs(v), j)
}

/// The field values a dynamic payload carries, position by position.
pub open spec fn payload_values(v: DynValueView) -> Seq<FieldValueView> {
    table_pairs(v).map_values(|pr: (Seq<char>, FieldValueView)| pr.1)
}

/// A dynamic value projects field values under a schema: a table with the
/// schema's names, in order, over exactly those values.
pub open spec fn is_projection_of(
    fields: Seq<FieldSchema>,
    values: Seq<FieldValueView>,
    v: DynValueView,
) -> bool {
    &&& v is Table
    &&& table_pairs(v).len() == fields.len()
    &&& values.len() == fields.len()
    &&& forall|j: int| 0 <= j < fields.len() ==> #[trigger] field_name_ok(fields, table_pairs(v), j)
    &&& forall|j: int|
        0 <= j < fields.len() ==> (#[trigger] table_pairs(v)[j]).1 == values[j]
}

/// Why a dynamic payload was rejected by a conversion.
#[derive(Clone, Copy, PartialEq, Eq, Structural, Debug)]
pub enum ConversionError {
    /// The payload is not a table.
    NotATable,
    /// The payload's field count differs from the schema's.
    WrongFieldCount { expected: usize, got: usize },
    /// The first offending field carries the wrong name.
    FieldNameMismatch { index: usize },
    /// The first offending field carries the wrong tag.
    FieldTagMismatch { index: usize },
}

/// The first position at or after `from` whose name or tag differs from what
/// `fields` asks for, or `fields.len()`.
pub open spec fn first_bad_field_from(
    fields: Seq<FieldSchema>,
    pairs: Seq<(Seq<char>, FieldValueView)>,
    from: int,
) -> int
    decreases fields.len() - from,
{
    if from < 0 || from >= fields.len() {
        fields.len() as int
    } else if !field_name_ok(fields, pairs, from) || !field_tag_ok(fields, pairs, from) {
        from
    } else {
        first_bad_field_from(fields, pairs, from + 1)
    }
}

/// The rejection a payload earns under a schema: the shape is checked first,
/// then each field's name before its tag, in schema order.
pub open spec fn conversion_error_model(fields: Seq<FieldSchema>, v: DynValueView) -> ConversionError {
    if !(v is Table) {
        ConversionError::NotATable
    } else if table_pairs(v).len() != fields.len() {
        ConversionError::WrongFieldCount {
            expected: fields.len() as usize,
            got: table_pairs(v).len() as usize,
        }
    } else {
        let i = first_bad_field_from(fields, table_pairs(v), 0);
        if !field_name_ok(fields, table_pairs(v), i) {
            ConversionError::FieldNameMismatch { index: i as usize }
        } else {
            ConversionError::FieldTagMismatch { index: i as usize }
        }
    }
}

/// Deep copy of one field value.
pub fn duplicate_field_value(v: &FieldValue) -> (r: FieldValue)
    ensures
        r@ == v@,
{
    match v {
        FieldValue::Bool(b) => FieldValue::Bool(*b),
        FieldValue::Int(i) => FieldValue::Int(*i),
        FieldValue::Float(bits) => FieldValue::Float(*bits),
        FieldValue::Str(s) => FieldValue::Str(s.clone()),
    }
}

/// The conversion descriptor registered for one type: its runtime key and
/// its field schema. Default construction, construction from a dynamic
/// payload and projection back are all read off the schema.
#[derive(Clone, Debug)]
pub struct LuaReflectInit {
    pub key: TypeKey,
    pub fields: Vec<FieldSchema>,
}

impl NativeInstance {
    /// The instance fits the descriptor: same key, one value per field, each
    /// carrying its field's tag.
    pub open spec fn conforms(&self, entry: LuaReflectInit) -> bool {
        &&& self.key == entry.key
        &&& self.values@.len() == entry.fields@.len()
        &&& forall|j: int|
            0 <= j < self.values@.len() ==> spec_tag_of((#[trigger] self.values@[j])@)
                == entry.fields@[j].tag
    }
}

impl LuaReflectInit {
    /// Field names are distinct and every default value fits its tag.
    pub open spec fn wf(&self) -> bool {
        &&& forall|j: int| 0 <= j < self.fields@.len() ==> (#[trigger] self.fields@[j]).wf()
        &&& forall|i: int, j: int|
            0 <= i < j < self.fields@.len() ==> (#[trigger] self.fields@[i]).name@
                != (#[trigger] self.fields@[j]).name@
    }

    /// The field values of this descriptor's default instance.
    pub open spec fn default_values(&self) -> Seq<FieldValueView> {
        self.fields@.map_values(|f: FieldSchema| f.default@)
    }

    /// Builds the default instance: every field takes its default value.
    pub fn default(&self) -> (r: NativeInstance)
        ensures
            r@ == (InstModel { key: self.key, values: self.default_values() }),
            self.wf() ==> r.conforms(*self),
    {
        let n = self.fields.len();
        let mut values: Vec<FieldValue> = Vec::new();
        let mut i: usize = 0;
        while i < n
            invariant
                0 <= i <= n,
                n == self.fields@.len(),
                values@.len() == i,
                forall|j: int|
                    0 <= j < i ==> (#[trigger] values@[j])@ == self.fields@[j].default@,
            decreases n - i,
        {
            values.push(duplicate_field_value(&self.fields[i].default));
            i += 1;
        }
        let r = NativeInstance { key: self.key, values };
        proof {
            assert(r@.values =~= self.default_values());
        }
        r
    }

    /// Builds a native instance from a dynamic payload. Succeeds exactly on
    /// payloads shaped for this descriptor's schema and then takes the
    /// payload's field values as the instance's; each rejection names the
    /// first offence found, checking the shape first, then each field's name
    /// before its tag, in schema order.
    pub fn from_lua(&self, value: &DynValue) -> (r: Result<NativeInstance, ConversionError>)
        ensures
            r is Ok <==> is_shaped_for(self.fields@, value@),
            match r {
                Ok(inst) => inst@ == (InstModel {
                    key: self.key,
                    values: payload_values(value@),
                }),
                Err(e) => e == conversion_error_model(self.fields@, value@),
            },
    {
        match value {
            DynValue::Table(pairs) => {
                let ghost vp = table_pairs(value@);
                proof {
                    assert(vp =~= pairs@.map_values(|p: (String, FieldValue)| (p.0@, p.1@)));
                }
                let n = self.fields.len();
                if pairs.len() != n {
                    return Err(
                        ConversionError::WrongFieldCount { expected: n, got: pairs.len() },
                    );
                }
                let mut values: Vec<FieldValue> = Vec::new();
                let mut i: usize = 0;
                while i < n
                    invariant
                        0 <= i <= n,
                        n == self.fields@.len(),
                        n == pairs@.len(),
                        value@ is Table,
                        vp == table_pairs(value@),
                        vp == pairs@.map_values(|p: (String, FieldValue)| (p.0@, p.1@)),
                        values@.len() == i,
                        forall|j: int|
                            0 <= j < i ==> #[trigger] field_name_ok(self.fields@, vp, j),
                        forall|j: int| 0 <= j < i ==> #[trigger] field_tag_ok(self.fields@, vp, j),
                        forall|j: int| 0 <= j < i ==> (#[trigger] values@[j])@ == vp[j].1,
                        first_bad_field_from(self.fields@, vp, 0) == first_bad_field_from(
                            self.fields@,
                            vp,
                            i as int,
                        ),
                    decreases n - i,
                {
                    assert(vp[i as int] == (pairs@[i as int].0@, pairs@[i as int].1@));
                    if !(pairs[i].0 == self.fields[i].name) {
                        proof {
                            assert(!field_name_ok(self.fields@, vp, i as int));
                            assert(first_bad_field_from(self.fields@, vp, i as int) == i as int);
                        }
                        return Err(ConversionError::FieldNameMismatch { index: i });
                    }
                    assert(field_name_ok(self.fields@, vp, i as int));
                    let tag = pairs[i].1.tag();
                    if !(tag == self.fields[i].tag) {
                        proof {
                            assert(!field_tag_ok(self.fields@, vp, i as int));
                            assert(first_bad_field_from(self.fields@, vp, i as int) == i as int);
                        }
                        return Err(ConversionError::FieldTagMismatch { index: i });
                    }
                    assert(field_tag_ok(self.fields@, vp, i as int));
                    proof {
                        assert(first_bad_field_from(self.fields@, vp, i as int)
                            == first_bad_field_from(self.fields@, vp, i + 1));
                    }
                    values.push(duplicate_field_value(&pairs[i].1));
                    i += 1;
                }
                let inst = NativeInstance { key: self.key, values };
                proof {
                    assert(inst@.values =~= payload_values(value@));
                }
                Ok(inst)
            },
            _ => Err(ConversionError::NotATable),
        }
    }

    /// Projects a native instance back to a dynamic table: the schema's
    /// names, in order, over the instance's values.
    pub fn to_lua(&self, inst: &NativeInstance) -> (r: DynValue)
        requires
            inst.values@.len() == self.fields@.len(),
        ensures
            is_projection_of(self.fields@, inst@.values, r@),
    {
        let n = self.fields.len();
        let mut pairs: Vec<(String, FieldValue)> = Vec::new();
        let mut i: usize = 0;
        while i < n
            invariant
                0 <= i <= n,
                n == self.fields@.len(),
                n == inst.values@.len(),
                pairs@.len() == i,
                forall|j: int|
                    0 <= j < i ==> (#[trigger] pairs@[j]).0@ == self.fields@[j].name@
                        && pairs@[j].1@ == inst.values@[j]@,
            decreases n - i,
        {
            let name = self.fields[i].name.clone();
            let val = duplicate_field_value(&inst.values[i]);
            pairs.push((name, val));
            i += 1;
        }
        let r = DynValue::Table(pairs);
        proof {
            let rp = table_pairs(r@);
            assert forall|j: int| 0 <= j < n implies #[trigger] field_name_ok(
                self.fields@,
                rp,
                j,
            ) by {
                assert(rp[j] == (pairs@[j].0@, pairs@[j].1@));
            }
            assert forall|j: int| 0 <= j < n implies (#[trigger] rp[j]).1 == inst.values@[j]@ by {
                assert(rp[j] == (pairs@[j].0@, pairs@[j].1@));
            }
        }
        r
    }
}

/// The instance a registration constructs: the payload's field values when a
/// payload is given, the schema's defaults otherwise.
pub open spec fn constructed_instance(
    entry: LuaReflectInit,
    init: Option<DynValueView>,
) -> InstModel {
    match init {
        Some(v) => InstModel { key: entry.key, values: payload_values(v) },
        None => InstModel { key: entry.key, values: entry.default_values() },
    }
}

/// Round trip: a dynamic payload shaped for a schema, read into its field
/// values and projected back, yields a structurally equal dynamic value.
pub proof fn lemma_round_trip(fields: Seq<FieldSchema>, p: DynValueView, q: DynValueView)
    requires
        is_shaped_for(fields, p),
        is_projection_of(fields, payload_values(p), q),
    ensures
        q == p,
{
    let pp = table_pairs(p);
    let qp = table_pairs(q);
    assert forall|j: int| 0 <= j < pp.len() implies qp[j] == pp[j] by {
        assert(field_name_ok(fields, pp, j));
        assert(field_name_ok(fields, qp, j));
        assert(qp[j].1 == payload_values(p)[j]);
        assert(payload_values(p)[j] == pp[j].1);
    }
    assert(qp =~~= pp);
}

/// Whether entry `i` of `s` is registered under `key`.
pub open spec fn constructor_key_at(s: Seq<LuaReflectInit>, key: TypeKey, i: int) -> bool {
    s[i].key == key
}

/// The first descriptor at or after `from` registered under `key`, or `s.len()`.
pub open spec fn first_constructor_from(s: Seq<LuaReflectInit>, key: TypeKey, from: int) -> int
    decreases s.len() - from,
{
    if from < 0 || from >= s.len() {
        s.len() as int
    } else if constructor_key_at(s, key, from) {
        from
    } else {
        first_constructor_from(s, key, from + 1)
    }
}

/// The descriptor registered under `key`, if any.
pub open spec fn find_constructor(s: Seq<LuaReflectInit>, key: TypeKey) -> Option<LuaReflectInit> {
    let i = first_constructor_from(s, key, 0);
    if i < s.len() {
        Some(s[i])
    } else {
        None
    }
}

/// The registry after one registration: the descriptor replaces the one
/// sharing its key, or is appended.
pub open spec fn register_model(s: Seq<LuaReflectInit>, entry: LuaReflectInit) -> Seq<
    LuaReflectInit,
> {
    let i = first_constructor_from(s, entry.key, 0);
    if i < s.len() {
        s.update(i, entry)
    } else {
        s.push(entry)
    }
}

/// Holds one conversion descriptor per registered runtime type key. Written
/// once by generated bootstrap code at startup, read-only thereafter.
pub struct LuaReflectInitRegistry {
    constructors: Vec<LuaReflectInit>,
}

impl View for LuaReflectInitRegistry {
    type V = Seq<LuaReflectInit>;

    closed spec fn view(&self) -> Seq<LuaReflectInit> {
        self.constructors@
    }
}

impl LuaReflectInitRegistry {
    /// Exactly one descriptor per key, each well formed.
    pub open spec fn wf(&self) -> bool {
        &&& forall|i: int, j: int|
            0 <= i < j < self@.len() ==> (#[trigger] self@[i]).key != (#[trigger] self@[j]).key
        &&& forall|i: int| 0 <= i < self@.len() ==> (#[trigger] self@[i]).wf()
    }

    /// An empty registry.
    pub fn new() -> (r: LuaReflectInitRegistry)
        ensures
            r@ == Seq::<LuaReflectInit>::empty(),
            r.wf(),
    {
        LuaReflectInitRegistry { constructors: Vec::new() }
    }

    /// Registers a descriptor for its key. Re-registration of a key that is
    /// already present overwrites it: the last registration wins.
    pub fn register_constructor(&mut self, entry: LuaReflectInit)
        requires
            old(self).wf(),
            entry.wf(),
        ensures
            final(self).wf(),
            final(self)@ == register_model(old(self)@, entry),
    {
        let n = self.constructors.len();
        let mut i: usize = 0;
        while i < n
            invariant
                0 <= i <= n,
                *self == *old(self),
                old(self).wf(),
                entry.wf(),
                n == self.constructors@.len(),
                first_constructor_from(self@, entry.key, 0) == first_constructor_from(
                    self@,
                    entry.key,
                    i as int,
                ),
                forall|j: int| 0 <= j < i ==> !(#[trigger] constructor_key_at(old(self)@, entry.key, j)),
            decreases n - i,
        {
            if self.constructors[i].key == entry.key {
                proof {
                    assert(constructor_key_at(old(self)@, entry.key, i as int));
                    assert(first_constructor_from(old(self)@, entry.key, i as int) == i as int);
                }
                self.constructors.set(i, entry);
                proof {
                    let s0 = old(self)@;
                    let s1 = self@;
                    assert(s1 == s0.update(i as int, entry));
                    assert forall|a: int, b: int| 0 <= a < b < s1.len() implies (#[trigger] s1[a]).key
                        != (#[trigger] s1[b]).key by {
                        assert(s0[a].key != s0[b].key);
                    }
                    assert forall|a: int| 0 <= a < s1.len() implies (#[trigger] s1[a]).wf() by {
                        if a != i {
                            assert(s1[a] == s0[a]);
                        }
                    }
                }
                return ;
            }
            proof {
                assert(first_constructor_from(self@, entry.key, i as int)
                    == first_constructor_from(self@, entry.key, i + 1));
            }
            i += 1;
        }
        self.constructors.push(entry);
        proof {
            let s0 = old(self)@;
            let s1 = self@;
            assert forall|a: int, b: int| 0 <= a < b < s1.len() implies (#[trigger] s1[a]).key
                != (#[trigger] s1[b]).key by {
                if b < s0.len() {
                    assert(s1[a] == s0[a] && s1[b] == s0[b]);
                } else {
                    assert(s1[a] == s0[a]);
                    assert(!constructor_key_at(s0, entry.key, a));
                }
            }
            assert forall|a: int| 0 <= a < s1.len() implies (#[trigger] s1[a]).wf() by {
                if a < s0.len() {
                    assert(s1[a] == s0[a]);
                }
            }
        }
    }

    /// The descriptor registered for `key`, if any. Absence of a descriptor
    /// is the sole gate for exposing a type on the command surface.
    pub fn get_constructor(&self, key: TypeKey) -> (r: Option<&LuaReflectInit>)
        ensures
            match r {
                Some(entry) => find_constructor(self@, key) == Some(*entry),
                None => find_constructor(self@, key) is None,
            },
    {
        let n = self.constructors.len();
        let mut i: usize = 0;
        while i < n
            invariant
                0 <= i <= n,
                n == self.constructors@.len(),
                first_constructor_from(self@, key, 0) == first_constructor_from(
                    self@,
                    key,
                    i as int,
                ),
            decreases n - i,
        {
            if self.constructors[i].key == key {
                proof {
                    assert(constructor_key_at(self@, key, i as int));
                    assert(first_constructor_from(self@, key, i as int) == i as int);
                }
                return Some(&self.constructors[i]);
            }
            proof {
                assert(first_constructor_from(self@, key, i as int) == first_constructor_from(
                    self@,
                    key,
                    i + 1,
                ));
            }
            i += 1;
        }
        None
    }
}

} // verus!
