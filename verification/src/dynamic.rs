//! The dynamic value model: tagged values as the scripting runtime hands them
//! over, together with their mathematical views.
//!
//! Component payloads are flat records: a table maps field names to primitive
//! values. Floating-point numbers are carried as raw IEEE 754 bit patterns;
//! the bridge transports them unchanged and never computes with them.

use vstd::prelude::*;

verus! {

/// The tag of a primitive field value.
#[derive(Clone, Copy, PartialEq, Eq, Structural, Debug)]
pub enum FieldTag {
    Bool,
    Int,
    Float,
    Str,
}

/// A primitive value held by one component field.
#[derive(Clone, Debug)]
pub enum FieldValue {
    Bool(bool),
    Int(i64),
    /// Raw IEEE 754 double bits.
    Float(u64),
    Str(String),
}

/// Mathematical shape of a `FieldValue`: strings become character sequences.
pub enum FieldValueView {
    Bool(bool),
    Int(i64),
    Float(u64),
    Str(Seq<char>),
}

impl View for FieldValue {
    type V = FieldValueView;

    open spec fn view(&self) -> FieldValueView {
        match self {
            FieldValue::Bool(b) => FieldValueView::Bool(*b),
            FieldValue::Int(i) => FieldValueView::Int(*i),
            FieldValue::Float(bits) => FieldValueView::Float(*bits),
            FieldValue::Str(s) => FieldValueView::Str(s@),
        }
    }
}

/// The tag a field value carries.
pub open spec fn spec_tag_of(v: FieldValueView) -> FieldTag {
    match v {
        FieldValueView::Bool(_) => FieldTag::Bool,
        FieldValueView::Int(_) => FieldTag::Int,
        FieldValueView::Float(_) => FieldTag::Float,
        FieldValueView::Str(_) => FieldTag::Str,
    }
}

impl FieldValue {
    /// Returns this value's tag.
    pub fn tag(&self) -> (t: FieldTag)
        ensures
            t == spec_tag_of(self@),
    {
        match self {
            FieldValue::Bool(_) => FieldTag::Bool,
            FieldValue::Int(_) => FieldTag::Int,
            FieldValue::Float(_) => FieldTag::Float,
            FieldValue::Str(_) => FieldTag::Str,
        }
    }
}

/// Structural equality of two field values.
pub fn field_value_eq(a: &FieldValue, b: &FieldValue) -> (r: bool)
    ensures
        r == (a@ == b@),
{
    match (a, b) {
        (FieldValue::Bool(x), FieldValue::Bool(y)) => x == y,
        (FieldValue::Int(x), FieldValue::Int(y)) => x == y,
        (FieldValue::Float(x), FieldValue::Float(y)) => x == y,
        (FieldValue::Str(x), FieldValue::Str(y)) => *x == *y,
        _ => false,
    }
}

/// A tagged dynamic value as the scripting runtime supplies it: nil, a
/// primitive, or a table of named primitive fields in a fixed order.
#[derive(Clone, Debug)]
pub enum DynValue {
    Nil,
    Bool(bool),
    Int(i64),
    /// Raw IEEE 754 double bits.
    Float(u64),
    Str(String),
    Table(Vec<(String, FieldValue)>),
}

/// Mathematical shape of a `DynValue`.
pub enum DynValueView {
    Nil,
    Bool(bool),
    Int(i64),
    Float(u64),
    Str(Seq<char>),
    Table(Seq<(Seq<char>, FieldValueView)>),
}

impl View for DynValue {
    type V = DynValueView;

    open spec fn view(&self) -> DynValueView {
        match self {
            DynValue::Nil => DynValueView::Nil,
            DynValue::Bool(b) => DynValueView::Bool(*b),
            DynValue::Int(i) => DynValueView::Int(*i),
            DynValue::Float(bits) => DynValueView::Float(*bits),
            DynValue::Str(s) => DynValueView::Str(s@),
            DynValue::Table(pairs) => DynValueView::Table(
                pairs@.map_values(|p: (String, FieldValue)| (p.0@, p.1@)),
            ),
        }
    }
}

/// The view of an optional payload handed over by reference.
pub open spec fn init_view(o: Option<&DynValue>) -> Option<DynValueView> {
    match o {
        Some(v) => Some(v@),
        None => None,
    }
}

/// The view of an optional owned payload.
pub open spec fn opt_dyn_view(o: Option<DynValue>) -> Option<DynValueView> {
    match o {
        Some(v) => Some(v@),
        None => None,
    }
}

/// Structural equality of two dynamic values.
pub fn dyn_value_eq(a: &DynValue, b: &DynValue) -> (r: bool)
    ensures
        r == (a@ == b@),
{
    match (a, b) {
        (DynValue::Nil, DynValue::Nil) => true,
        (DynValue::Bool(x), DynValue::Bool(y)) => x == y,
        (DynValue::Int(x), DynValue::Int(y)) => x == y,
        (DynValue::Float(x), DynValue::Float(y)) => x == y,
        (DynValue::Str(x), DynValue::Str(y)) => *x == *y,
        (DynValue::Table(xs), DynValue::Table(ys)) => table_eq(xs, ys),
        _ => false,
    }
}

/// Structural equality of two field tables: same length, and the same name
/// and value at every position.
fn table_eq(xs: &Vec<(String, FieldValue)>, ys: &Vec<(String, FieldValue)>) -> (r: bool)
    ensures
        r == (xs@.map_values(|p: (String, FieldValue)| (p.0@, p.1@))
            == ys@.map_values(|p: (String, FieldValue)| (p.0@, p.1@))),
{
    let ghost xv = xs@.map_values(|p: (String, FieldValue)| (p.0@, p.1@));
    let ghost yv = ys@.map_values(|p: (String, FieldValue)| (p.0@, p.1@));
    if xs.len() != ys.len() {
        assert(xv.len() != yv.len());
        return false;
    }
    let n = xs.len();
    let mut i: usize = 0;
    while i < n
        invariant
            0 <= i <= n,
            n == xs@.len(),
            n == ys@.len(),
            xv == xs@.map_values(|p: (String, FieldValue)| (p.0@, p.1@)),
            yv == ys@.map_values(|p: (String, FieldValue)| (p.0@, p.1@)),
            forall|j: int| 0 <= j < i ==> xv[j] == yv[j],
        decreases n - i,
    {
        let name_eq = xs[i].0 == ys[i].0;
        let value_eq = field_value_eq(&xs[i].1, &ys[i].1);
        if !name_eq || !value_eq {
            assert(xv[i as int] != yv[i as int]);
            return false;
        }
        assert(xv[i as int] == yv[i as int]);
        i += 1;
    }
    assert(xv =~= yv);
    true
}

} // verus!
