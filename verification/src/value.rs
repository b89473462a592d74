//! Stored values and the shared, immutable snapshots that reads hand out.

use vstd::prelude::*;

use crate::locator::{RawVc, ValueTypeId};

verus! {

/// A value that a cell can hold. Cell contents are immutable once created.
pub enum Value {
    Unit,
    U64(u64),
    Text(String),
    /// A path into a syntax tree, as the sequence of child positions taken.
    Path(Vec<usize>),
    /// An identifier-replacement instruction: the replacement text and a
    /// handle to the tree path it applies to.
    Ident { value: String, path: RawVc },
}

/// The mathematical content of a [`Value`]: what two cells must agree on to
/// count as holding the same value.
pub enum ValueV {
    Unit,
    U64(u64),
    Text(Seq<char>),
    Path(Seq<usize>),
    Ident { value: Seq<char>, path: RawVc },
}

impl View for Value {
    type V = ValueV;

    open spec fn view(&self) -> ValueV {
        match self {
            Value::Unit => ValueV::Unit,
            Value::U64(n) => ValueV::U64(*n),
            Value::Text(s) => ValueV::Text(s@),
            Value::Path(p) => ValueV::Path(p@),
            Value::Ident { value, path } => ValueV::Ident { value: value@, path: *path },
        }
    }
}

/// Element-wise equality of two position vectors.
fn usize_vec_eq(a: &Vec<usize>, b: &Vec<usize>) -> (r: bool)
    ensures
        r == (a@ == b@),
{
    if a.len() != b.len() {
        proof {
            assert(a@.len() != b@.len());
        }
        return false;
    }
    let mut i: usize = 0;
    while i < a.len()
        invariant
            i <= a.len(),
            a@.len() == b@.len(),
            forall|j: int| 0 <= j < i ==> a@[j] == b@[j],
        decreases a.len() - i,
    {
        if a[i] != b[i] {
            return false;
        }
        i += 1;
    }
    proof {
        assert(a@ =~= b@);
    }
    true
}

/// Observable equality of two values: equality of their views. This is the
/// comparison the dedup-by-equality cell-update mode uses.
pub fn value_eq(a: &Value, b: &Value) -> (r: bool)
    ensures
        r == (a@ == b@),
{
    match (a, b) {
        (Value::Unit, Value::Unit) => true,
        (Value::U64(x), Value::U64(y)) => x == y,
        (Value::Text(x), Value::Text(y)) => *x == *y,
        (Value::Path(x), Value::Path(y)) => usize_vec_eq(x, y),
        (
            Value::Ident { value: xv, path: xp },
            Value::Ident { value: yv, path: yp },
        ) => *xv == *yv && *xp == *yp,
        _ => false,
    }
}

/// Element-wise copy of a position vector.
pub fn dup_usize_vec(p: &Vec<usize>) -> (r: Vec<usize>)
    ensures
        r@ == p@,
{
    let mut q: Vec<usize> = Vec::new();
    let mut i: usize = 0;
    while i < p.len()
        invariant
            i <= p.len(),
            q@ == p@.subrange(0, i as int),
        decreases p.len() - i,
    {
        q.push(p[i]);
        i += 1;
    }
    proof {
        assert(q@ =~= p@);
    }
    q
}

/// Deep copy of a value, preserving its view.
pub fn value_dup(v: &Value) -> (r: Value)
    ensures
        r@ == v@,
{
    match v {
        Value::Unit => Value::Unit,
        Value::U64(n) => Value::U64(*n),
        Value::Text(s) => Value::Text(s.clone()),
        Value::Path(p) => Value::Path(dup_usize_vec(p)),
        Value::Ident { value, path } => Value::Ident { value: value.clone(), path: *path },
    }
}

// What a shared allocation holds. Contents of one allocation never change:
// every handle to it sees the value it was created with.
pub uninterp spec fn arc_value(a: triomphe::Arc<Value>) -> Value;

// The identity of the allocation behind a shared handle. Two handles obtained
// by cloning one another carry the same identity; `arc_ptr_eq` decides it.
pub uninterp spec fn arc_id(a: triomphe::Arc<Value>) -> int;

#[verifier::external_type_specification]
#[verifier::external_body]
#[verifier::reject_recursive_types(T)]
pub struct ExArc<T: ?Sized>(triomphe::Arc<T>);

/// Relies on `triomphe::Arc::new`: the fresh allocation holds exactly the
/// value it was given.
#[verifier::external_body]
pub fn arc_new(v: Value) -> (a: triomphe::Arc<Value>)
    ensures
        arc_value(a) == v,
{
    triomphe::Arc::new(v)
}

/// Relies on `triomphe::Arc`'s `Clone`: cloning returns a second handle to
/// the same allocation, so the contents and the allocation identity carry
/// over; no value is copied.
#[verifier::external_body]
pub fn arc_clone(a: &triomphe::Arc<Value>) -> (r: triomphe::Arc<Value>)
    ensures
        arc_value(r) == arc_value(*a),
        arc_id(r) == arc_id(*a),
{
    triomphe::Arc::clone(a)
}

/// Relies on `triomphe::Arc`'s `Deref`: borrowing gives the value the
/// allocation holds.
#[verifier::external_body]
pub fn arc_get(a: &triomphe::Arc<Value>) -> (r: &Value)
    ensures
        *r == arc_value(*a),
{
    &**a
}

/// Relies on `triomphe::Arc::ptr_eq`: true exactly when the two handles
/// share one allocation.
#[verifier::external_body]
pub fn arc_ptr_eq(a: &triomphe::Arc<Value>, b: &triomphe::Arc<Value>) -> (r: bool)
    ensures
        r == (arc_id(*a) == arc_id(*b)),
{
    triomphe::Arc::ptr_eq(a, b)
}

/// Relies on `String::shrink_to_fit`: it only sheds spare capacity; the
/// characters are unchanged.
#[verifier::external_body]
fn shrink_string(s: &mut String)
    ensures
        final(s)@ == old(s)@,
{
    s.shrink_to_fit()
}

/// Relies on `Vec::shrink_to_fit`: it only sheds spare capacity; the
/// elements are unchanged.
#[verifier::external_body]
fn shrink_vec(v: &mut Vec<usize>)
    ensures
        final(v)@ == old(v)@,
{
    v.shrink_to_fit()
}

/// Normalizes a value's representation by dropping spare capacity. Cell
/// contents are immutable after creation, so this runs exactly once, when
/// the cell is created; the observable value is untouched.
pub fn shrink_value(v: &mut Value)
    ensures
        final(v)@ == old(v)@,
{
    match v {
        Value::Unit => (),
        Value::U64(_) => (),
        Value::Text(s) => shrink_string(s),
        Value::Path(p) => shrink_vec(p),
        Value::Ident { value, path: _ } => shrink_string(value),
    }
}

/// The heap-resident, reference-counted, immutable snapshot of a stored
/// value, tagged with the runtime id of the value's type. All reads of one
/// settled cell share one allocation.
pub struct SharedReference {
    pub type_id: ValueTypeId,
    pub data: triomphe::Arc<Value>,
}

impl SharedReference {
    /// Wraps a value into a fresh shared allocation under the given type tag.
    pub fn new(type_id: ValueTypeId, v: Value) -> (r: SharedReference)
        ensures
            r.type_id == type_id,
            arc_value(r.data) == v,
    {
        SharedReference { type_id, data: arc_new(v) }
    }

    /// A second handle to the same snapshot: same contents, same allocation.
    pub fn share(&self) -> (r: SharedReference)
        ensures
            r.type_id == self.type_id,
            arc_value(r.data) == arc_value(self.data),
            arc_id(r.data) == arc_id(self.data),
    {
        SharedReference { type_id: self.type_id, data: arc_clone(&self.data) }
    }

    /// Borrow of the snapshot's value.
    pub fn value(&self) -> (r: &Value)
        ensures
            *r == arc_value(self.data),
    {
        arc_get(&self.data)
    }
}

} // verus!
