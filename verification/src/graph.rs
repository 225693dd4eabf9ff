//! The numbering of a document's objects, and how chains of references
//! behave when objects are stored or replaced.

use crate::pdf::{
    document_max_id, document_objects, highest_number, lookup, max_id_of, reference_limit, resolve,
    resolve_within, Value,
};
use lopdf::ObjectId;
use vstd::prelude::*;

verus! {

/// Whether no object has a higher number than the document has handed out,
/// so that the ids it hands out next are free.
pub open spec fn numbered_within(objects: Map<ObjectId, Value>, max_id: u32) -> bool {
    forall|id: ObjectId| objects.contains_key(id) ==> id.0 <= max_id
}

/// Whether no object of the document has a higher number than the
/// document has handed out. Where this holds, an object that is added never
/// takes the place of another. A document that `lopdf` has loaded, or that
/// was built by adding objects, is numbered so; one whose objects were
/// stored under ids of the caller's choice may not be.
pub fn is_numbered(doc: &lopdf::Document) -> (r: bool)
    ensures
        r == numbered_within(document_objects(*doc), document_max_id(*doc)),
{
    match highest_number(doc) {
        Some(number) => number <= max_id_of(doc),
        None => true,
    }
}

/// A chain of references ends at an object that is no reference.
pub proof fn lemma_resolve_within(objects: Map<ObjectId, Value>, id: ObjectId, fuel: nat)
    ensures
        match resolve_within(objects, id, fuel) {
            Some(target) => objects.contains_key(target) && !(objects[target] is Reference),
            None => true,
        },
    decreases fuel,
{
    if objects.contains_key(id) {
        if let Value::Reference(next) = objects[id] {
            if fuel > 0 {
                lemma_resolve_within(objects, next, (fuel - 1) as nat);
            }
        }
    }
}

/// What an id stands for exists in the document and is no reference.
pub proof fn lemma_resolve(objects: Map<ObjectId, Value>, id: ObjectId)
    ensures
        match resolve(objects, id) {
            Some(target) => objects.contains_key(target) && !(objects[target] is Reference),
            None => true,
        },
        objects.contains_key(id) && !(objects[id] is Reference) ==> resolve(objects, id) == Some(
            id,
        ),
{
    lemma_resolve_within(objects, id, reference_limit());
}

/// A chain that ends within some number of references ends at the same
/// object when more are allowed.
pub proof fn lemma_resolve_more_fuel(
    objects: Map<ObjectId, Value>,
    id: ObjectId,
    fuel: nat,
    more: nat,
)
    requires
        resolve_within(objects, id, fuel) is Some,
        fuel <= more,
    ensures
        resolve_within(objects, id, more) == resolve_within(objects, id, fuel),
    decreases fuel,
{
    if let Value::Reference(next) = objects[id] {
        lemma_resolve_more_fuel(objects, next, (fuel - 1) as nat, (more - 1) as nat);
    }
}

/// Storing something that is no reference under an id leaves each chain
/// where it ended, or makes it end at that id.
pub proof fn lemma_resolve_insert(
    objects: Map<ObjectId, Value>,
    k: ObjectId,
    v: Value,
    id: ObjectId,
    fuel: nat,
)
    requires
        !(v is Reference),
    ensures
        resolve_within(objects.insert(k, v), id, fuel) == Some(k) || resolve_within(
            objects.insert(k, v),
            id,
            fuel,
        ) == resolve_within(objects, id, fuel),
    decreases fuel,
{
    if id != k && objects.contains_key(id) {
        if let Value::Reference(next) = objects[id] {
            if fuel > 0 {
                lemma_resolve_insert(objects, k, v, next, (fuel - 1) as nat);
            }
        }
    }
}

/// Storing an object under an id that was free leaves every chain that
/// ended where it ended.
pub proof fn lemma_resolve_fresh(
    objects: Map<ObjectId, Value>,
    k: ObjectId,
    v: Value,
    id: ObjectId,
    fuel: nat,
)
    requires
        !objects.contains_key(k),
        resolve_within(objects, id, fuel) is Some,
    ensures
        resolve_within(objects.insert(k, v), id, fuel) == resolve_within(objects, id, fuel),
    decreases fuel,
{
    if let Value::Reference(next) = objects[id] {
        lemma_resolve_fresh(objects, k, v, next, (fuel - 1) as nat);
    }
}

/// Replacing an object leaves a chain where it ended if the chain from the
/// replaced id ended elsewhere: the replaced id was not on the chain.
pub proof fn lemma_resolve_apart(
    objects: Map<ObjectId, Value>,
    k: ObjectId,
    v: Value,
    id: ObjectId,
    fuel: nat,
)
    requires
        fuel <= reference_limit(),
        resolve_within(objects, id, fuel) is Some,
        resolve(objects, k) is Some,
        resolve(objects, k) != resolve_within(objects, id, fuel),
    ensures
        resolve_within(objects.insert(k, v), id, fuel) == resolve_within(objects, id, fuel),
        resolve_within(objects, id, fuel) != Some(k),
    decreases fuel,
{
    if id == k {
        lemma_resolve_more_fuel(objects, id, fuel, reference_limit());
    } else if let Value::Reference(next) = objects[id] {
        lemma_resolve_apart(objects, k, v, next, (fuel - 1) as nat);
    }
}

/// What an id stood for stays what it stands for when an object is stored
/// under an id that was free.
pub proof fn lemma_lookup_fresh(objects: Map<ObjectId, Value>, k: ObjectId, v: Value, id: ObjectId)
    requires
        !objects.contains_key(k),
        lookup(objects, id) is Some,
    ensures
        resolve(objects.insert(k, v), id) == resolve(objects, id),
        lookup(objects.insert(k, v), id) == lookup(objects, id),
        resolve(objects, id) != Some(k),
{
    lemma_resolve_fresh(objects, k, v, id, reference_limit());
    lemma_resolve(objects, id);
}

/// An id under which something that is no reference is stored stands for
/// just that.
pub proof fn lemma_lookup_stored(objects: Map<ObjectId, Value>, k: ObjectId, v: Value)
    requires
        !(v is Reference),
    ensures
        resolve(objects.insert(k, v), k) == Some(k),
        lookup(objects.insert(k, v), k) == Some(v),
{
}

/// Replacing the object that a chain ends at, by something that is no
/// reference, leaves the chain ending there.
pub proof fn lemma_lookup_replaced(objects: Map<ObjectId, Value>, id: ObjectId, v: Value)
    requires
        lookup(objects, id) is Some,
        !(v is Reference),
    ensures
        resolve(objects.insert(resolve(objects, id).unwrap(), v), id) == resolve(objects, id),
        lookup(objects.insert(resolve(objects, id).unwrap(), v), id) == Some(v),
{
    lemma_resolve_insert(objects, resolve(objects, id).unwrap(), v, id, reference_limit());
}

/// Replacing an object leaves what another id stands for, if the two ids
/// stood for different objects.
pub proof fn lemma_lookup_apart(objects: Map<ObjectId, Value>, k: ObjectId, v: Value, id: ObjectId)
    requires
        lookup(objects, id) is Some,
        lookup(objects, k) is Some,
        resolve(objects, k) != resolve(objects, id),
    ensures
        resolve(objects.insert(k, v), id) == resolve(objects, id),
        lookup(objects.insert(k, v), id) == lookup(objects, id),
{
    lemma_resolve_apart(objects, k, v, id, reference_limit());
}

/// Replacing an object that is no reference by another that is none leaves
/// every chain where it ended.
pub proof fn lemma_resolve_settled(
    objects: Map<ObjectId, Value>,
    k: ObjectId,
    v: Value,
    id: ObjectId,
    fuel: nat,
)
    requires
        objects.contains_key(k),
        !(objects[k] is Reference),
        !(v is Reference),
    ensures
        resolve_within(objects.insert(k, v), id, fuel) == resolve_within(objects, id, fuel),
    decreases fuel,
{
    if id != k && objects.contains_key(id) {
        if let Value::Reference(next) = objects[id] {
            if fuel > 0 {
                lemma_resolve_settled(objects, k, v, next, (fuel - 1) as nat);
            }
        }
    }
}

} // verus!
