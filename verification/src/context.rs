//! The data that travels with one request: a shared state, and a store with at most one
//! value per type.
//!
//! [`TypeMap`] is the store's mechanism, a map keyed by type identity. [`Context`] puts
//! values of any type into it: it boxes each value, forgetting its type, and files it under
//! the identity of that type.

use std::any::Any;
use std::any::TypeId;
use std::sync::Arc;
use vstd::prelude::*;

verus! {

/// The identity of a type, as the standard library hands it out. Nothing is known of it here
/// but whether two of them are the same.
#[verifier::external_type_specification]
#[verifier::external_body]
pub struct ExTypeId(TypeId);

/// Whether two type identities are the same, by `TypeId`'s own `==`.
#[verifier::external_body]
fn same_type(a: &TypeId, b: &TypeId) -> (same: bool)
    ensures
        same == (*a == *b),
{
    a == b
}

/// An owned value whose type was forgotten: a `Box<dyn Any + Send + Sync>`, which cannot be
/// named in verified code. What is inside is known through [`held`] alone.
#[verifier::external_body]
pub struct AnyValue {
    inner: Box<dyn Any + Send + Sync>,
}

/// What the standard library knows of a type `T` at run time.
#[verifier::reject_recursive_types(T)]
pub struct TypeFacts<T> {
    /// The identity of `T`.
    pub key: TypeId,
    /// For each boxed value, the `T` that it holds, if it holds one.
    pub held: spec_fn(AnyValue) -> Option<T>,
}

/// The facts of the type `T`. They are fixed for each type, and nothing is known of them
/// but what the functions below that box and unbox values say.
pub open spec fn facts<T>() -> TypeFacts<T> {
    arbitrary()
}

/// The identity of the type `T`.
pub open spec fn key_of<T>() -> TypeId {
    facts::<T>().key
}

/// The `T` that a boxed value holds, if it holds one.
pub open spec fn held<T>(boxed: AnyValue) -> Option<T> {
    (facts::<T>().held)(boxed)
}

/// The identity of the type `T`, by `TypeId::of`. Claimed: every call for one type gives
/// the same identity. That two types have two identities is not claimed.
#[verifier::external_body]
fn type_key<T: 'static>() -> (key: TypeId)
    ensures
        key == key_of::<T>(),
{
    TypeId::of::<T>()
}

impl AnyValue {
    /// Boxes `value` and forgets its type, by `Box::new`. Claimed: the box holds `value` as
    /// a `T`.
    #[verifier::external_body]
    fn new<T: Send + Sync + 'static>(value: T) -> (boxed: AnyValue)
        ensures
            held::<T>(boxed) == Some(value),
    {
        AnyValue { inner: Box::new(value) }
    }

    /// The value inside, if it is a `T`, by `<dyn Any>::downcast_ref`. Claimed: the result
    /// is the `T` that the box holds, if it holds one.
    #[verifier::external_body]
    fn downcast_ref<T: 'static>(&self) -> (value: Option<&T>)
        ensures
            match value {
                Some(value) => held::<T>(*self) == Some(*value),
                None => held::<T>(*self) is None,
            },
    {
        self.inner.downcast_ref::<T>()
    }

    /// The value inside, for writing, if it is a `T`, by `<dyn Any>::downcast_mut`. Claimed:
    /// the result is the `T` that the box holds, if it holds one; what the caller writes is
    /// what the box then holds; and where the box holds no `T`, nothing changes.
    #[verifier::external_body]
    fn downcast_mut<T: 'static>(&mut self) -> (value: Option<&mut T>)
        ensures
            match value {
                Some(value) => held::<T>(*old(self)) == Some(*value) && held::<T>(*final(self))
                    == Some(*final(value)),
                None => held::<T>(*old(self)) is None && *final(self) == *old(self),
            },
    {
        self.inner.downcast_mut::<T>()
    }
}

/// A map from type identities to values, with at most one value per identity.
pub struct TypeMap<V> {
    keys: Vec<TypeId>,
    values: Vec<V>,
}

/// What is filed under the keys, as a map: the value of a key stands where the key stands.
spec fn contents<V>(keys: Seq<TypeId>, values: Seq<V>) -> Map<TypeId, V> {
    Map::new(|key: TypeId| keys.contains(key), |key: TypeId| values[keys.index_of(key)])
}

/// Among distinct keys, the key at a position is found at that position.
proof fn lemma_key_at<V>(keys: Seq<TypeId>, values: Seq<V>, at: int)
    requires
        keys.no_duplicates(),
        0 <= at < keys.len(),
    ensures
        keys.contains(keys[at]),
        keys.index_of(keys[at]) == at,
        contents(keys, values).contains_key(keys[at]),
        contents(keys, values)[keys[at]] == values[at],
{
    assert(keys[keys.index_of(keys[at])] == keys[at]);
}

/// Writing a value where a key stands writes it into the map, under that key.
proof fn lemma_contents_update<V>(keys: Seq<TypeId>, values: Seq<V>, at: int, value: V)
    requires
        keys.no_duplicates(),
        keys.len() == values.len(),
        0 <= at < keys.len(),
    ensures
        contents(keys, values.update(at, value)) == contents(keys, values).insert(keys[at], value),
{
    let after = values.update(at, value);
    assert forall|k: TypeId| keys.contains(k) implies contents(keys, after)[k] == contents(
        keys,
        values,
    ).insert(keys[at], value)[k] by {
        lemma_key_at(keys, values, keys.index_of(k));
    }
    lemma_key_at(keys, values, at);
}

/// Adding a key that is not there, with its value, writes the value into the map, under
/// that key.
proof fn lemma_contents_push<V>(keys: Seq<TypeId>, values: Seq<V>, key: TypeId, value: V)
    requires
        keys.no_duplicates(),
        keys.len() == values.len(),
        !keys.contains(key),
    ensures
        keys.push(key).no_duplicates(),
        contents(keys.push(key), values.push(value)) == contents(keys, values).insert(key, value),
{
    let more = keys.push(key);
    assert forall|k: TypeId| more.contains(k) == (k == key || keys.contains(k)) by {
        if keys.contains(k) {
            assert(more[keys.index_of(k)] == k);
        }
        if k == key {
            assert(more[keys.len() as int] == k);
        }
    }
    assert forall|k: TypeId| more.contains(k) implies contents(more, values.push(value))[k]
        == contents(keys, values).insert(key, value)[k] by {
        let i = more.index_of(k);
        lemma_key_at(more, values.push(value), i);
        if i < keys.len() {
            lemma_key_at(keys, values, i);
        }
    }
}

impl<V> View for TypeMap<V> {
    type V = Map<TypeId, V>;

    /// What the map holds.
    closed spec fn view(&self) -> Map<TypeId, V> {
        contents(self.keys@, self.values@)
    }
}

impl<V> TypeMap<V> {
    #[verifier::type_invariant]
    spec fn well_formed(self) -> bool {
        self.keys@.no_duplicates() && self.keys@.len() == self.values@.len()
    }

    /// A map that holds nothing.
    pub fn new() -> (map: Self)
        ensures
            map@ == Map::<TypeId, V>::empty(),
    {
        TypeMap { keys: Vec::new(), values: Vec::new() }
    }

    /// Where `key` stands, if it is there.
    fn position(&self, key: &TypeId) -> (found: Option<usize>)
        ensures
            match found {
                Some(at) => at < self.keys@.len() && self.keys@[at as int] == *key,
                None => !self.keys@.contains(*key),
            },
    {
        let mut at: usize = 0;
        while at < self.keys.len()
            invariant
                at <= self.keys@.len(),
                forall|j: int| 0 <= j < at ==> self.keys@[j] != *key,
            decreases self.keys@.len() - at,
        {
            if same_type(&self.keys[at], key) {
                return Some(at);
            }
            at += 1;
        }
        None
    }

    /// Files `value` under `key`, in place of the value that was there, if any.
    pub fn insert(&mut self, key: TypeId, value: V)
        ensures
            final(self)@ == old(self)@.insert(key, value),
    {
        proof {
            use_type_invariant(&*self);
        }
        match self.position(&key) {
            Some(at) => {
                proof {
                    lemma_contents_update(self.keys@, self.values@, at as int, value);
                }
                self.values[at] = value;
            },
            None => {
                proof {
                    lemma_contents_push(self.keys@, self.values@, key, value);
                }
                let mut taken = TypeMap::new();
                core::mem::swap(self, &mut taken);
                let TypeMap { mut keys, mut values } = taken;
                keys.push(key);
                values.push(value);
                *self = TypeMap { keys, values };
            },
        }
    }

    /// The value that is filed under `key`, if there is one.
    pub fn get(&self, key: &TypeId) -> (found: Option<&V>)
        ensures
            match found {
                Some(value) => self@.contains_key(*key) && *value == self@[*key],
                None => !self@.contains_key(*key),
            },
    {
        proof {
            use_type_invariant(self);
        }
        match self.position(key) {
            Some(at) => {
                proof {
                    lemma_key_at(self.keys@, self.values@, at as int);
                }
                Some(&self.values[at])
            },
            None => None,
        }
    }

    /// The value that is filed under `key`, for writing, if there is one. What the caller
    /// writes is what the map then holds under `key`; nothing else changes.
    pub fn get_mut(&mut self, key: &TypeId) -> (found: Option<&mut V>)
        ensures
            match found {
                Some(value) => old(self)@.contains_key(*key) && *value == old(self)@[*key]
                    && final(self)@ == old(self)@.insert(*key, *final(value)),
                None => !old(self)@.contains_key(*key) && final(self)@ == old(self)@,
            },
    {
        proof {
            use_type_invariant(&*self);
        }
        match self.position(key) {
            Some(at) => {
                proof {
                    lemma_key_at(self.keys@, self.values@, at as int);
                    assert forall|value: V|
                        contents(self.keys@, self.values@.update(at as int, value)) == contents(
                            self.keys@,
                            self.values@,
                        ).insert(*key, value) by {
                        lemma_contents_update(self.keys@, self.values@, at as int, value);
                    }
                }
                Some(&mut self.values[at])
            },
            None => None,
        }
    }
}

/// What a history of inserts leaves in a map that was empty: each insert files its value
/// under its key, over what was there.
pub open spec fn filed<V>(inserts: Seq<(TypeId, V)>) -> Map<TypeId, V>
    decreases inserts.len(),
{
    if inserts.len() == 0 {
        Map::empty()
    } else {
        filed(inserts.drop_last()).insert(inserts.last().0, inserts.last().1)
    }
}

/// A lookup right after an insert under the same key finds the inserted value, and the
/// insert changes what no other key finds.
pub proof fn lemma_insert_then_get<V>(
    before: TypeMap<V>,
    after: TypeMap<V>,
    key: TypeId,
    value: V,
    other: TypeId,
)
    requires
        after@ == before@.insert(key, value),
    ensures
        after@.contains_key(key),
        after@[key] == value,
        other != key ==> after@.contains_key(other) == before@.contains_key(other),
        other != key && before@.contains_key(other) ==> after@[other] == before@[other],
{
}

/// After any history of inserts a key finds the value of the last insert under it, and
/// finds nothing if there was no insert under it.
pub proof fn lemma_last_insert_is_found<V>(inserts: Seq<(TypeId, V)>, key: TypeId)
    ensures
        (forall|i: int| 0 <= i < inserts.len() ==> (#[trigger] inserts[i]).0 != key) ==> !filed(
            inserts,
        ).contains_key(key),
        forall|i: int|
            0 <= i < inserts.len() && (#[trigger] inserts[i]).0 == key && (forall|j: int|
                i < j < inserts.len() ==> (#[trigger] inserts[j]).0 != key) ==> filed(
                inserts,
            ).contains_key(key) && filed(inserts)[key] == inserts[i].1,
    decreases inserts.len(),
{
    if inserts.len() > 0 {
        let earlier = inserts.drop_last();
        lemma_last_insert_is_found(earlier, key);
        let last = inserts.len() - 1;
        if inserts[last].0 != key {
            assert forall|i: int|
                0 <= i < inserts.len() && (#[trigger] inserts[i]).0 == key && (forall|j: int|
                    i < j < inserts.len() ==> (#[trigger] inserts[j]).0 != key) implies filed(
                inserts,
            ).contains_key(key) && filed(inserts)[key] == inserts[i].1 by {
                assert(earlier[i] == inserts[i]);
                assert forall|j: int| i < j < earlier.len() implies (#[trigger] earlier[j]).0
                    != key by {
                    assert(earlier[j] == inserts[j]);
                }
            }
            if forall|i: int| 0 <= i < inserts.len() ==> (#[trigger] inserts[i]).0 != key {
                assert forall|i: int| 0 <= i < earlier.len() implies (#[trigger] earlier[i]).0
                    != key by {
                    assert(earlier[i] == inserts[i]);
                }
            }
        }
    }
}

/// What travels with one request: the state that all requests of a server share, and the
/// values that the stages of this request's processing leave for one another, at most one
/// per type.
pub struct Context<S> {
    state: Arc<S>,
    extensions: TypeMap<AnyValue>,
}

impl<S> Context<S> {
    /// The shared state that this context was made with.
    pub closed spec fn shared(&self) -> Arc<S> {
        self.state
    }

    /// The values that this context holds, each boxed and filed under the identity of its
    /// type.
    pub closed spec fn extensions(&self) -> Map<TypeId, AnyValue> {
        self.extensions@
    }

    /// The `T` that this context holds, if it holds one: what is filed under the identity
    /// of `T`, if that is a `T`.
    pub open spec fn stored<T>(&self) -> Option<T> {
        if self.extensions().contains_key(key_of::<T>()) {
            held::<T>(self.extensions()[key_of::<T>()])
        } else {
            None
        }
    }

    /// Whether `after` is this context with a new value under `key`: the same shared state,
    /// and one boxed value filed under `key`, over what was there. What is filed under the
    /// other keys is the same.
    pub open spec fn refiled(&self, after: &Self, key: TypeId) -> bool {
        &&& after.shared() == self.shared()
        &&& exists|boxed: AnyValue|
            after.extensions() == #[trigger] self.extensions().insert(key, boxed)
    }

    /// A context around `state` that holds no value.
    pub fn with_state(state: Arc<S>) -> (ctx: Self)
        ensures
            ctx.shared() == state,
            ctx.extensions() == Map::<TypeId, AnyValue>::empty(),
    {
        Context { state, extensions: TypeMap::new() }
    }

    /// The shared state.
    pub fn state(&self) -> (state: &S)
        ensures
            *state == *self.shared(),
    {
        &*self.state
    }

    /// Stores `value` under the identity of `T`, in place of the `T` that was stored, if any.
    pub fn insert<T: Send + Sync + 'static>(&mut self, value: T)
        ensures
            final(self).stored::<T>() == Some(value),
            old(self).refiled(final(self), key_of::<T>()),
    {
        let key = type_key::<T>();
        let boxed = AnyValue::new(value);
        self.extensions.insert(key, boxed);
        assert(self.extensions() == old(self).extensions().insert(key, boxed));
    }

    /// The stored `T`, if there is one.
    pub fn get<T: 'static>(&self) -> (found: Option<&T>)
        ensures
            match found {
                Some(value) => self.stored::<T>() == Some(*value),
                None => self.stored::<T>() is None,
            },
    {
        let key = type_key::<T>();
        match self.extensions.get(&key) {
            Some(boxed) => boxed.downcast_ref::<T>(),
            None => None,
        }
    }

    /// The stored `T`, for writing, if there is one. What the caller writes is the `T` that
    /// is stored then. Nothing else changes, and nothing at all where no `T` is stored.
    pub fn get_mut<T: 'static>(&mut self) -> (found: Option<&mut T>)
        ensures
            match found {
                Some(value) => {
                    &&& old(self).stored::<T>() == Some(*value)
                    &&& final(self).stored::<T>() == Some(*final(value))
                    &&& old(self).refiled(final(self), key_of::<T>())
                },
                None => {
                    &&& old(self).stored::<T>() is None
                    &&& final(self).shared() == old(self).shared()
                    &&& final(self).extensions() == old(self).extensions()
                },
            },
    {
        let key = type_key::<T>();
        match self.extensions.get_mut(&key) {
            Some(boxed) => boxed.downcast_mut::<T>(),
            None => None,
        }
    }
}

/// A value is found right after it was stored: a context that holds a new value under the
/// identity of `T`, which is a `T`, holds that `T`.
pub proof fn lemma_stored_is_found<S, T>(before: Context<S>, after: Context<S>, boxed: AnyValue)
    requires
        after.extensions() == before.extensions().insert(key_of::<T>(), boxed),
    ensures
        after.stored::<T>() == held::<T>(boxed),
{
}

/// Storing a `T` leaves the values of the types with another identity as they are.
pub proof fn lemma_others_are_kept<S, T, U>(before: Context<S>, after: Context<S>)
    requires
        before.refiled(&after, key_of::<T>()),
        key_of::<U>() != key_of::<T>(),
    ensures
        after.stored::<U>() == before.stored::<U>(),
{
}

/// A context that holds nothing holds no value of any type.
pub proof fn lemma_nothing_stored<S, T>(ctx: Context<S>)
    requires
        ctx.extensions() == Map::<TypeId, AnyValue>::empty(),
    ensures
        ctx.stored::<T>() is None,
{
}

impl Default for Context<()> {
    /// A context without shared state that holds no value.
    fn default() -> (ctx: Self)
        ensures
            ctx.extensions() == Map::<TypeId, AnyValue>::empty(),
    {
        Context::with_state(Arc::new(()))
    }
}

} // verus!
