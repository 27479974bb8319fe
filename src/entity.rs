//! Typed keys and the provider protocol through which an entity exposes its
//! components.
//!
//! An entity offers each of its components under a key to a visiting target;
//! a target that looks for one key takes the first offer under that key, and a
//! target that lists keys records every offer.

use core::marker::PhantomData;
use std::any::{Any, TypeId};
use crate::borrow::BorrowMutability;
use crate::cell::{InvalidCellAccess, LRefCell};
use crate::lock::{LockDb, Session};
use vstd::prelude::*;

verus! {

// === Type identities === //

#[verifier::external_type_specification]
#[verifier::external_body]
pub struct ExTypeId(TypeId);

/// Relies on `TypeId::of`: the identity of type `T`.
#[verifier::external_body]
fn type_id_of<T: ?Sized + 'static>() -> TypeId {
    TypeId::of::<T>()
}

/// Relies on `TypeId`'s `==`: identities are equal exactly when they are the same value.
#[verifier::external_body]
fn same_type_id(a: &TypeId, b: &TypeId) -> (r: bool)
    ensures
        r == (*a == *b),
{
    *a == *b
}

// === Keys === //

/// A key without its component type: the type itself, a proxy type standing
/// for it, or an identity allocated at run time.
#[derive(Debug, Clone, Copy, Hash)]
pub enum RawTypedKey {
    Instance(TypeId),
    Proxy(TypeId),
    Runtime(u64),
}

impl RawTypedKey {
    /// Whether two keys name the same slot.
    pub fn same(&self, other: &RawTypedKey) -> (r: bool)
        ensures
            r == (*self == *other),
    {
        match (self, other) {
            (RawTypedKey::Instance(a), RawTypedKey::Instance(b)) => same_type_id(a, b),
            (RawTypedKey::Proxy(a), RawTypedKey::Proxy(b)) => same_type_id(a, b),
            (RawTypedKey::Runtime(a), RawTypedKey::Runtime(b)) => *a == *b,
            _ => false,
        }
    }
}

impl PartialEq for RawTypedKey {
    fn eq(&self, other: &RawTypedKey) -> (r: bool) {
        self.same(other)
    }
}

impl vstd::std_specs::cmp::PartialEqSpecImpl for RawTypedKey {
    open spec fn obeys_eq_spec() -> bool {
        true
    }

    open spec fn eq_spec(&self, other: &RawTypedKey) -> bool {
        *self == *other
    }
}

impl Eq for RawTypedKey {}

/// A type standing in for `Target`, so that one component can be offered
/// under a second key.
pub trait KeyProxyFor: 'static {
    type Target: 'static;
}

/// The key of a component of type `T`.
pub struct TypedKey<T: 'static> {
    raw: RawTypedKey,
    _ty: PhantomData<T>,
}

/// Where keys allocated at run time come from: each key a source hands out is
/// new to that source. Keys of two different sources may coincide, so a
/// process keeps one source.
#[derive(Debug)]
pub struct DynamicKeys {
    next: u64,
}

impl DynamicKeys {
    pub closed spec fn next_id(&self) -> u64 {
        self.next
    }

    /// The identity the next key will get.
    pub fn peek(&self) -> (r: u64)
        ensures
            r == self.next_id(),
    {
        self.next
    }

    pub fn new() -> (r: DynamicKeys)
        ensures
            r.next_id() == 0,
    {
        DynamicKeys { next: 0 }
    }
}

impl<T: 'static> From<TypedKey<T>> for RawTypedKey {
    fn from(key: TypedKey<T>) -> (r: RawTypedKey) {
        key.raw
    }
}

impl<T: 'static> vstd::std_specs::convert::FromSpecImpl<TypedKey<T>> for RawTypedKey {
    open spec fn obeys_from_spec() -> bool {
        true
    }

    open spec fn from_spec(key: TypedKey<T>) -> RawTypedKey {
        key.key()
    }
}

impl<T: 'static> Default for TypedKey<T> {
    /// The key of `T` itself.
    fn default() -> (r: TypedKey<T>)
        ensures
            r.key() is Instance,
    {
        TypedKey::<T>::instance()
    }
}

impl<T: 'static> Clone for TypedKey<T> {
    fn clone(&self) -> (r: TypedKey<T>) {
        TypedKey { raw: self.raw, _ty: PhantomData }
    }
}

impl<T: 'static> Copy for TypedKey<T> {}

impl<T: 'static> TypedKey<T> {
    pub closed spec fn key(self) -> RawTypedKey {
        self.raw
    }

    pub fn raw(self) -> (r: RawTypedKey)
        ensures
            r == self.key(),
    {
        self.raw
    }

    /// The key of `T` itself.
    pub fn instance() -> (r: TypedKey<T>)
        ensures
            r.key() is Instance,
    {
        TypedKey { raw: RawTypedKey::Instance(type_id_of::<T>()), _ty: PhantomData }
    }

    /// The key under which proxy `P` offers a `T`.
    pub fn proxy<P: KeyProxyFor<Target = T>>() -> (r: TypedKey<T>)
        ensures
            r.key() is Proxy,
    {
        TypedKey { raw: RawTypedKey::Proxy(type_id_of::<P>()), _ty: PhantomData }
    }

    /// A key that no other call hands out: the next identity of `keys`.
    pub fn dynamic(keys: &mut DynamicKeys) -> (r: TypedKey<T>)
        requires
            old(keys).next_id() < u64::MAX,
        ensures
            r.key() == RawTypedKey::Runtime(old(keys).next_id()),
            final(keys).next_id() == old(keys).next_id() + 1,
    {
        let id = keys.next;
        keys.next = id + 1;
        TypedKey { raw: RawTypedKey::Runtime(id), _ty: PhantomData }
    }
}

// === Provider protocol === //

/// A visitor that entities offer their components to.
pub trait ProviderTarget<'r> {
    /// Offers `value` under `key`.
    fn propose_in<T: 'static>(&mut self, key: TypedKey<T>, value: &'r T);

    /// Offers `value` under the key of its own type.
    fn propose<T: 'static>(&mut self, value: &'r T) {
        self.propose_in(TypedKey::<T>::instance(), value)
    }
}

/// A visitor looking for the component under one key.
pub trait ProviderTargetSpecific<'r> {
    fn desired_key(&self) -> RawTypedKey;

    fn is_target_set(&self) -> bool;
}

/// Something that exposes components by offering each one to a target.
pub trait Provider {
    fn provide<'r, U: ProviderTarget<'r>>(&'r self, target: &mut U);
}

/// Relies on `<dyn Any>::downcast_ref`: the same reference, seen at type `B`,
/// when `A` is `B`; `None` otherwise.
#[verifier::external_body]
fn unify_ref<'r, A: 'static, B: 'static>(value: &'r A) -> Option<&'r B> {
    (value as &dyn Any).downcast_ref::<B>()
}

/// The target that looks for the component under one key and keeps the first
/// one offered under it.
pub struct StaticProviderTarget<'r, D: 'static> {
    key: TypedKey<D>,
    is_set: bool,
    value: Option<&'r D>,
}

impl<'r, D: 'static> StaticProviderTarget<'r, D> {
    pub closed spec fn desired(&self) -> RawTypedKey {
        self.key.key()
    }

    pub closed spec fn found(&self) -> bool {
        self.is_set
    }

    pub closed spec fn found_value(&self) -> Option<&'r D> {
        self.value
    }

    pub fn new(key: TypedKey<D>) -> (r: StaticProviderTarget<'r, D>)
        ensures
            r.desired() == key.key(),
            !r.found(),
            r.found_value() is None,
    {
        StaticProviderTarget { key, is_set: false, value: None }
    }

    pub fn provided_value(&self) -> (r: Option<&'r D>)
        ensures
            r == self.found_value(),
    {
        self.value
    }

    /// Takes an offer if it is the first one under the desired key.
    pub fn offer<T: 'static>(&mut self, key: TypedKey<T>, value: &'r T)
        ensures
            final(self).desired() == old(self).desired(),
            final(self).found() == (old(self).found() || old(self).desired() == key.key()),
            old(self).found() || old(self).desired() != key.key() ==> final(self).found_value()
                == old(self).found_value(),
    {
        if !self.is_set && self.key.raw.same(&key.raw) {
            self.value = unify_ref::<T, D>(value);
            self.is_set = true;
        }
    }
}

impl<'r, D: 'static> ProviderTarget<'r> for StaticProviderTarget<'r, D> {
    fn propose_in<T: 'static>(&mut self, key: TypedKey<T>, value: &'r T) {
        self.offer(key, value)
    }
}

impl<'r, D: 'static> ProviderTargetSpecific<'r> for StaticProviderTarget<'r, D> {
    fn desired_key(&self) -> (r: RawTypedKey) {
        self.key.raw
    }

    fn is_target_set(&self) -> (r: bool) {
        self.is_set
    }
}

/// The target that records the key of every offer, in order.
#[derive(Debug)]
pub struct KeyListProviderTarget(pub Vec<RawTypedKey>);

impl KeyListProviderTarget {
    pub fn new() -> (r: KeyListProviderTarget)
        ensures
            r.0@.len() == 0,
    {
        KeyListProviderTarget(Vec::new())
    }

    /// Records the key of an offer.
    pub fn record<T: 'static>(&mut self, key: TypedKey<T>)
        ensures
            final(self).0@ == old(self).0@.push(key.key()),
    {
        self.0.push(key.raw)
    }
}

impl<'r> ProviderTarget<'r> for KeyListProviderTarget {
    fn propose_in<T: 'static>(&mut self, key: TypedKey<T>, value: &'r T) {
        self.record(key)
    }
}

/// No component was offered under the requested key; `available` lists the
/// key of every component that was offered.
#[derive(Debug, Clone)]
pub struct MissingComponentError {
    pub request: RawTypedKey,
    pub available: Vec<RawTypedKey>,
}

/// Why a governed component could not be used: it is missing, or the session
/// does not hold the lock that governs it.
#[derive(Debug, Clone)]
pub enum ComponentAccessError {
    Missing(MissingComponentError),
    InvalidAccess(InvalidCellAccess),
}

/// The list of keys that a provider offers.
pub trait DynProvider {
    fn key_list(&self) -> Vec<RawTypedKey>;
}

impl<P: Provider> DynProvider for P {
    /// The key of every component offered, in order.
    fn key_list(&self) -> (r: Vec<RawTypedKey>) {
        let mut list = KeyListProviderTarget::new();
        self.provide(&mut list);
        list.0
    }
}

/// Component lookups on every provider.
///
/// A provider hands out shared references, so a lock-governed component can be
/// read through it ([`ProviderExt::use_ref`]) but not written: writing a cell
/// needs a unique reference to it (see [`LRefCell`]).
pub trait ProviderExt: Provider + Sized {
    /// The first component offered under `key`, or an error that names the key
    /// and lists the keys offered.
    fn try_get_in<T: 'static>(&self, key: TypedKey<T>) -> (r: Result<&T, MissingComponentError>)
        ensures
            r matches Err(e) ==> e.request == key.key(),
    {
        let mut target = StaticProviderTarget::new(key);
        self.provide(&mut target);
        match target.provided_value() {
            Some(v) => Ok(v),
            None => Err(MissingComponentError { request: key.raw(), available: self.key_list() }),
        }
    }

    /// The first component offered under the key of type `T` itself.
    fn try_get<T: 'static>(&self) -> (r: Result<&T, MissingComponentError>)
        ensures
            r matches Err(e) ==> e.request is Instance,
    {
        self.try_get_in(TypedKey::<T>::instance())
    }

    /// Runs `f` on the value of the lock-governed component offered under `key`;
    /// the session must hold the governing lock.
    fn use_ref_in<T: 'static, F, R>(
        &self,
        db: &LockDb,
        s: Session,
        key: TypedKey<LRefCell<T>>,
        f: F,
    ) -> (r: Result<R, ComponentAccessError>) where F: FnOnce(&T) -> R
        requires
            db.wf(),
            db@.has_session(s@),
            forall|x: &T| #[trigger] f.requires((x,)),
        ensures
            r matches Err(ComponentAccessError::Missing(e)) ==> e.request == key.key(),
            r matches Err(ComponentAccessError::InvalidAccess(e)) ==> e.mode
                == BorrowMutability::Immutable,
            r matches Ok(v) ==> exists|x: &T| #[trigger] f.ensures((x,), v),
    {
        match self.try_get_in(key) {
            Ok(cell) => match cell.try_get_ref(db, s) {
                Ok(value) => {
                    let v = f(value);
                    proof {
                        assert(f.ensures((value,), v));
                        assert(exists|x: &T| #[trigger] f.ensures((x,), v));
                    }
                    let r: Result<R, ComponentAccessError> = Ok(v);
                    assert(r matches Ok(w) ==> w == v);
                    r
                },
                Err(e) => Err(ComponentAccessError::InvalidAccess(e)),
            },
            Err(e) => Err(ComponentAccessError::Missing(e)),
        }
    }

    /// Runs `f` on the value of the lock-governed component of type `T`.
    fn use_ref<T: 'static, F, R>(&self, db: &LockDb, s: Session, f: F) -> (r: Result<
        R,
        ComponentAccessError,
    >) where F: FnOnce(&T) -> R
        requires
            db.wf(),
            db@.has_session(s@),
            forall|x: &T| #[trigger] f.requires((x,)),
        ensures
            r matches Err(ComponentAccessError::Missing(e)) ==> e.request is Instance,
            r matches Err(ComponentAccessError::InvalidAccess(e)) ==> e.mode
                == BorrowMutability::Immutable,
            r matches Ok(v) ==> exists|x: &T| #[trigger] f.ensures((x,), v),
    {
        self.use_ref_in(db, s, TypedKey::<LRefCell<T>>::instance(), f)
    }

    /// Whether a component is offered under `key`.
    fn has_in<T: 'static>(&self, key: TypedKey<T>) -> (r: bool) {
        self.try_get_in(key).is_ok()
    }

    /// Whether a component is offered under the key of type `T` itself.
    fn has<T: 'static>(&self) -> (r: bool) {
        self.has_in(TypedKey::<T>::instance())
    }
}

impl<P: Provider> ProviderExt for P {}

} // verus!
