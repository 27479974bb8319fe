use mid_util::borrow::BorrowMutability;
use mid_util::cell::LRefCell;
use mid_util::entity::{
    ComponentAccessError, DynProvider, DynamicKeys, KeyListProviderTarget, KeyProxyFor, Provider,
    ProviderExt, ProviderTarget, ProviderTargetSpecific, RawTypedKey, StaticProviderTarget, TypedKey,
};
use mid_util::lock::{Lock, LockDb, SessionGuard};

struct Foo {
    a: u32,
    b: i32,
    c: String,
}

impl Provider for Foo {
    fn provide<'r, U: ProviderTarget<'r>>(&'r self, target: &mut U) {
        target.propose(&self.a);
        target.propose(&self.b);
        target.propose::<String>(&self.c);
    }
}

// The component is not also offered as `str`, and the lookups are not made
// through `&dyn DynProvider`: handing out an unsized component needs an unsafe
// pointer cast, which the library does not make, so components are sized and
// lookups go through the generic provider.
#[test]
fn static_example() {
    let foo = Foo {
        a: 3,
        b: 4,
        c: "foo".to_string(),
    };

    assert_eq!(*foo.try_get::<u32>().unwrap(), 3);
    assert_eq!(*foo.try_get::<i32>().unwrap(), 4);
    assert_eq!(foo.try_get::<String>().unwrap(), "foo");
}

struct Pair {
    x: u32,
    y: i32,
}

impl Provider for Pair {
    fn provide<'r, U: ProviderTarget<'r>>(&'r self, target: &mut U) {
        target.propose(&self.x);
        target.propose(&self.y);
    }
}

#[test]
fn missing_component_lists_offered_keys() {
    let pair = Pair { x: 3, y: 4 };

    assert_eq!(*pair.try_get::<u32>().unwrap(), 3);
    assert!(pair.has::<u32>());
    assert!(!pair.has::<u64>());

    let err = pair.try_get::<u64>().unwrap_err();
    assert_eq!(err.request, TypedKey::<u64>::instance().raw());
    assert_eq!(
        err.available,
        vec![
            TypedKey::<u32>::instance().raw(),
            TypedKey::<i32>::instance().raw()
        ]
    );
}

struct Meters;

impl KeyProxyFor for Meters {
    type Target = u32;
}

struct Governed {
    value: LRefCell<u64>,
    length: u32,
    extra: u32,
    key: TypedKey<u32>,
}

impl Provider for Governed {
    fn provide<'r, U: ProviderTarget<'r>>(&'r self, target: &mut U) {
        target.propose(&self.value);
        target.propose_in(TypedKey::<u32>::proxy::<Meters>(), &self.length);
        target.propose_in(self.key, &self.extra);
    }
}

#[test]
fn keys_by_proxy_and_at_run_time() {
    let mut keys = DynamicKeys::new();
    let k1 = TypedKey::<u32>::dynamic(&mut keys);
    let k2 = TypedKey::<u32>::dynamic(&mut keys);
    assert_ne!(k1.raw(), k2.raw());
    assert_eq!(k1.raw(), RawTypedKey::Runtime(0));
    assert_eq!(RawTypedKey::from(k2), RawTypedKey::Runtime(1));
    assert_ne!(
        TypedKey::<u32>::proxy::<Meters>().raw(),
        TypedKey::<u32>::instance().raw()
    );
    assert_eq!(
        TypedKey::<u32>::proxy::<Meters>().raw(),
        TypedKey::<u32>::proxy::<Meters>().raw()
    );

    let mut db = LockDb::new();
    let lock = Lock::new(&mut db, "l");
    let g = SessionGuard::new_unique(&mut db);
    let s = g.handle();
    let e = Governed {
        value: LRefCell::new(lock, 5),
        length: 10,
        extra: 11,
        key: k1,
    };

    assert_eq!(*e.try_get_in(TypedKey::<u32>::proxy::<Meters>()).unwrap(), 10);
    assert_eq!(*e.try_get_in(k1).unwrap(), 11);
    assert!(e.try_get_in(k2).is_err());
    assert!(!e.has::<u32>());
    assert!(e.has_in(k1));

    match e.use_ref::<u64, _, u64>(&db, s, |v| *v) {
        Err(ComponentAccessError::InvalidAccess(err)) => {
            assert_eq!(err.mode, BorrowMutability::Immutable)
        }
        other => panic!("unexpected {:?}", other),
    }
    s.acquire_locks(&mut db, vec![(lock, BorrowMutability::Immutable)]);
    assert_eq!(e.use_ref::<u64, _, u64>(&db, s, |v| *v * 2).unwrap(), 10);
    match e.use_ref::<u8, _, u8>(&db, s, |v| *v) {
        Err(ComponentAccessError::Missing(err)) => assert_eq!(err.available.len(), 3),
        other => panic!("unexpected {:?}", other),
    }
    assert_eq!(e.key_list().len(), 3);
}

#[test]
fn first_offer_under_a_key_wins() {
    let twice = Twice { a: 1, b: 2 };
    assert_eq!(*twice.try_get::<u32>().unwrap(), 1);

    let mut target = StaticProviderTarget::new(TypedKey::<u32>::instance());
    assert!(!target.is_target_set());
    assert_eq!(target.desired_key(), TypedKey::<u32>::instance().raw());
    twice.provide(&mut target);
    assert!(target.is_target_set());
    assert_eq!(target.provided_value(), Some(&1));

    let mut list = KeyListProviderTarget::new();
    twice.provide(&mut list);
    assert_eq!(list.0.len(), 2);
}

struct Twice {
    a: u32,
    b: u32,
}

impl Provider for Twice {
    fn provide<'r, U: ProviderTarget<'r>>(&'r self, target: &mut U) {
        target.propose(&self.a);
        target.propose(&self.b);
    }
}
