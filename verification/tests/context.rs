use rama::context::Context;
use rama::context::TypeMap;
use std::any::TypeId;
use std::sync::Arc;

#[derive(Debug, Clone, PartialEq, Eq)]
struct Country(String);

#[derive(Debug, Clone, PartialEq, Eq)]
struct Residential(bool);

#[test]
fn test_context_round_trip() {
    let mut ctx = Context::default();

    ctx.insert(Country("us".to_owned()));

    assert_eq!(ctx.get::<Country>(), Some(&Country("us".to_owned())));
}

#[test]
fn test_context_absent_type() {
    let mut ctx = Context::default();

    assert!(ctx.get::<Country>().is_none());
    assert!(ctx.get_mut::<Country>().is_none());

    ctx.insert(Residential(true));

    assert!(ctx.get::<Country>().is_none());
    assert!(ctx.get::<bool>().is_none());
    assert!(ctx.get::<String>().is_none());
    assert!(ctx.get_mut::<Country>().is_none());
}

#[test]
fn test_context_insert_replaces_same_type() {
    let mut ctx = Context::default();

    ctx.insert(Country("us".to_owned()));
    ctx.insert(Country("be".to_owned()));

    assert_eq!(ctx.get::<Country>(), Some(&Country("be".to_owned())));
}

#[test]
fn test_context_one_value_per_type() {
    let mut ctx = Context::default();

    ctx.insert(Country("us".to_owned()));
    ctx.insert(Residential(true));
    ctx.insert(5u8);
    ctx.insert(5u16);
    ctx.insert(Residential(false));

    assert_eq!(ctx.get::<Country>(), Some(&Country("us".to_owned())));
    assert_eq!(ctx.get::<Residential>(), Some(&Residential(false)));
    assert_eq!(ctx.get::<u8>(), Some(&5u8));
    assert_eq!(ctx.get::<u16>(), Some(&5u16));
    assert!(ctx.get::<u32>().is_none());
}

#[test]
fn test_context_get_mut_writes_through() {
    let mut ctx = Context::default();

    ctx.insert(Country("us".to_owned()));
    ctx.insert(Residential(true));

    let country = ctx.get_mut::<Country>().unwrap();
    assert_eq!(country, &mut Country("us".to_owned()));
    country.0.push_str("-east");

    assert_eq!(ctx.get::<Country>(), Some(&Country("us-east".to_owned())));
    assert_eq!(ctx.get::<Residential>(), Some(&Residential(true)));
}

#[test]
fn test_context_state_is_shared_and_kept() {
    let state = Arc::new(Country("nl".to_owned()));
    let mut first = Context::with_state(state.clone());
    let second = Context::with_state(state.clone());

    assert_eq!(first.state(), &Country("nl".to_owned()));
    assert_eq!(second.state(), &Country("nl".to_owned()));
    assert!(std::ptr::eq(first.state(), second.state()));
    assert!(first.get::<Country>().is_none());

    first.insert(Country("us".to_owned()));
    first.insert(1u8);
    let _ = first.get_mut::<u8>();

    assert_eq!(first.state(), &Country("nl".to_owned()));
    assert!(std::ptr::eq(first.state(), &*state));
    assert!(second.get::<Country>().is_none());
}

#[test]
fn test_context_default_has_unit_state() {
    let ctx = Context::default();

    assert_eq!(ctx.state(), &());
    assert!(ctx.get::<()>().is_none());
}

#[test]
fn test_type_map_new_is_empty() {
    let map: TypeMap<&str> = TypeMap::new();

    assert_eq!(map.get(&TypeId::of::<u8>()), None);
    assert_eq!(map.get(&TypeId::of::<String>()), None);
}

#[test]
fn test_type_map_insert_then_get() {
    let mut map = TypeMap::new();

    map.insert(TypeId::of::<u8>(), "byte");

    assert_eq!(map.get(&TypeId::of::<u8>()), Some(&"byte"));
    assert_eq!(map.get(&TypeId::of::<i8>()), None);
}

#[test]
fn test_type_map_last_insert_is_found() {
    let mut map = TypeMap::new();

    map.insert(TypeId::of::<u8>(), 1);
    map.insert(TypeId::of::<u16>(), 2);
    map.insert(TypeId::of::<u8>(), 3);
    map.insert(TypeId::of::<u32>(), 4);
    map.insert(TypeId::of::<u16>(), 5);

    assert_eq!(map.get(&TypeId::of::<u8>()), Some(&3));
    assert_eq!(map.get(&TypeId::of::<u16>()), Some(&5));
    assert_eq!(map.get(&TypeId::of::<u32>()), Some(&4));
    assert_eq!(map.get(&TypeId::of::<u64>()), None);
}

#[test]
fn test_type_map_get_mut() {
    let mut map = TypeMap::new();

    map.insert(TypeId::of::<u8>(), 1);
    map.insert(TypeId::of::<u16>(), 2);

    assert_eq!(map.get_mut(&TypeId::of::<u32>()), None);
    let value = map.get_mut(&TypeId::of::<u16>()).unwrap();
    assert_eq!(*value, 2);
    *value = 20;

    assert_eq!(map.get(&TypeId::of::<u8>()), Some(&1));
    assert_eq!(map.get(&TypeId::of::<u16>()), Some(&20));
}
