//! Tests of the runtime type id.

use rune::type_::Type;

#[test]
fn test_size() {
    assert_eq!(std::mem::size_of::<Type>(), 8,);
}

#[test]
fn the_id_round_trips() {
    let t = Type::new(0xfeed);
    assert_eq!(t.hash_value(), 0xfeed);
    assert_eq!(t, Type::new(0xfeed));
}
