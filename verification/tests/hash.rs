use cogs_gamedev::hash::hashcode;

#[test]
fn equal_values_hash_alike() {
    assert_eq!(hashcode(&10i32), hashcode(&10i32));
    assert_ne!(hashcode(&10i32), hashcode(&600i32));
    assert_eq!(hashcode(&"tile"), hashcode(&"tile"));
}
