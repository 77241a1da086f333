use std::ops::{Deref, DerefMut};

use spsc_rigtorp::CacheAligned;

#[test]
fn wrapped_value_can_be_read() {
    let wrapped = CacheAligned::from(41usize);
    assert_eq!(*wrapped, 41);
    assert_eq!(*wrapped.deref(), 41);
}

#[test]
fn wrapped_value_can_be_written() {
    let mut wrapped: CacheAligned<String> = String::from("a").into();
    wrapped.push('b');
    assert_eq!(*wrapped, "ab");
    *wrapped.deref_mut() = String::from("c");
    assert_eq!(*wrapped, "c");
}

#[test]
fn equal_values_are_equal_wrapped() {
    assert!(CacheAligned::from(1) == CacheAligned::from(1));
    assert!(CacheAligned::from(1) != CacheAligned::from(2));
}
