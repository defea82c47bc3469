//! The raw numeric error channel: zero is success, anything else carries
//! its code.

use xdp_overlay::error::{Errno, IntoResult};

#[test]
fn zero_is_ok() {
    assert_eq!(0i32.ok(), Ok(()));
}

#[test]
fn nonzero_carries_its_code() {
    assert_eq!(5i32.ok(), Err(Errno(5)));
    assert_eq!((-7i32).ok(), Err(Errno(-7)));
}

#[test]
fn errno_converts_both_ways() {
    let e = Errno::from(3);
    assert_eq!(e, Errno(3));
    assert_eq!(i32::from(e), 3);
    assert_eq!(e.code(), 3);
}

#[test]
fn errno_compares_against_raw_codes() {
    let e = Errno(4);
    assert!(e == 4);
    assert!(e != 5);
}
