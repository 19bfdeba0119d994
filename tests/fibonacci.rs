use fibonacci::{fibonacci, fibonacci_checked, FibonacciError, LARGEST_EXACT_INDEX};

fn exact(n: u32) -> u64 {
    let mut a: u64 = 0;
    let mut b: u64 = 1;
    for _ in 0..n {
        let c = a + b;
        a = b;
        b = c;
    }
    a
}

#[test]
fn base_cases() {
    assert_eq!(fibonacci(0), 0);
    assert_eq!(fibonacci(1), 1);
    assert_eq!(fibonacci(2), 1);
}

#[test]
fn known_values() {
    assert_eq!(fibonacci(10), 55);
    assert_eq!(fibonacci(20), 6765);
}

#[test]
fn exact_up_to_largest_index() {
    for n in 0..=LARGEST_EXACT_INDEX {
        assert_eq!(fibonacci(n) as u64, exact(n));
    }
    assert_eq!(fibonacci(46), 1836311903);
    assert_eq!(fibonacci(47), 2971215073);
}

#[test]
fn wraps_past_largest_index() {
    assert_eq!(fibonacci(48), (4807526976u64 % (1u64 << 32)) as u32);
    assert_eq!(fibonacci(48), 512559680);
    assert_eq!(fibonacci(49), fibonacci(47).wrapping_add(fibonacci(48)));
}

#[test]
fn same_index_same_value() {
    for n in [0u32, 1, 10, 33, 47, 100] {
        assert_eq!(fibonacci(n), fibonacci(n));
    }
}

#[test]
fn non_decreasing_from_index_one() {
    for n in 1..LARGEST_EXACT_INDEX {
        assert!(fibonacci(n) <= fibonacci(n + 1));
    }
}

#[test]
fn sum_of_two_before() {
    for n in 2..=LARGEST_EXACT_INDEX {
        assert_eq!(fibonacci(n) as u64, fibonacci(n - 1) as u64 + fibonacci(n - 2) as u64);
    }
}

#[test]
fn checked_in_range() {
    assert_eq!(fibonacci_checked(0), Ok(0));
    assert_eq!(fibonacci_checked(1), Ok(1));
    assert_eq!(fibonacci_checked(10), Ok(55));
    assert_eq!(fibonacci_checked(47), Ok(2971215073));
}

#[test]
fn checked_overflow() {
    assert_eq!(fibonacci_checked(48), Err(FibonacciError::Overflow));
    assert_eq!(fibonacci_checked(u32::MAX), Err(FibonacciError::Overflow));
}
