use std::collections::HashMap;
use tetris_core::euler::factorial;
use tetris_core::fibonacci::{
    decimal_chars, fibonacci, fibonacci_sequence, memoized_fibonacci, sequence, stringify_sequence,
};

#[test]
fn test_fibonacci() {
    assert_eq!(fibonacci(0), 0);
    assert_eq!(fibonacci(1), 1);
    assert_eq!(fibonacci(2), 1);
    assert_eq!(fibonacci(3), 2);
    assert_eq!(fibonacci(4), 3);
    assert_eq!(fibonacci(8), 21);
    assert_eq!(fibonacci(10), 55);
}

#[test]
fn test_memoized_fibonacci_returns_data_from_hash() {
    let mut memo: HashMap<u32, u128> = HashMap::new();
    memo.insert(0, 1000);
    assert_eq!(memoized_fibonacci(0, &memo), 1000);
}

#[test]
fn test_sequence() {
    assert_eq!(sequence(1), "1");
    assert_eq!(sequence(2), "1 1");
    assert_eq!(sequence(3), "1 1 2");
    assert_eq!(sequence(4), "1 1 2 3");
    assert_eq!(sequence(5), "1 1 2 3 5");
    assert_eq!(sequence(6), "1 1 2 3 5 8");
    assert_eq!(sequence(8), "1 1 2 3 5 8 13 21");
    assert_eq!(
        sequence(25),
        "1 1 2 3 5 8 13 21 34 55 89 144 233 377 610 987 1597 2584 4181 6765 10946 17711 28657 46368 75025"
    );
}

#[test]
fn sequence_of_zero_is_empty() {
    assert_eq!(sequence(0), "");
}

#[test]
fn memoized_fibonacci_computes_missing_values() {
    let memo: HashMap<u32, u128> = HashMap::new();
    assert_eq!(memoized_fibonacci(12, &memo), 144);
}

#[test]
fn fibonacci_sequence_fills_the_front_of_the_buffer() {
    let buff = fibonacci_sequence(6);
    assert_eq!(buff.len(), 128);
    assert_eq!(&buff[0..7], &[0, 1, 1, 2, 3, 5, 0]);
    assert!(buff[6..].iter().all(|&n| n == 0));
}

#[test]
fn stringify_skips_zeros_and_separates_by_spaces() {
    assert_eq!(stringify_sequence(&vec![0, 7, 0, 10, 1234567890, 0]), "7 10 1234567890");
    assert_eq!(stringify_sequence(&vec![0, 0]), "");
    assert_eq!(stringify_sequence(&vec![]), "");
}

#[test]
fn decimal_digits_of_numbers() {
    assert_eq!(decimal_chars(0), vec!['0']);
    assert_eq!(decimal_chars(9), vec!['9']);
    assert_eq!(decimal_chars(10), vec!['1', '0']);
    assert_eq!(decimal_chars(u128::MAX).iter().collect::<String>(), u128::MAX.to_string());
}

#[test]
fn test_factorial() {
    assert_eq!(factorial(0), 1);
    assert_eq!(factorial(1), 1);
    assert_eq!(factorial(2), 2);
    assert_eq!(factorial(4), 24);
    assert_eq!(factorial(5), 120);
}

#[test]
fn largest_factorial_that_fits() {
    assert_eq!(factorial(34), 295232799039604140847618609643520000000);
}

#[test]
fn largest_fibonacci_in_the_sequence_buffer() {
    assert_eq!(fibonacci(30), 832040);
}

#[test]
fn memoized_fibonacci_takes_large_values_from_the_memo() {
    let mut memo: HashMap<u32, u128> = HashMap::new();
    memo.insert(186, 332825110087067562321196029789634457848);
    assert_eq!(memoized_fibonacci(186, &memo), 332825110087067562321196029789634457848);
}
