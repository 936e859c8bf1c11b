use ems_terrain::text::{push_decimal, push_hundredths, push_shortest};

fn decimal(n: u64) -> String {
    let mut s = String::from(">");
    push_decimal(&mut s, n);
    s
}

fn hundredths(v: i64) -> String {
    let mut s = String::new();
    push_hundredths(&mut s, v);
    s
}

fn shortest(v: i64) -> String {
    let mut s = String::new();
    push_shortest(&mut s, v);
    s
}

#[test]
fn numerals_have_no_leading_zero() {
    assert_eq!(decimal(0), ">0");
    assert_eq!(decimal(7), ">7");
    assert_eq!(decimal(10), ">10");
    assert_eq!(decimal(1_234_567_890), ">1234567890");
    assert_eq!(decimal(u64::MAX), ">18446744073709551615");
    for n in [1u64, 9, 99, 100, 101, 4096, 99_999, 100_000] {
        assert_eq!(decimal(n), format!(">{}", n));
    }
}

#[test]
fn lengths_are_written_with_two_decimals() {
    assert_eq!(hundredths(0), "0.00");
    assert_eq!(hundredths(5), "0.05");
    assert_eq!(hundredths(-5), "-0.05");
    assert_eq!(hundredths(50), "0.50");
    assert_eq!(hundredths(100), "1.00");
    assert_eq!(hundredths(1250), "12.50");
    assert_eq!(hundredths(-1299), "-12.99");
    assert_eq!(hundredths(i64::MAX), "92233720368547758.07");
    assert_eq!(hundredths(i64::MIN), "-92233720368547758.08");
    for v in [-12345i64, -100, -99, -1, 1, 99, 101, 31415] {
        assert_eq!(hundredths(v), format!("{:.2}", v as f64 / 100.0));
    }
}

#[test]
fn the_shortest_numeral_drops_empty_decimals() {
    assert_eq!(shortest(0), "0");
    assert_eq!(shortest(1200), "12");
    assert_eq!(shortest(1250), "12.5");
    assert_eq!(shortest(1205), "12.05");
    assert_eq!(shortest(-5), "-0.05");
    assert_eq!(shortest(-50), "-0.5");
    assert_eq!(shortest(-11_799_750), "-117997.5");
    for v in [-12345i64, -100, -90, -1, 1, 10, 99, 101, 11_800_000] {
        assert_eq!(shortest(v), format!("{}", v as f64 / 100.0));
    }
}

#[test]
fn numerals_are_appended() {
    let mut s = String::from("x=");
    push_hundredths(&mut s, 314);
    s.push(',');
    push_shortest(&mut s, 300);
    s.push(',');
    push_decimal(&mut s, 42);
    assert_eq!(s, "x=3.14,3,42");
}
