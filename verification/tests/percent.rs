use reset_chance::binary64::{divide, hundredfold, nearest, tenths};
use reset_chance::chance::{append_percent, percent_tenths};
use reset_chance::decimal::{append_decimal, digit_text};

fn shown(successful: u32, total: u32) -> String {
    let mut text = String::new();
    append_percent(&mut text, percent_tenths(successful, total));
    text
}

fn in_floating_point(successful: u32, total: u32) -> String {
    format!("{:.1}%", 100.0 * (successful as f64 / total as f64))
}

#[test]
fn digits() {
    let texts: Vec<&str> = (0..10u32).map(digit_text).collect();
    assert_eq!(texts, vec!["0", "1", "2", "3", "4", "5", "6", "7", "8", "9"]);
}

#[test]
fn decimal_numbers() {
    let cases: [(u32, &str); 8] = [
        (0, "0"),
        (7, "7"),
        (10, "10"),
        (99, "99"),
        (100, "100"),
        (1905, "1905"),
        (1_000_000_007, "1000000007"),
        (u32::MAX, "4294967295"),
    ];
    for (value, expected) in cases {
        let mut text = String::from("n=");
        append_decimal(&mut text, value);
        assert_eq!(text, format!("n={}", expected));
    }
}

#[test]
fn percent_texts() {
    let cases: [(u32, &str); 6] =
        [(0, "0.0%"), (5, "0.5%"), (10, "1.0%"), (286, "28.6%"), (999, "99.9%"), (1000, "100.0%")];
    for (value, expected) in cases {
        let mut text = String::new();
        append_percent(&mut text, value);
        assert_eq!(text, expected);
    }
}

#[test]
fn nearest_rounds_halves_to_even() {
    assert_eq!(nearest(0, 7), 0);
    assert_eq!(nearest(7, 2), 4);
    assert_eq!(nearest(5, 2), 2);
    assert_eq!(nearest(1, 2), 0);
    assert_eq!(nearest(3, 2), 2);
    assert_eq!(nearest(10, 4), 2);
    assert_eq!(nearest(14, 4), 4);
    assert_eq!(nearest(11, 4), 3);
    assert_eq!(nearest(9, 4), 2);
    assert_eq!(nearest(12, 4), 3);
    assert_eq!(nearest(u128::MAX - 1, u128::MAX), 1);
}

#[test]
fn quotient_has_the_bits_of_the_hardware() {
    let cases: [(u32, u32); 8] =
        [(1, 1), (1, 2), (1, 3), (2, 3), (1, 10), (7, 10), (1, u32::MAX), (u32::MAX - 1, u32::MAX)];
    for (num, den) in cases {
        let quotient = divide(num, den);
        let bits = (num as f64 / den as f64).to_bits();
        let mantissa = (bits & ((1u64 << 52) - 1)) | (1u64 << 52);
        let exponent = ((bits >> 52) & 0x7ff) as i64 - 1075;
        assert_eq!(quotient.unit, 1u128 << quotient.places);
        assert_eq!(quotient.mantissa, mantissa, "{}/{}", num, den);
        assert_eq!(-(quotient.places as i64), exponent, "{}/{}", num, den);
    }
}

#[test]
fn hundredfold_has_the_value_of_the_hardware() {
    let cases: [(u32, u32); 7] = [(1, 1), (1, 3), (2, 3), (7, 10), (3, 10), (23, 80), (1, u32::MAX)];
    for (num, den) in cases {
        let product = hundredfold(divide(num, den));
        let expected = 100.0 * (num as f64 / den as f64);
        let value = product.mantissa as f64 / (product.unit as f64);
        assert_eq!(value, expected, "{}/{}", num, den);
        assert_eq!(product.unit, 1u128 << product.places);
    }
}

#[test]
fn tenths_of_known_percentages() {
    assert_eq!(tenths(hundredfold(divide(1, 1))), 1000);
    assert_eq!(tenths(hundredfold(divide(1, 2))), 500);
    assert_eq!(tenths(hundredfold(divide(1, 3))), 333);
    assert_eq!(tenths(hundredfold(divide(2, 3))), 667);
    assert_eq!(tenths(hundredfold(divide(1, u32::MAX))), 0);
}

#[test]
fn exact_percentages() {
    assert_eq!(percent_tenths(0, 1), 0);
    assert_eq!(percent_tenths(0, u32::MAX), 0);
    assert_eq!(percent_tenths(1, 1), 1000);
    assert_eq!(percent_tenths(u32::MAX, u32::MAX), 1000);
    assert_eq!(percent_tenths(3, 10), 300);
    assert_eq!(percent_tenths(7, 10), 700);
    assert_eq!(percent_tenths(1, 8), 125);
    assert_eq!(percent_tenths(1, 3), 333);
    assert_eq!(percent_tenths(2, 3), 667);
    assert_eq!(percent_tenths(1, 1000), 1);
    assert_eq!(percent_tenths(999, 1000), 999);
    assert_eq!(percent_tenths(1, 3000), 0);
    assert_eq!(percent_tenths(2999, 3000), 1000);
}

#[test]
fn halves_of_a_tenth_go_where_binary64_puts_them() {
    assert_eq!(shown(1, 16), "6.2%");
    assert_eq!(shown(3, 16), "18.8%");
    assert_eq!(shown(23, 80), "28.7%");
    assert_eq!(shown(49, 80), "61.3%");
    assert_eq!(shown(51, 80), "63.7%");
    assert_eq!(shown(1, 2000), in_floating_point(1, 2000));
    assert_eq!(shown(1, 400), in_floating_point(1, 400));
    assert_eq!(shown(3, 2000), in_floating_point(3, 2000));
}

#[test]
fn agrees_with_floating_point_for_small_counts() {
    for total in 1..=400u32 {
        for successful in 0..=total {
            assert_eq!(
                shown(successful, total),
                in_floating_point(successful, total),
                "{}/{}",
                successful,
                total
            );
        }
    }
}

#[test]
fn agrees_with_floating_point_on_halves_of_a_tenth() {
    let mut checked: u32 = 0;
    for scale in 1..=700u32 {
        let total: u32 = 2000 * scale;
        let mut odd: u32 = 1;
        while odd < 2000 {
            let successful: u32 = odd * scale;
            assert_eq!(
                shown(successful, total),
                in_floating_point(successful, total),
                "{}/{}",
                successful,
                total
            );
            checked += 1;
            odd += 2 * (1 + scale % 7);
        }
    }
    assert!(checked > 100_000);
}

#[test]
fn agrees_with_floating_point_for_large_counts() {
    let mut state: u64 = 0x2545_f491_4f6c_dd1d;
    for _ in 0..200_000u32 {
        state ^= state << 13;
        state ^= state >> 7;
        state ^= state << 17;
        let total: u32 = ((state >> 32) as u32).max(1);
        let successful: u32 = (state as u32) % total.saturating_add(1).max(1);
        let successful: u32 = successful.min(total);
        assert_eq!(
            shown(successful, total),
            in_floating_point(successful, total),
            "{}/{}",
            successful,
            total
        );
    }
}
