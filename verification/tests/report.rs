use danawa_watch::report::{
    format_change_block, format_difference, format_price, price_difference, Difference,
};

#[test]
fn price_difference_without_a_price_now_stays() {
    assert_eq!(price_difference(None, None), Difference::Stay);
    assert_eq!(price_difference(Some(10000), None), Difference::Stay);
}

#[test]
fn price_difference_without_an_earlier_price_is_an_error() {
    assert_eq!(price_difference(None, Some(10000)), Difference::Error);
    assert_eq!(price_difference(None, Some(0)), Difference::Error);
}

#[test]
fn price_difference_follows_the_difference_law() {
    assert_eq!(price_difference(Some(10000), Some(10500)), Difference::Up(500));
    assert_eq!(price_difference(Some(9500), Some(8000)), Difference::Down(1500));
    assert_eq!(price_difference(Some(9500), Some(9500)), Difference::Stay);
    assert_eq!(price_difference(Some(0), Some(1)), Difference::Up(1));
    assert_eq!(price_difference(Some(1), Some(0)), Difference::Down(1));
    assert_eq!(price_difference(Some(-3), Some(4)), Difference::Up(7));
    assert_eq!(price_difference(Some(4), Some(-3)), Difference::Down(7));
    for a in [-1000i32, -1, 0, 1, 999, 1000, 12345] {
        for b in [-1000i32, -1, 0, 1, 999, 1000, 12345] {
            let expected = if b > a {
                Difference::Up(b.abs_diff(a))
            } else if b < a {
                Difference::Down(a.abs_diff(b))
            } else {
                Difference::Stay
            };
            assert_eq!(price_difference(Some(a), Some(b)), expected);
        }
    }
}

#[test]
fn price_difference_holds_at_the_ends_of_the_range() {
    assert_eq!(price_difference(Some(i32::MIN), Some(i32::MAX)), Difference::Up(u32::MAX));
    assert_eq!(price_difference(Some(i32::MAX), Some(i32::MIN)), Difference::Down(u32::MAX));
    assert_eq!(price_difference(Some(0), Some(i32::MAX)), Difference::Up(2147483647));
    assert_eq!(price_difference(Some(0), Some(i32::MIN)), Difference::Down(2147483648));
    assert_eq!(price_difference(Some(i32::MIN), Some(i32::MIN)), Difference::Stay);
}

#[test]
fn magnitude_is_the_amount_of_a_rise_or_a_fall() {
    assert_eq!(Difference::Up(500).magnitude(), 500);
    assert_eq!(Difference::Down(1500).magnitude(), 1500);
    assert_eq!(Difference::Stay.magnitude(), 0);
    assert_eq!(Difference::Error.magnitude(), 0);
}

#[test]
fn format_difference_renders_the_four_cases() {
    assert_eq!(format_difference(Difference::Error), "정보없음");
    assert_eq!(format_difference(Difference::Stay), "-");
    assert_eq!(format_difference(Difference::Up(500)), "▲500원");
    assert_eq!(format_difference(Difference::Down(1500)), "▼1,500원");
}

#[test]
fn format_difference_separates_thousands() {
    assert_eq!(format_difference(Difference::Up(1)), "▲1원");
    assert_eq!(format_difference(Difference::Up(999)), "▲999원");
    assert_eq!(format_difference(Difference::Up(1000)), "▲1,000원");
    assert_eq!(format_difference(Difference::Down(1234567)), "▼1,234,567원");
    assert_eq!(format_difference(Difference::Up(u32::MAX)), "▲4,294,967,295원");
    assert_eq!(format_difference(Difference::Down(2147483648)), "▼2,147,483,648원");
}

#[test]
fn format_price_renders_known_and_unknown_prices() {
    assert_eq!(format_price(None), "정보없음");
    assert_eq!(format_price(Some(10000)), "10,000원");
    assert_eq!(format_price(Some(9500)), "9,500원");
    assert_eq!(format_price(Some(0)), "0원");
    assert_eq!(format_price(Some(999)), "999원");
    assert_eq!(format_price(Some(i32::MAX)), "2,147,483,647원");
    assert_eq!(format_price(Some(-5)), "-5원");
    assert_eq!(format_price(Some(i32::MIN)), "-2,147,483,648원");
}

#[test]
fn format_change_block_fills_the_template() {
    assert_eq!(
        format_change_block(
            "A",
            "http://shop/?p=X",
            "10,500원",
            Difference::Up(500),
            "9,500원",
            Difference::Stay
        ),
        "[A](http://shop/?p=X)%0D%0A`\\- 카드가: 10,500원 (▲500원)`%0D%0A`\\- 현금가: 9,500원 (-)`%0D%0A"
    );
    assert_eq!(
        format_change_block("", "", "", Difference::Error, "", Difference::Error),
        "[]()%0D%0A`\\- 카드가:  (정보없음)`%0D%0A`\\- 현금가:  (정보없음)`%0D%0A"
    );
}

#[test]
fn format_change_block_escapes_the_name_only() {
    assert_eq!(
        format_change_block(
            "SSD 990 PRO (1TB)",
            "http://shop/?p=1_2",
            "정보없음",
            Difference::Stay,
            "8,000원",
            Difference::Down(1500)
        ),
        "[SSD 990 PRO \\(1TB\\)](http://shop/?p=1_2)%0D%0A`\\- 카드가: 정보없음 (-)`%0D%0A`\\- 현금가: 8,000원 (▼1,500원)`%0D%0A"
    );
}

fn in_threes(n: u64) -> String {
    let digits = n.to_string();
    let mut out = String::new();
    for (i, c) in digits.chars().enumerate() {
        if i > 0 && (digits.len() - i) % 3 == 0 {
            out.push(',');
        }
        out.push(c);
    }
    out
}

fn check_amount(n: u32) {
    let numeral = in_threes(u64::from(n));
    assert_eq!(format_difference(Difference::Up(n)), format!("▲{}원", numeral));
    assert_eq!(format_difference(Difference::Down(n)), format!("▼{}원", numeral));
    if let Ok(price) = i32::try_from(n) {
        assert_eq!(format_price(Some(price)), format!("{}원", numeral));
        assert_eq!(format_price(Some(-price)), format!("{}{}원", if n == 0 { "" } else { "-" }, numeral));
    }
}

#[test]
fn amounts_are_written_in_groups_of_three_digits() {
    for n in 0..=12000u32 {
        check_amount(n);
    }
    let mut power: u32 = 1;
    for _ in 0..9 {
        power *= 10;
        for n in [power - 1, power, power + 1, power + power / 10, 9 * power / 10] {
            check_amount(n);
        }
    }
    let mut n: u32 = 1;
    for _ in 0..5000 {
        n = n.wrapping_mul(1664525).wrapping_add(1013904223);
        check_amount(n);
    }
    check_amount(u32::MAX);
    check_amount(2147483647);
    check_amount(2147483648);
}
