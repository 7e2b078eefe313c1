use danawa_watch::danawa::{parse_price, DanawaData, SearchError, Searcher};
use danawa_watch::price::PriceData;

#[test]
fn parse_price_drops_thousands_separators() {
    assert_eq!(parse_price("10,000"), Some(10000));
    assert_eq!(parse_price("1,234,567"), Some(1234567));
    assert_eq!(parse_price("9500"), Some(9500));
    assert_eq!(parse_price("0"), Some(0));
    assert_eq!(parse_price("1,0,0"), Some(100));
    assert_eq!(parse_price(",5,"), Some(5));
    assert_eq!(parse_price("00012"), Some(12));
}

#[test]
fn parse_price_accepts_a_sign() {
    assert_eq!(parse_price("-5"), Some(-5));
    assert_eq!(parse_price("+5"), Some(5));
    assert_eq!(parse_price("-0"), Some(0));
    assert_eq!(parse_price(",-1,000"), Some(-1000));
}

#[test]
fn parse_price_gives_unknown_for_what_is_no_number() {
    assert_eq!(parse_price(""), None);
    assert_eq!(parse_price(","), None);
    assert_eq!(parse_price(",,,"), None);
    assert_eq!(parse_price("+"), None);
    assert_eq!(parse_price("-"), None);
    assert_eq!(parse_price("+-5"), None);
    assert_eq!(parse_price("--5"), None);
    assert_eq!(parse_price("5-"), None);
    assert_eq!(parse_price("abc"), None);
    assert_eq!(parse_price("12a"), None);
    assert_eq!(parse_price(" 100"), None);
    assert_eq!(parse_price("100 "), None);
    assert_eq!(parse_price("1.5"), None);
    assert_eq!(parse_price("1_000"), None);
    assert_eq!(parse_price("10,000원"), None);
    assert_eq!(parse_price("٣"), None);
    assert_eq!(parse_price("１２"), None);
}

#[test]
fn parse_price_keeps_to_32_bits() {
    assert_eq!(parse_price("2147483647"), Some(i32::MAX));
    assert_eq!(parse_price("2,147,483,647"), Some(i32::MAX));
    assert_eq!(parse_price("2147483648"), None);
    assert_eq!(parse_price("-2147483648"), Some(i32::MIN));
    assert_eq!(parse_price("-2147483649"), None);
    assert_eq!(parse_price("+2147483648"), None);
    assert_eq!(parse_price("99999999999999999999999999"), None);
    assert_eq!(parse_price("-99999999999999999999999999"), None);
    assert_eq!(parse_price("00000000000000000000000002147483647"), Some(i32::MAX));
    assert_eq!(parse_price("21474836470"), None);
    assert_eq!(parse_price("4294967296"), None);
    assert_eq!(parse_price("18446744073709551616"), None);
}

#[test]
fn parse_price_agrees_with_the_standard_parser() {
    let samples = [
        "", "0", "7", "42", "1,000", "12,345,678", "+1", "-1", "+", "-", "++1", "-+1", "1-", "a",
        "1a", "a1", " 1", "1 ", "0x10", "1e3", "2147483647", "2147483648", "-2147483648",
        "-2147483649", "000", "-000", "+000", ",", "1,", ",1", "1,,2", "९", "１", "\u{0}", "1\n",
        "3000000000", "-3000000000", "9223372036854775807", "340282366920938463463374607431768211456",
    ];
    for sample in samples {
        let expected: Option<i32> = sample.replace(",", "").parse().ok();
        assert_eq!(parse_price(sample), expected, "for {:?}", sample);
    }
    for n in [0i64, 1, 9, 10, 99, 100, 999, 1000, 65535, 65536, 2147483646, 2147483647, 2147483648] {
        for text in [format!("{}", n), format!("-{}", n), format!("+{}", n)] {
            let expected: Option<i32> = text.parse().ok();
            assert_eq!(parse_price(&text), expected, "for {:?}", text);
        }
    }
}

#[test]
fn product_url_is_the_prefix_and_the_code() {
    let searcher = Searcher::new("http://prod.danawa.com/info/?pcode=");
    assert_eq!(searcher.product_url("1234567"), "http://prod.danawa.com/info/?pcode=1234567");
    assert_eq!(searcher.product_url(""), "http://prod.danawa.com/info/?pcode=");
    assert_eq!(Searcher::new("http://host").product_url("code"), "http://hostcode");
    assert_eq!(Searcher::new("http://host/").product_url("/code"), "http://host//code");
    assert_eq!(Searcher::new("").product_url("X"), "X");
}

#[test]
fn check_status_accepts_the_success_statuses_only() {
    assert!(Searcher::check_status(200).is_ok());
    assert!(Searcher::check_status(204).is_ok());
    assert!(Searcher::check_status(299).is_ok());
    for status in [0u16, 100, 199, 300, 301, 404, 500, 503, 999, u16::MAX] {
        assert!(matches!(Searcher::check_status(status), Err(SearchError::Server(s)) if s == status));
    }
}

fn page(name: Option<&str>, card: Option<&str>, cash: Option<&str>) -> DanawaData {
    DanawaData {
        product_name: name.map(str::to_string),
        card_price: card.map(str::to_string),
        cash_price: cash.map(str::to_string),
    }
}

#[test]
fn get_product_info_reads_the_fields() {
    let searcher = Searcher::new("http://shop/?p=");
    let info =
        searcher.get_product_info("77", page(Some("A"), Some("10,000"), Some("9,500"))).unwrap();
    assert_eq!(info.product_name, "A");
    assert_eq!(info.url, "http://shop/?p=77");
    assert_eq!(info.price, PriceData { card_price: Some(10000), cash_price: Some(9500) });
}

#[test]
fn get_product_info_leaves_unreadable_prices_unknown() {
    let searcher = Searcher::new("http://shop/?p=");
    let info = searcher.get_product_info("77", page(Some("이름 (new)"), None, Some("sold out"))).unwrap();
    assert_eq!(info.product_name, "이름 (new)");
    assert_eq!(info.price, PriceData { card_price: None, cash_price: None });
    let info = searcher.get_product_info("78", page(Some(""), Some(""), Some("8,000"))).unwrap();
    assert_eq!(info.product_name, "");
    assert_eq!(info.url, "http://shop/?p=78");
    assert_eq!(info.price, PriceData { card_price: None, cash_price: Some(8000) });
}

#[test]
fn get_product_info_requires_the_name() {
    let searcher = Searcher::new("http://shop/?p=");
    let refused = searcher.get_product_info("77", page(None, Some("10,000"), Some("9,500")));
    assert!(matches!(refused, Err(SearchError::Parse(ref reason)) if reason == "source not found"));
    let refused = searcher.get_product_info("77", page(None, None, None));
    assert_eq!(refused.err().unwrap().message(), "Error parsing danawa: source not found");
}

#[test]
fn search_error_messages() {
    assert_eq!(
        SearchError::Http("timed out".to_string()).message(),
        "Error sending http request: timed out"
    );
    assert_eq!(SearchError::Server(404).message(), "Server returned bad status: 404");
    assert_eq!(SearchError::Server(0).message(), "Server returned bad status: 0");
    assert_eq!(SearchError::Server(65535).message(), "Server returned bad status: 65535");
    assert_eq!(
        SearchError::Parse("source not found".to_string()).message(),
        "Error parsing danawa: source not found"
    );
}
