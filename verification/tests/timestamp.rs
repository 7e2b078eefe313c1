use danawa_watch::timestamp::{chat_description, Timestamp};

fn at(year: i32, month: u32, day: u32, hour: u32, minute: u32) -> Timestamp {
    Timestamp { year, month, day, hour, minute }
}

fn by_chrono(t: &Timestamp) -> String {
    let moment = chrono::NaiveDate::from_ymd_opt(t.year, t.month, t.day)
        .unwrap()
        .and_hms_opt(t.hour, t.minute, 0)
        .unwrap();
    format!("마지막 확인: {}", moment.format("%Y년 %m월 %d일 %H시 %M분"))
}

#[test]
fn chat_description_pads_each_field() {
    assert_eq!(chat_description(&at(2024, 3, 5, 7, 8)), "마지막 확인: 2024년 03월 05일 07시 08분");
    assert_eq!(
        chat_description(&at(2021, 12, 31, 23, 59)),
        "마지막 확인: 2021년 12월 31일 23시 59분"
    );
    assert_eq!(chat_description(&at(2000, 1, 1, 0, 0)), "마지막 확인: 2000년 01월 01일 00시 00분");
    assert_eq!(chat_description(&at(987, 10, 10, 10, 10)), "마지막 확인: 0987년 10월 10일 10시 10분");
    assert_eq!(chat_description(&at(0, 1, 1, 0, 0)), "마지막 확인: 0000년 01월 01일 00시 00분");
    assert_eq!(chat_description(&at(9999, 9, 9, 9, 9)), "마지막 확인: 9999년 09월 09일 09시 09분");
}

#[test]
fn chat_description_signs_years_beyond_four_digits() {
    assert_eq!(chat_description(&at(10000, 1, 1, 0, 0)), "마지막 확인: +10000년 01월 01일 00시 00분");
    assert_eq!(chat_description(&at(-1, 1, 1, 0, 0)), "마지막 확인: -0001년 01월 01일 00시 00분");
    assert_eq!(
        chat_description(&at(i32::MIN, 1, 1, 0, 0)),
        "마지막 확인: -2147483648년 01월 01일 00시 00분"
    );
    assert_eq!(
        chat_description(&at(i32::MAX, 1, 1, 0, 0)),
        "마지막 확인: +2147483647년 01월 01일 00시 00분"
    );
}

#[test]
fn chat_description_agrees_with_the_calendar_library() {
    let moments = [
        at(2024, 3, 5, 7, 8),
        at(1999, 12, 31, 23, 59),
        at(2020, 2, 29, 12, 0),
        at(1, 1, 1, 1, 1),
        at(0, 6, 15, 0, 30),
        at(999, 9, 9, 9, 9),
        at(9999, 12, 31, 23, 59),
        at(10000, 1, 1, 0, 0),
        at(123456, 7, 8, 9, 10),
        at(-1, 2, 3, 4, 5),
        at(-12345, 11, 30, 22, 44),
    ];
    for moment in moments.iter() {
        assert_eq!(chat_description(moment), by_chrono(moment));
    }
}

#[test]
fn chat_description_has_the_fixed_shape() {
    let text = chat_description(&at(2024, 3, 5, 7, 8));
    let chars: Vec<char> = text.chars().collect();
    let shape: Vec<char> = "마지막 확인: ####년 ##월 ##일 ##시 ##분".chars().collect();
    assert_eq!(chars.len(), shape.len());
    for (c, s) in chars.iter().zip(shape.iter()) {
        if *s == '#' {
            assert!(c.is_ascii_digit());
        } else {
            assert_eq!(c, s);
        }
    }
}
