use danawa_watch::telegram::{escape, Sender};

#[test]
fn escape_puts_a_backslash_before_each_reserved_character() {
    for c in "_*[]()~`>#+-=|{}.!".chars() {
        assert_eq!(escape(&c.to_string()), format!("\\{}", c));
    }
    assert_eq!(
        escape("_*[]()~`>#+-=|{}.!"),
        "\\_\\*\\[\\]\\(\\)\\~\\`\\>\\#\\+\\-\\=\\|\\{\\}\\.\\!"
    );
}

#[test]
fn escape_leaves_digits_and_latin_letters_alone() {
    let plain = "abcdefghijklmnopqrstuvwxyzABCDEFGHIJKLMNOPQRSTUVWXYZ0123456789";
    assert_eq!(escape(plain), plain);
    assert_eq!(escape("A"), "A");
    assert_eq!(escape("RTX4090"), "RTX4090");
}

#[test]
fn escape_leaves_other_characters_alone() {
    assert_eq!(escape(""), "");
    assert_eq!(escape("삼성전자 갤럭시"), "삼성전자 갤럭시");
    assert_eq!(escape("a\\b"), "a\\b");
    assert_eq!(escape("a b,c:d;e'f\"g/h?i@j$k%l^m&n<o"), "a b,c:d;e'f\"g/h?i@j$k%l^m&n<o");
    assert_eq!(escape("line\nbreak"), "line\nbreak");
}

#[test]
fn escape_keeps_the_order_of_the_text() {
    assert_eq!(escape("A_b*c"), "A\\_b\\*c");
    assert_eq!(escape("삼성 990 PRO (1TB)"), "삼성 990 PRO \\(1TB\\)");
    assert_eq!(escape("v1.2-rc!"), "v1\\.2\\-rc\\!");
    assert_eq!(escape(".."), "\\.\\.");
    assert_eq!(escape("\\."), "\\\\.");
}

#[test]
fn send_message_url_holds_the_message_as_it_is() {
    let sender = Sender::new("TOKEN", "@channel");
    assert_eq!(
        sender.send_message_url("hello", true),
        "https://api.telegram.org/botTOKEN/sendMessage?chat_id=@channel&text=hello\
         &parse_mode=MarkdownV2&disable_web_page_preview=true&disable_notification=true"
    );
    assert_eq!(
        sender.send_message_url("[A](u)%0D%0A`\\- x`%0D%0A", false),
        "https://api.telegram.org/botTOKEN/sendMessage?chat_id=@channel\
         &text=[A](u)%0D%0A`\\- x`%0D%0A\
         &parse_mode=MarkdownV2&disable_web_page_preview=true&disable_notification=false"
    );
    assert_eq!(
        Sender::new("", "").send_message_url("", false),
        "https://api.telegram.org/bot/sendMessage?chat_id=&text=\
         &parse_mode=MarkdownV2&disable_web_page_preview=true&disable_notification=false"
    );
}

#[test]
fn set_chat_description_url_holds_the_description_as_it_is() {
    let sender = Sender::new("12:ab", "-100");
    assert_eq!(
        sender.set_chat_description_url("마지막 확인: 2024년 03월 05일 07시 08분"),
        "https://api.telegram.org/bot12:ab/setChatDescription?chat_id=-100\
         &description=마지막 확인: 2024년 03월 05일 07시 08분"
    );
    assert_eq!(
        sender.set_chat_description_url(""),
        "https://api.telegram.org/bot12:ab/setChatDescription?chat_id=-100&description="
    );
}
