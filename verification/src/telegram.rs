//! The chat side: the two requests of the bot API that the watcher makes,
//! and the escaping that the chat's markup asks for.

use vstd::prelude::*;

verus! {

/// Holds what every request to the bot API starts with, and the chat that
/// the requests are about.
pub struct Sender {
    api_link: String,
    chat_id: String,
}

impl Sender {
    /// The address that every request of this sender starts with.
    pub closed spec fn api_link(&self) -> Seq<char> {
        self.api_link@
    }

    /// The chat that this sender writes to.
    pub closed spec fn chat_id(&self) -> Seq<char> {
        self.chat_id@
    }

    /// The address of the request that posts `message`.
    pub open spec fn send_message_request(
        &self,
        message: Seq<char>,
        disable_notification: bool,
    ) -> Seq<char> {
        self.api_link() + "sendMessage?chat_id="@ + self.chat_id() + "&text="@ + message
            + "&parse_mode=MarkdownV2&disable_web_page_preview=true&disable_notification="@ + (
        if disable_notification {
            "true"@
        } else {
            "false"@
        })
    }

    /// The address of the request that sets the chat's description.
    pub open spec fn set_chat_description_request(&self, description: Seq<char>) -> Seq<char> {
        self.api_link() + "setChatDescription?chat_id="@ + self.chat_id() + "&description="@
            + description
    }

    /// A sender for the bot with the credential `bot_token`, writing to
    /// `chat_id`.
    pub fn new(bot_token: &str, chat_id: &str) -> (sender: Sender)
        ensures
            sender.api_link() == "https://api.telegram.org/bot"@ + bot_token@ + "/"@,
            sender.chat_id() == chat_id@,
    {
        Sender {
            api_link: String::from_str("https://api.telegram.org/bot").concat(bot_token).concat(
                "/",
            ),
            chat_id: chat_id.to_owned(),
        }
    }

    /// The address to request in order to post `message`, with or without
    /// a notification. The message goes into the address as it is: the caller
    /// has escaped it and written its line breaks the way an address holds
    /// them.
    pub fn send_message_url(&self, message: &str, disable_notification: bool) -> (url: String)
        ensures
            url@ == self.send_message_request(message@, disable_notification),
    {
        let url = self.api_link.clone().concat("sendMessage?chat_id=").concat(
            self.chat_id.as_str(),
        ).concat("&text=").concat(message).concat(
            "&parse_mode=MarkdownV2&disable_web_page_preview=true&disable_notification=",
        );
        if disable_notification {
            url.concat("true")
        } else {
            url.concat("false")
        }
    }

    /// The address to request in order to set the chat's description to
    /// `description`, which goes into the address as it is.
    pub fn set_chat_description_url(&self, description: &str) -> (url: String)
        ensures
            url@ == self.set_chat_description_request(description@),
    {
        self.api_link.clone().concat("setChatDescription?chat_id=").concat(
            self.chat_id.as_str(),
        ).concat("&description=").concat(description)
    }
}

/// The characters that the chat's markup reserves.
pub open spec fn reserved_chars() -> Seq<char> {
    seq![
        '_', '*', '[', ']', '(', ')', '~', '`', '>', '#', '+', '-', '=', '|', '{', '}', '.', '!',
    ]
}

/// Whether the chat's markup reserves `c`.
pub open spec fn is_reserved(c: char) -> bool {
    reserved_chars().contains(c)
}

/// `s` with a backslash in front of each reserved character and every other
/// character as it is.
pub open spec fn escaped(s: Seq<char>) -> Seq<char>
    decreases s.len(),
{
    if s.len() == 0 {
        Seq::empty()
    } else if is_reserved(s.last()) {
        escaped(s.drop_last()).push('\\').push(s.last())
    } else {
        escaped(s.drop_last()).push(s.last())
    }
}

/// Whether `c` is a decimal digit or an unaccented Latin letter.
pub open spec fn is_plain(c: char) -> bool {
    ('0' <= c && c <= '9') || ('a' <= c && c <= 'z') || ('A' <= c && c <= 'Z')
}

/// Text in which nothing is reserved is its own escaped form.
pub proof fn lemma_escaped_unreserved(s: Seq<char>)
    requires
        forall|i: int| 0 <= i < s.len() ==> !is_reserved(#[trigger] s[i]),
    ensures
        escaped(s) == s,
    decreases s.len(),
{
    if s.len() > 0 {
        let front = s.drop_last();
        assert forall|i: int| 0 <= i < front.len() implies !is_reserved(#[trigger] front[i]) by {
            assert(front[i] == s[i]);
        }
        lemma_escaped_unreserved(front);
        assert(front.push(s.last()) =~= s);
    }
}

/// Escaping leaves text of digits and Latin letters as it is.
pub proof fn lemma_escaped_plain(s: Seq<char>)
    requires
        forall|i: int| 0 <= i < s.len() ==> is_plain(#[trigger] s[i]),
    ensures
        escaped(s) == s,
{
    assert forall|i: int| 0 <= i < s.len() implies !is_reserved(#[trigger] s[i]) by {
        assert(is_plain(s[i]));
    }
    lemma_escaped_unreserved(s);
}

/// Whether the chat's markup reserves `c`, by the table of reserved
/// characters.
fn reserved(c: char) -> (found: bool)
    ensures
        found == is_reserved(c),
{
    let table: [char; 18] = [
        '_', '*', '[', ']', '(', ')', '~', '`', '>', '#', '+', '-', '=', '|', '{', '}', '.', '!',
    ];
    assert(table@ =~= reserved_chars());
    let mut i: usize = 0;
    while i < 18
        invariant
            i <= 18,
            table@ == reserved_chars(),
            forall|j: int| 0 <= j < i ==> reserved_chars()[j] != c,
        decreases 18 - i,
    {
        if table[i] == c {
            assert(reserved_chars()[i as int] == c);
            return true;
        }
        i = i + 1;
    }
    false
}

/// Prepares `message` for the chat's markup: each reserved character gets a
/// backslash in front, every other character passes through. Text of digits
/// and Latin letters therefore comes out as it went in.
pub fn escape(message: &str) -> (output: String)
    ensures
        output@ == escaped(message@),
        (forall|i: int| 0 <= i < message@.len() ==> is_plain(#[trigger] message@[i])) ==> output@
            == message@,
{
    let mut output = String::new();
    for c in it: message.chars()
        invariant
            it.seq() == message@,
            output@ == escaped(message@.take(it.index() as int)),
    {
        proof {
            let i = it.index() as int;
            assert(message@.take(i + 1).drop_last() =~= message@.take(i));
            assert(message@.take(i + 1).last() == c);
        }
        if reserved(c) {
            output.push('\\');
        }
        output.push(c);
    }
    proof {
        assert(message@.take(message@.len() as int) =~= message@);
        if forall|i: int| 0 <= i < message@.len() ==> is_plain(#[trigger] message@[i]) {
            lemma_escaped_plain(message@);
        }
    }
    output
}

} // verus!
