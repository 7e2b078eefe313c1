//! The shape of the configuration.

use vstd::prelude::*;

verus! {

/// The chat that reports go to.
#[derive(Debug)]
pub struct Telegram {
    /// The credential of the bot.
    pub bot_token: String,
    /// The chat that the bot writes to.
    pub chat_id: String,
    /// Whether the chat's description is to state when the last sweep was.
    pub update_chat_description: bool,
}

/// The aggregator and the products to watch on it.
#[derive(Debug)]
pub struct Danawa {
    /// What the address of a product page starts with.
    pub url: String,
    /// The codes of the products to watch, in the order in which they are
    /// visited and reported.
    pub product_list: Vec<String>,
}

/// Everything that is configured.
#[derive(Debug)]
pub struct Settings {
    pub telegram: Telegram,
    pub danawa: Danawa,
}

} // verus!
