//! Configuration handed to the library by its caller.
use vstd::prelude::*;

verus! {

/// Display labels of the item fields in delivered messages.
#[derive(Debug, Clone)]
pub struct AttributesMap {
    pub title: String,
    pub author: String,
    pub narrator: String,
    pub runtime: String,
    pub date: String,
}

/// Settings of one deployment.
#[derive(Debug, Clone)]
pub struct Settings {
    /// Address of the catalog page.
    pub url: String,
    /// Prefix put before an item's path to make the link in a message.
    pub url_header: String,
    /// Bound on the number of items kept in the catalog.
    pub max_books_kept: u32,
    /// Bound on the length, in characters, of one delivered message.
    pub max_message_length: u32,
    /// Bound on the number of lines kept in the activity log.
    pub default_log_length: u32,
    pub allowed_commands: Vec<String>,
    pub attribute_names: AttributesMap,
    pub redirect_message: String,
    /// Text of the link to an item in a message.
    pub book_url_message: String,
}

} // verus!
