//! The detail card: what it shows of one access point, or a message.

use vstd::prelude::*;

verus! {

/// What the detail card shows: a title, a subtitle, key/value rows, and a
/// message that, when present, is shown in place of the rows.
#[derive(Debug, Clone)]
pub struct DetailViewModel {
    pub title: String,
    pub subtitle: String,
    pub rows: Vec<(String, String)>,
    pub message: Option<String>,
}

/// The title the card falls back to.
pub open spec fn default_title() -> Seq<char> {
    "WiFi Details"@
}

impl DetailViewModel {
    /// The title as shown: the fallback title when the model's is empty.
    pub open spec fn title_text(self) -> Seq<char> {
        if self.title@.len() == 0 {
            default_title()
        } else {
            self.title@
        }
    }

    /// The model of a card that shows only `message`, under the fallback
    /// title.
    pub fn for_message(message: String) -> (m: Self)
        ensures
            m.title@ == default_title(),
            m.subtitle@.len() == 0,
            m.rows@.len() == 0,
            m.message == Some(message),
    {
        DetailViewModel {
            title: String::from_str("WiFi Details"),
            subtitle: String::new(),
            rows: Vec::new(),
            message: Some(message),
        }
    }

    /// The title as shown.
    pub fn shown_title(&self) -> (r: String)
        ensures
            r@ == self.title_text(),
    {
        if self.title.as_str().is_empty() {
            String::from_str("WiFi Details")
        } else {
            self.title.clone()
        }
    }
}

impl Default for DetailViewModel {
    fn default() -> (m: Self)
        ensures
            m.title@.len() == 0,
            m.subtitle@.len() == 0,
            m.rows@.len() == 0,
            m.message is None,
    {
        DetailViewModel {
            title: String::new(),
            subtitle: String::new(),
            rows: Vec::new(),
            message: None,
        }
    }
}

} // verus!
