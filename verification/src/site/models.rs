//! What the pages show.

use crate::data::models::{Item as StoredItem, ItemID, ItemState, UserID};
use crate::text::{decimal_text, push_decimal};
use vstd::prelude::*;

verus! {

/// The content of a page that lists items.
pub struct ContentItems {
    pub items: Vec<Item>,
}

/// The content of the page of one item.
pub struct ContentItem {
    pub q: String,
}

/// The content of the search page.
pub struct ContentSearch {
    pub q: String,
}

/// An item as a page shows it.
pub struct Item {
    pub id: ItemID,
    pub hidden: bool,
    pub modified: bool,
    pub by: String,
    pub by_id: UserID,
    pub rel_time: String,
    pub votes: i64,
    pub title: String,
    pub url: Option<Url>,
    pub text: Option<String>,
    pub comments: Vec<ItemID>,
}

/// The address of a story.
pub struct Url {
    pub full: String,
    pub domain: String,
}

/// The name under which the author with `id` is shown.
pub open spec fn author_name(id: UserID) -> Seq<char> {
    "user#"@ + decimal_text(id as nat)
}

impl Item {
    /// The stored item `data` as a page shows it: hidden unless alive,
    /// modified where it was changed after it was made, by the author
    /// [`author_name`], with an empty title where it has none.
    pub fn from_data(data: StoredItem) -> (r: Item)
        ensures
            r.id == data.id,
            r.hidden == (data.state != ItemState::Alive),
            r.modified == (data.time < data.mod_time),
            r.by@ == author_name(data.by),
            r.by_id == data.by,
            r.rel_time@ == "4 hours ago"@,
            r.votes == data.votes,
            r.title@ == match data.title {
                Some(title) => title@,
                None => Seq::<char>::empty(),
            },
            match data.url {
                Some(url) => r.url is Some && r.url->0.full@ == url@ && r.url->0.domain@
                    == "example.org"@,
                None => r.url is None,
            },
            match data.text {
                Some(text) => r.text is Some && r.text->0@ == text@,
                None => r.text is None,
            },
            r.comments@.len() == 0,
    {
        let mut by = "user#".to_owned();
        push_decimal(&mut by, data.by);
        let hidden = match data.state {
            ItemState::Alive => false,
            _ => true,
        };
        Item {
            id: data.id,
            hidden,
            modified: data.time < data.mod_time,
            by,
            by_id: data.by,
            rel_time: "4 hours ago".to_owned(),
            votes: data.votes,
            title: match data.title {
                Some(title) => title,
                None => String::new(),
            },
            url: match data.url {
                Some(url) => Some(Url { full: url, domain: "example.org".to_owned() }),
                None => None,
            },
            text: data.text,
            comments: Vec::new(),
        }
    }
}

} // verus!
