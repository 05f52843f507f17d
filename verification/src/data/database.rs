//! Where the items come from.

use crate::data::models::{Item, ItemKind, ItemState, Timestamp};
use vstd::prelude::*;

verus! {

/// The store of the items.
#[derive(Clone, Copy)]
pub struct Database {}

impl Database {
    /// The stories in the order of their rank. `now` is the time of asking.
    pub fn get_news_ranked(&self, now: Timestamp) -> (items: Vec<Item>)
        ensures
            items.len() == 1,
            items[0].id == 1,
            items[0].state == ItemState::Alive,
            items[0].kind == ItemKind::Story,
            items[0].by == 100,
            items[0].time == now,
            items[0].mod_time == now,
            items[0].votes == 42,
            items[0].text is None,
            items[0].parent is None,
            items[0].kids@.len() == 0,
            items[0].url is Some && items[0].url->0@ == "https://www.example.org/"@,
            items[0].title is Some && items[0].title->0@ == "an example news article"@,
    {
        let mut items: Vec<Item> = Vec::new();
        items.push(
            Item {
                id: 1,
                state: ItemState::Alive,
                kind: ItemKind::Story,
                by: 100,
                time: now,
                mod_time: now,
                votes: 42,
                text: None,
                parent: None,
                kids: Vec::new(),
                url: Some("https://www.example.org/".to_owned()),
                title: Some("an example news article".to_owned()),
            },
        );
        items
    }
}

} // verus!
