//! Items and users as they are stored.

use vstd::prelude::*;

verus! {

/// The unique identifier of an item.
pub type ItemID = u64;

/// The unique identifier of a user. Users are referred to by it and never by
/// a name of their choice, which they may change or keep to themselves.
pub type UserID = u64;

/// A point in time: seconds since the Unix epoch.
pub type Timestamp = u64;

/// A post, a question or a comment as it is stored and shown.
pub struct Item {
    pub id: ItemID,
    /// Whether the item is alive, deleted or locked. Locked items are hidden
    /// but can be reached by their address.
    pub state: ItemState,
    pub kind: ItemKind,
    /// The user that created the item.
    pub by: UserID,
    /// When the item was created.
    pub time: Timestamp,
    /// When the item was last modified; equal to `time` where it never was.
    pub mod_time: Timestamp,
    pub votes: i64,
    /// The HTML text of a comment or question; a story has none.
    pub text: Option<String>,
    /// The parent comment, or the story for a root comment; a story has none.
    pub parent: Option<ItemID>,
    /// The root comments of a story or the replies to a comment.
    pub kids: Vec<ItemID>,
    /// The page that a story refers to.
    pub url: Option<String>,
    /// The title of a story or question; a comment has none.
    pub title: Option<String>,
}

/// The kinds of item.
#[derive(Clone, Copy, Debug, PartialEq, Eq, Structural)]
pub enum ItemKind {
    Story,
    Question,
    Comment,
}

/// The states of an item; it is in exactly one at any time.
#[derive(Clone, Copy, Debug, PartialEq, Eq, Structural)]
pub enum ItemState {
    Alive,
    Deleted,
    Locked,
}

/// A user of the site.
pub struct User {
    pub id: UserID,
    pub state: UserState,
    /// A name of the user's choosing, unique on the site.
    pub username: Option<String>,
    pub name: Option<String>,
    /// The locale that the user asked for, whatever the browser says.
    pub locale: Option<String>,
    pub location: Option<String>,
    pub create_time: Timestamp,
    pub last_login_time: Timestamp,
    /// The karma that the user has collected; it can be negative.
    pub karma: i64,
    /// The user's self-description, as HTML.
    pub about: Option<String>,
    /// What the user has submitted, in the order of creation.
    pub items: Vec<ItemID>,
    /// The addresses from which the user has come, kept for a ban list.
    pub ips: Vec<String>,
    /// The ways in which the user can prove who they are; at least one.
    pub authentications: Vec<Box<dyn UserAuthentication>>,
    pub preferences: Option<UserPreferences>,
}

/// The states of a user; a user is in exactly one at any time.
#[derive(Clone, Copy, Debug, PartialEq, Eq, Structural)]
pub enum UserState {
    /// Active, with a profile that others can see.
    Public,
    /// Active, with a profile that others cannot see.
    Hidden,
    /// Removed by the user. The items stay, the profile goes.
    Deleted,
    /// Shut out by an admin.
    Locked,
}

/// The kinds of user; a user is of exactly one.
#[derive(Clone, Copy, Debug, PartialEq, Eq, Structural)]
pub enum UserKind {
    /// May submit items and keep preferences.
    Member,
    /// A member who may also manage the items of others.
    Moderator,
    /// A moderator who may also change other users.
    Admin,
}

/// A way in which a user proves who they are.
pub trait UserAuthentication {

}

/// What a user may set for themselves.
pub struct UserPreferences {
    pub language: UserLanguage,
    pub color_schema: ColorSchema,
}

/// The languages that a user can choose from.
#[derive(Clone, Copy, Debug, PartialEq, Eq, Structural)]
pub enum UserLanguage {
    /// As the browser says.
    Auto,
    English,
    Spanish,
    Dutch,
}

/// The color schemas of the site.
#[derive(Clone, Copy, Debug, PartialEq, Eq, Structural)]
pub enum ColorSchema {
    /// As the browser says.
    Auto,
    Light,
    Dark,
}

/// A record of something that happened on the site.
pub struct Action {}

} // verus!
