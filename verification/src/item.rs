//! Plain data the tool passes around: the application id, item visibility,
//! the arguments that describe a workshop item, and the two configuration
//! records the tool persists.

use vstd::prelude::*;

use crate::tags::Tag;

verus! {

/// Identifier of the application the workshop items belong to.
#[derive(Clone, Copy, PartialEq, Eq, Structural)]
pub struct AppId(pub u32);

/// Who may see a published workshop item.
#[derive(Clone, Copy, PartialEq, Eq, Structural)]
pub enum PublishedFileVisibility {
    FriendsOnly,
    Private,
    Public,
    Unlisted,
}

impl Default for PublishedFileVisibility {
    /// A fresh item is private until the user says otherwise.
    fn default() -> (r: Self)
        ensures
            r == PublishedFileVisibility::Private,
    {
        PublishedFileVisibility::Private
    }
}

/// Arguments that describe the workshop item being created or updated.
/// Paths are carried as plain strings; the unverified shell resolves them.
pub struct WorkshopItemArgs {
    pub title: Option<String>,
    pub description: Option<String>,
    pub content_path: Option<String>,
    pub visibility: Option<PublishedFileVisibility>,
    pub tags: Vec<Tag>,
    pub preview_path: Option<String>,
    pub change_log: Option<String>,
    pub globs: Vec<String>,
    pub ignore_files: Vec<String>,
}

/// Arguments of the update command: the item description plus the switch
/// that skips re-uploading the content files.
pub struct UpdateCommand {
    pub workshop_item: WorkshopItemArgs,
    pub no_content_update: bool,
}

/// The tool's own configuration record.
pub struct AppConfig {
    pub open_item_page_on_complete: bool,
}

impl Default for AppConfig {
    /// By default the item's page is opened once an operation completes.
    fn default() -> (r: Self)
        ensures
            r.open_item_page_on_complete,
    {
        AppConfig { open_item_page_on_complete: true }
    }
}

/// The metadata record stored beside an item's content, tying the content
/// directory to a published item and remembering its tags.
pub struct WorkshopItemConfig {
    pub app_id: u32,
    pub item_id: u64,
    pub tags: Vec<Tag>,
}

impl Default for WorkshopItemConfig {
    /// The empty record: no application, no item, no tags.
    fn default() -> (r: Self)
        ensures
            r.app_id == 0,
            r.item_id == 0,
            r.tags@.len() == 0,
    {
        WorkshopItemConfig { app_id: 0, item_id: 0, tags: Vec::new() }
    }
}

} // verus!
