//! The data that the extractor, the detector and the notifier pass around.
//! Instants are milliseconds since the Unix epoch, in UTC.

use vstd::prelude::*;

verus! {

/// The selectors that describe how to pull records out of one site's listing page.
/// A missing item selector makes extraction fail; a missing field selector leaves
/// that field empty.
#[derive(Clone, Debug)]
pub struct ExtractionConfig {
    pub list_url: Option<String>,
    pub item_selector: Option<String>,
    pub title_selector: Option<String>,
    pub url_selector: Option<String>,
    pub version_selector: Option<String>,
    pub author_selector: Option<String>,
    pub image_selector: Option<String>,
    pub base_url: Option<String>,
}

/// A tracked site with its extraction configuration.
#[derive(Clone, Debug)]
pub struct Site {
    pub id: i64,
    pub name: String,
    pub url: String,
    pub parser_config: ExtractionConfig,
    pub created_at: i64,
    pub updated_at: i64,
}

/// One record (a mod release), identified by its absolute URL.
#[derive(Clone, Debug)]
pub struct Mod {
    pub id: i64,
    pub site_id: i64,
    pub title: String,
    pub url: String,
    pub version: Option<String>,
    pub author: Option<String>,
    pub description: Option<String>,
    pub image_url: Option<String>,
    pub changes: Option<String>,
    pub created_at: i64,
    pub updated_at: i64,
}

/// The value of a record, with text fields as character sequences.
pub struct ModView {
    pub id: i64,
    pub site_id: i64,
    pub title: Seq<char>,
    pub url: Seq<char>,
    pub version: Option<Seq<char>>,
    pub author: Option<Seq<char>>,
    pub description: Option<Seq<char>>,
    pub image_url: Option<Seq<char>>,
    pub changes: Option<Seq<char>>,
    pub created_at: i64,
    pub updated_at: i64,
}

impl View for Mod {
    type V = ModView;

    open spec fn view(&self) -> ModView {
        ModView {
            id: self.id,
            site_id: self.site_id,
            title: self.title@,
            url: self.url@,
            version: self.version.deep_view(),
            author: self.author.deep_view(),
            description: self.description.deep_view(),
            image_url: self.image_url.deep_view(),
            changes: self.changes.deep_view(),
            created_at: self.created_at,
            updated_at: self.updated_at,
        }
    }
}

/// A change to a known record: its version moved on.
#[derive(Clone, Debug)]
pub struct ModUpdate {
    pub mod_id: i64,
    pub site_id: i64,
    pub old_version: Option<String>,
    pub new_version: Option<String>,
    pub changes: Option<String>,
}

/// A stored notice shown to the user.
#[derive(Clone, Debug)]
pub struct Notification {
    pub id: i64,
    pub mod_id: i64,
    pub site_id: i64,
    pub title: String,
    pub message: String,
    pub read: bool,
    pub created_at: i64,
}

/// A copy of an optional string.
pub fn copy_opt(o: &Option<String>) -> (r: Option<String>)
    ensures
        r == *o,
{
    match o {
        Some(s) => Some(s.clone()),
        None => None,
    }
}

impl Mod {
    /// A field-for-field copy.
    pub fn copy(&self) -> (r: Mod)
        ensures
            r == *self,
    {
        Mod {
            id: self.id,
            site_id: self.site_id,
            title: self.title.clone(),
            url: self.url.clone(),
            version: copy_opt(&self.version),
            author: copy_opt(&self.author),
            description: copy_opt(&self.description),
            image_url: copy_opt(&self.image_url),
            changes: copy_opt(&self.changes),
            created_at: self.created_at,
            updated_at: self.updated_at,
        }
    }
}

} // verus!
