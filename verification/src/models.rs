//! Core data model: configuration records (profiles and sources), the derived
//! per-item records handed back to callers, and their specification views.

use vstd::prelude::*;

verus! {

/// Status of one item of a source, freshly computed against the observed
/// state of the filesystem on every query.
#[derive(Clone, Copy, Debug, PartialEq, Eq, Structural)]
pub enum ItemStatus {
    /// A symlink at the target slot resolves to this item's source path.
    Active,
    /// The item is not projected and nothing occupies its target slot.
    Inactive,
    /// A symlink occupies the slot but its destination is missing, or it
    /// points elsewhere while the item is declared enabled.
    Broken,
    /// Another enabled source claims the name, or a foreign entity occupies
    /// the target slot.
    Conflict,
}

/// One candidate item of a source directory, with its resolved status.
#[derive(Clone, Debug, PartialEq)]
pub struct Item {
    pub name: String,
    pub is_directory: bool,
    pub source_path: String,
    pub status: ItemStatus,
    pub enabled: bool,
    pub conflict_source: Option<String>,
}

/// Outcome of probing whether this process can create symbolic links.
#[derive(Clone, Debug, PartialEq)]
pub struct PermissionStatus {
    pub can_create_symlinks: bool,
    pub requires_elevation: bool,
    pub is_developer_mode: bool,
    pub error_message: Option<String>,
}

/// Reported outcome of a single enable/disable toggle.
#[derive(Clone, Debug, PartialEq)]
pub struct SymlinkResult {
    pub success: bool,
    pub item_name: String,
    pub error: Option<String>,
}

/// A directory of optional items, projected into a target directory.
#[derive(Clone, Debug, PartialEq)]
pub struct Source {
    pub id: String,
    pub name: String,
    pub source_path: String,
    pub target_path: Option<String>,
    pub enabled_items: Vec<String>,
}

/// A named collection of sources sharing a default target path.
#[derive(Clone, Debug, PartialEq)]
pub struct Profile {
    pub id: String,
    pub name: String,
    pub base_path: String,
    pub sources: Vec<Source>,
}

/// The persisted configuration: every profile, and which one is active.
#[derive(Clone, Debug, PartialEq)]
pub struct AppConfig {
    pub version: u32,
    pub profiles: Vec<Profile>,
    pub active_profile_id: Option<String>,
}

/// In-memory application state: the configuration and where it is persisted.
pub struct AppState {
    pub config: AppConfig,
    pub config_path: String,
}

/// Mathematical image of a [`Source`].
#[verifier::ext_equal]
pub ghost struct SourceView {
    pub id: Seq<char>,
    pub name: Seq<char>,
    pub source_path: Seq<char>,
    pub target_path: Option<Seq<char>>,
    pub enabled_items: Seq<Seq<char>>,
}

impl View for Source {
    type V = SourceView;

    open spec fn view(&self) -> SourceView {
        SourceView {
            id: self.id@,
            name: self.name@,
            source_path: self.source_path@,
            target_path: self.target_path.deep_view(),
            enabled_items: self.enabled_items.deep_view(),
        }
    }
}

/// Mathematical image of a [`Profile`].
#[verifier::ext_equal]
pub ghost struct ProfileView {
    pub id: Seq<char>,
    pub name: Seq<char>,
    pub base_path: Seq<char>,
    pub sources: Seq<SourceView>,
}

impl View for Profile {
    type V = ProfileView;

    open spec fn view(&self) -> ProfileView {
        ProfileView {
            id: self.id@,
            name: self.name@,
            base_path: self.base_path@,
            sources: self.sources@.map_values(|s: Source| s@),
        }
    }
}

/// Mathematical image of an [`AppConfig`].
#[verifier::ext_equal]
pub ghost struct AppConfigView {
    pub version: u32,
    pub profiles: Seq<ProfileView>,
    pub active_profile_id: Option<Seq<char>>,
}

impl View for AppConfig {
    type V = AppConfigView;

    open spec fn view(&self) -> AppConfigView {
        AppConfigView {
            version: self.version,
            profiles: self.profiles@.map_values(|p: Profile| p@),
            active_profile_id: self.active_profile_id.deep_view(),
        }
    }
}

/// The directory a source projects into: its own override when present,
/// else the profile's base path.
pub open spec fn effective_target(s: SourceView, base: Seq<char>) -> Seq<char> {
    match s.target_path {
        Some(t) => t,
        None => base,
    }
}

/// Whether `name` is a member of the source's declared enabled set.
pub open spec fn has_enabled(s: SourceView, name: Seq<char>) -> bool {
    s.enabled_items.contains(name)
}

/// Relies on `uuid::Uuid::new_v4` and its `to_string`: a freshly generated
/// random identifier. Nothing is promised of the produced text.
#[verifier::external_body]
fn new_uuid() -> (r: String) {
    uuid::Uuid::new_v4().to_string()
}

impl Source {
    /// A new source with a fresh identity and an empty enabled set.
    pub fn new(name: String, source_path: String, target_path: Option<String>) -> (r: Source)
        ensures
            r@.name == name@,
            r@.source_path == source_path@,
            r@.target_path == target_path.deep_view(),
            r@.enabled_items.len() == 0,
    {
        Source {
            id: new_uuid(),
            name,
            source_path,
            target_path,
            enabled_items: Vec::new(),
        }
    }

    /// The effective target path: the source's own override, else the
    /// profile's base path.
    pub fn get_target_path<'a>(&'a self, profile_base_path: &'a str) -> (r: &'a str)
        ensures
            r@ == effective_target(self@, profile_base_path@),
    {
        match &self.target_path {
            Some(t) => t.as_str(),
            None => profile_base_path,
        }
    }
}

impl Profile {
    /// A new profile with a fresh identity and no sources.
    pub fn new(name: String, base_path: String) -> (r: Profile)
        ensures
            r@.name == name@,
            r@.base_path == base_path@,
            r@.sources.len() == 0,
    {
        Profile {
            id: new_uuid(),
            name,
            base_path,
            sources: Vec::new(),
        }
    }
}

impl Default for AppConfig {
    /// An empty configuration at the current schema version.
    fn default() -> (r: AppConfig)
        ensures
            r.version == 1,
            r@.profiles.len() == 0,
            r@.active_profile_id is None,
    {
        AppConfig {
            version: 1,
            profiles: Vec::new(),
            active_profile_id: None,
        }
    }
}

} // verus!
