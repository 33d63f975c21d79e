//! Application-shell records with decidable logic in them: release
//! information and the update check's outcome, the persisted window
//! geometry with its defaults, and the small data carriers the metrics
//! and provider layers exchange.
//!
//! Talking to the release endpoint, the window system and the system
//! statistics source is the caller's side.

use vstd::prelude::*;

use crate::store::opt_view;
use crate::text::{chars_to_string, str_to_chars};

verus! {

/// One release, as the update check reports it.
pub struct VersionInfo {
    pub version: String,
    pub release_date: String,
    pub changelog: String,
    pub download_url: String,
    pub checksum: Option<String>,
    pub is_critical: bool,
}

/// Spec-level release record.
pub ghost struct VersionInfoV {
    pub version: Seq<char>,
    pub release_date: Seq<char>,
    pub changelog: Seq<char>,
    pub download_url: Seq<char>,
    pub checksum: Option<Seq<char>>,
    pub is_critical: bool,
}

impl View for VersionInfo {
    type V = VersionInfoV;

    open spec fn view(&self) -> VersionInfoV {
        VersionInfoV {
            version: self.version@,
            release_date: self.release_date@,
            changelog: self.changelog@,
            download_url: self.download_url@,
            checksum: opt_view(self.checksum),
            is_critical: self.is_critical,
        }
    }
}

/// The update check's outcome.
pub struct UpdateStatus {
    pub has_update: bool,
    pub current_version: String,
    pub new_version: Option<String>,
    pub release_info: Option<VersionInfo>,
    pub is_installing: bool,
    pub error: Option<String>,
}

/// Spec-level outcome.
pub ghost struct UpdateStatusV {
    pub has_update: bool,
    pub current_version: Seq<char>,
    pub new_version: Option<Seq<char>>,
    pub release_info: Option<VersionInfoV>,
    pub is_installing: bool,
    pub error: Option<Seq<char>>,
}

/// Spec view of optional release info.
pub open spec fn opt_info_view(o: Option<VersionInfo>) -> Option<VersionInfoV> {
    match o {
        Some(v) => Some(v@),
        None => None,
    }
}

impl View for UpdateStatus {
    type V = UpdateStatusV;

    open spec fn view(&self) -> UpdateStatusV {
        UpdateStatusV {
            has_update: self.has_update,
            current_version: self.current_version@,
            new_version: opt_view(self.new_version),
            release_info: opt_info_view(self.release_info),
            is_installing: self.is_installing,
            error: opt_view(self.error),
        }
    }
}

/// A release tag with every leading `v` dropped: how a tag name becomes a
/// version.
pub open spec fn strip_v_spec(tag: Seq<char>) -> Seq<char>
    decreases tag.len(),
{
    if tag.len() > 0 && tag[0] == 'v' {
        strip_v_spec(tag.skip(1))
    } else {
        tag
    }
}

/// Drops every leading `v` from a release tag.
pub fn strip_v_prefix(tag: &String) -> (r: String)
    ensures
        r@ == strip_v_spec(tag@),
{
    let cs = str_to_chars(tag.as_str());
    let n = cs.len();
    let mut i: usize = 0;
    proof {
        assert(cs@.skip(0) =~= cs@);
    }
    while i < n && cs[i] == 'v'
        invariant
            n == cs@.len(),
            i <= n,
            strip_v_spec(cs@) == strip_v_spec(cs@.skip(i as int)),
        decreases n - i,
    {
        proof {
            assert(cs@.skip(i as int)[0] == cs@[i as int]);
            assert(cs@.skip(i as int).skip(1) =~= cs@.skip(i + 1));
        }
        i = i + 1;
    }
    proof {
        if i < n {
            assert(cs@.skip(i as int)[0] == cs@[i as int]);
        }
        assert(strip_v_spec(cs@.skip(i as int)) == cs@.skip(i as int));
    }
    let mut out: Vec<char> = Vec::new();
    let mut k: usize = i;
    while k < n
        invariant
            n == cs@.len(),
            i <= k <= n,
            out@ == cs@.subrange(i as int, k as int),
        decreases n - k,
    {
        out.push(cs[k]);
        k = k + 1;
        assert(out@ =~= cs@.subrange(i as int, k as int));
    }
    proof {
        assert(cs@.subrange(i as int, n as int) =~= cs@.skip(i as int));
    }
    chars_to_string(&out)
}

/// The outcome when the release endpoint answered: an update is on offer
/// exactly when the offered version differs from the running one.
pub fn update_status_found(current_version: &String, info: VersionInfo) -> (r: UpdateStatus)
    ensures
        r@.has_update == (info@.version != current_version@),
        r@.current_version == current_version@,
        r@.new_version == Some(info@.version),
        r@.release_info == Some(info@),
        r@.is_installing == false,
        r@.error is None,
{
    let has_update = !(info.version == *current_version);
    let new_version = info.version.clone();
    UpdateStatus {
        has_update,
        current_version: current_version.clone(),
        new_version: Some(new_version),
        release_info: Some(info),
        is_installing: false,
        error: None,
    }
}

/// The outcome when the release endpoint could not be asked: no update,
/// the failure carried along.
pub fn update_status_failed(current_version: &String, error: String) -> (r: UpdateStatus)
    ensures
        r@.has_update == false,
        r@.current_version == current_version@,
        r@.new_version is None,
        r@.release_info is None,
        r@.is_installing == false,
        r@.error == Some(error@),
{
    UpdateStatus {
        has_update: false,
        current_version: current_version.clone(),
        new_version: None,
        release_info: None,
        is_installing: false,
        error: Some(error),
    }
}

/// The persisted window geometry.
pub struct WindowState {
    pub x: i32,
    pub y: i32,
    pub width: u32,
    pub height: u32,
    pub maximized: bool,
}

/// Spec-level geometry.
pub ghost struct WindowStateV {
    pub x: int,
    pub y: int,
    pub width: int,
    pub height: int,
    pub maximized: bool,
}

impl View for WindowState {
    type V = WindowStateV;

    open spec fn view(&self) -> WindowStateV {
        WindowStateV {
            x: self.x as int,
            y: self.y as int,
            width: self.width as int,
            height: self.height as int,
            maximized: self.maximized,
        }
    }
}

impl Default for WindowState {
    /// The geometry used when none was persisted.
    fn default() -> (r: WindowState)
        ensures
            r@ == (WindowStateV { x: 100, y: 100, width: 800, height: 600, maximized: false }),
    {
        WindowState { x: 100, y: 100, width: 800, height: 600, maximized: false }
    }
}

/// Counts the metrics panel reads off the store.
pub struct DatabaseMetrics {
    pub conversation_count: i64,
    pub message_count: i64,
    pub database_size: u64,
}

/// One chat turn as a provider receives it.
pub struct ProviderMessage {
    pub role: String,
    pub content: String,
}

} // verus!
