use vstd::prelude::*;

verus! {

/// A per-view engine setting that the settings panel can read and change.
#[derive(Clone, Copy, Debug, PartialEq, Eq, Structural)]
pub enum WebviewSetting {
    Javascript,
    WebGL,
    JsClipboardAccess,
}

/// The browser's persisted preferences; every one is off by default.
#[derive(Clone, Copy, Debug, PartialEq, Eq, Structural)]
pub struct Settings {
    pub private_browsing: bool,
    pub enable_javascript: bool,
    pub enable_webgl: bool,
    pub offline_web_app_cache: bool,
    pub page_cache: bool,
    pub enable_media_capabilities: bool,
    pub do_not_track: bool,
    pub enable_local_storage: bool,
    pub enable_indexed_db: bool,
    pub media_playback_requires_user_gesture: bool,
    pub enable_html5_local_storage: bool,
    pub enable_html5_database: bool,
    pub enable_xss_auditor: bool,
    pub enable_hyperlink_auditing: bool,
    pub enable_dns_prefetching: bool,
    pub allow_modal_dialogs: bool,
    pub javascript_can_open_windows_automatically: bool,
    pub javascript_can_access_clipboard: bool,
    pub enable_site_specific_quirks: bool,
}

impl Settings {
    /// Whether every preference is off.
    pub open spec fn all_off(&self) -> bool {
        !self.private_browsing && !self.enable_javascript && !self.enable_webgl
            && !self.offline_web_app_cache && !self.page_cache && !self.enable_media_capabilities
            && !self.do_not_track && !self.enable_local_storage && !self.enable_indexed_db
            && !self.media_playback_requires_user_gesture && !self.enable_html5_local_storage
            && !self.enable_html5_database && !self.enable_xss_auditor
            && !self.enable_hyperlink_auditing && !self.enable_dns_prefetching
            && !self.allow_modal_dialogs && !self.javascript_can_open_windows_automatically
            && !self.javascript_can_access_clipboard && !self.enable_site_specific_quirks
    }
}

impl Default for Settings {
    fn default() -> (r: Settings)
        ensures
            r.all_off(),
    {
        Settings {
            private_browsing: false,
            enable_javascript: false,
            enable_webgl: false,
            offline_web_app_cache: false,
            page_cache: false,
            enable_media_capabilities: false,
            do_not_track: false,
            enable_local_storage: false,
            enable_indexed_db: false,
            media_playback_requires_user_gesture: false,
            enable_html5_local_storage: false,
            enable_html5_database: false,
            enable_xss_auditor: false,
            enable_hyperlink_auditing: false,
            enable_dns_prefetching: false,
            allow_modal_dialogs: false,
            javascript_can_open_windows_automatically: false,
            javascript_can_access_clipboard: false,
            enable_site_specific_quirks: false,
        }
    }
}

} // verus!
