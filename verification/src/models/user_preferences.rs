//! Per-user preferences of the desktop client.

use vstd::prelude::*;

use crate::models::{CachePolicy, Theme, Timestamp};
use crate::text::copy_opt_string;

verus! {

/// Size and position of the main window.
#[derive(Debug, PartialEq)]
pub struct WindowSettings {
    pub width: u32,
    pub height: u32,
    pub position_x: Option<i32>,
    pub position_y: Option<i32>,
    pub is_maximized: bool,
    pub is_fullscreen: bool,
}

impl Clone for WindowSettings {
    fn clone(&self) -> (copy: WindowSettings)
        ensures
            copy == *self,
    {
        WindowSettings {
            width: self.width,
            height: self.height,
            position_x: self.position_x,
            position_y: self.position_y,
            is_maximized: self.is_maximized,
            is_fullscreen: self.is_fullscreen,
        }
    }
}

impl Default for WindowSettings {
    fn default() -> (settings: WindowSettings)
        ensures
            settings == (WindowSettings {
                width: 1024,
                height: 768,
                position_x: None,
                position_y: None,
                is_maximized: false,
                is_fullscreen: false,
            }),
    {
        WindowSettings {
            width: 1024,
            height: 768,
            position_x: None,
            position_y: None,
            is_maximized: false,
            is_fullscreen: false,
        }
    }
}

/// Desktop prompts and sounds.
#[derive(Debug, PartialEq)]
pub struct NotificationSettings {
    pub enabled: bool,
    pub play_sound: bool,
    pub show_alerts: bool,
}

impl Clone for NotificationSettings {
    fn clone(&self) -> (copy: NotificationSettings)
        ensures
            copy == *self,
    {
        NotificationSettings {
            enabled: self.enabled,
            play_sound: self.play_sound,
            show_alerts: self.show_alerts,
        }
    }
}

impl Default for NotificationSettings {
    fn default() -> (settings: NotificationSettings)
        ensures
            settings == (NotificationSettings { enabled: true, play_sound: true, show_alerts: true }),
    {
        NotificationSettings { enabled: true, play_sound: true, show_alerts: true }
    }
}

/// The preferences of one user; there is one record per user id.
#[derive(Debug)]
pub struct UserPreferences {
    pub user_id: String,
    pub global_hotkey: Option<String>,
    pub cache_policy: CachePolicy,
    pub theme: Theme,
    pub window_settings: WindowSettings,
    pub notification_settings: NotificationSettings,
    pub quick_capture_enabled: bool,
    pub system_tray_enabled: bool,
    pub auto_start: bool,
    pub analytics_enabled: bool,
    pub created_at: Timestamp,
    pub updated_at: Timestamp,
}

impl Clone for UserPreferences {
    fn clone(&self) -> (copy: UserPreferences)
        ensures
            copy == *self,
    {
        UserPreferences {
            user_id: self.user_id.clone(),
            global_hotkey: copy_opt_string(&self.global_hotkey),
            cache_policy: self.cache_policy,
            theme: self.theme,
            window_settings: self.window_settings.clone(),
            notification_settings: self.notification_settings.clone(),
            quick_capture_enabled: self.quick_capture_enabled,
            system_tray_enabled: self.system_tray_enabled,
            auto_start: self.auto_start,
            analytics_enabled: self.analytics_enabled,
            created_at: self.created_at,
            updated_at: self.updated_at,
        }
    }
}

impl UserPreferences {
    /// Records `now` as the time of the last change.
    pub fn touch(&mut self, now: Timestamp)
        ensures
            *final(self) == (UserPreferences { updated_at: now, ..*old(self) }),
    {
        self.updated_at = now;
    }
}

} // verus!
