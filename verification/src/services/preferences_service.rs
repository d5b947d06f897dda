//! The preferences of the users of this client.
//!
//! Reading preferences is lenient where the rest of the store is strict: an
//! unknown cache policy or theme falls back to the default, and a time
//! outside the calendar to the time of reading.

use vstd::prelude::*;

use crate::database::rows::{
    has_key, index_of_key, keys_unique, lemma_index_of_key, put_row, with_key, Keyed,
};
use crate::database::table::{find_row, store_at};
use crate::models::timestamp::representable;
use crate::models::{
    CachePolicy, NotificationSettings, Theme, Timestamp, UserPreferences, WindowSettings,
};
use crate::text::{copy_opt_string, prefixed, str_eq};

verus! {

/// Why preferences could not be read or written.
#[derive(Debug, PartialEq, Eq)]
pub enum PreferencesError {
    /// The database refused or could not be reached.
    Database(String),
    /// A structured column does not hold what it should.
    Serialization(String),
}

impl PreferencesError {
    /// The error in words.
    pub open spec fn spec_message(self) -> Seq<char> {
        match self {
            PreferencesError::Database(message) => "database error: "@ + message@,
            PreferencesError::Serialization(message) => "serialization error: "@ + message@,
        }
    }

    /// The error in words.
    pub fn message(&self) -> (text: String)
        ensures
            text@ == self.spec_message(),
    {
        match self {
            PreferencesError::Database(message) => prefixed("database error: ", message.as_str()),
            PreferencesError::Serialization(message) => prefixed(
                "serialization error: ",
                message.as_str(),
            ),
        }
    }
}

/// What an operation on preferences returns.
pub type PreferencesResult<T> = Result<T, PreferencesError>;

/// A row of `user_preferences`. The window and notification settings are
/// held as values; as columns they are JSON text.
#[derive(Debug, PartialEq)]
pub struct PreferencesRow {
    pub user_id: String,
    pub global_hotkey: Option<String>,
    pub cache_policy: String,
    pub theme: String,
    pub window_settings: WindowSettings,
    pub notification_settings: NotificationSettings,
    pub quick_capture_enabled: bool,
    pub system_tray_enabled: bool,
    pub auto_start: bool,
    pub analytics_enabled: bool,
    pub created_at: i64,
    pub updated_at: i64,
}

/// What a [`PreferencesRow`] holds, as mathematical values.
pub struct PreferencesRowView {
    pub user_id: Seq<char>,
    pub global_hotkey: Option<Seq<char>>,
    pub cache_policy: Seq<char>,
    pub theme: Seq<char>,
    pub window_settings: WindowSettings,
    pub notification_settings: NotificationSettings,
    pub quick_capture_enabled: bool,
    pub system_tray_enabled: bool,
    pub auto_start: bool,
    pub analytics_enabled: bool,
    pub created_at: i64,
    pub updated_at: i64,
}

impl View for PreferencesRow {
    type V = PreferencesRowView;

    open spec fn view(&self) -> PreferencesRowView {
        PreferencesRowView {
            user_id: self.user_id@,
            global_hotkey: self.global_hotkey.deep_view(),
            cache_policy: self.cache_policy@,
            theme: self.theme@,
            window_settings: self.window_settings,
            notification_settings: self.notification_settings,
            quick_capture_enabled: self.quick_capture_enabled,
            system_tray_enabled: self.system_tray_enabled,
            auto_start: self.auto_start,
            analytics_enabled: self.analytics_enabled,
            created_at: self.created_at,
            updated_at: self.updated_at,
        }
    }
}

impl DeepView for PreferencesRow {
    type V = PreferencesRowView;

    open spec fn deep_view(&self) -> PreferencesRowView {
        self.view()
    }
}

impl Clone for PreferencesRow {
    fn clone(&self) -> (copy: PreferencesRow)
        ensures
            copy@ == self@,
    {
        PreferencesRow {
            user_id: self.user_id.clone(),
            global_hotkey: copy_opt_string(&self.global_hotkey),
            cache_policy: self.cache_policy.clone(),
            theme: self.theme.clone(),
            window_settings: self.window_settings.clone(),
            notification_settings: self.notification_settings.clone(),
            quick_capture_enabled: self.quick_capture_enabled,
            system_tray_enabled: self.system_tray_enabled,
            auto_start: self.auto_start,
            analytics_enabled: self.analytics_enabled,
            created_at: self.created_at,
            updated_at: self.updated_at,
        }
    }
}

impl Keyed for PreferencesRowView {
    open spec fn key(&self) -> Seq<char> {
        self.user_id
    }
}

/// What a [`UserPreferences`] holds, as mathematical values.
pub struct UserPreferencesView {
    pub user_id: Seq<char>,
    pub global_hotkey: Option<Seq<char>>,
    pub cache_policy: CachePolicy,
    pub theme: Theme,
    pub window_settings: WindowSettings,
    pub notification_settings: NotificationSettings,
    pub quick_capture_enabled: bool,
    pub system_tray_enabled: bool,
    pub auto_start: bool,
    pub analytics_enabled: bool,
    pub created_at: int,
    pub updated_at: int,
}

impl View for UserPreferences {
    type V = UserPreferencesView;

    open spec fn view(&self) -> UserPreferencesView {
        UserPreferencesView {
            user_id: self.user_id@,
            global_hotkey: self.global_hotkey.deep_view(),
            cache_policy: self.cache_policy,
            theme: self.theme,
            window_settings: self.window_settings,
            notification_settings: self.notification_settings,
            quick_capture_enabled: self.quick_capture_enabled,
            system_tray_enabled: self.system_tray_enabled,
            auto_start: self.auto_start,
            analytics_enabled: self.analytics_enabled,
            created_at: self.created_at@,
            updated_at: self.updated_at@,
        }
    }
}

impl DeepView for UserPreferences {
    type V = UserPreferencesView;

    open spec fn deep_view(&self) -> UserPreferencesView {
        self.view()
    }
}

/// The row that preferences are written as.
pub open spec fn preferences_to_row(preferences: UserPreferencesView) -> PreferencesRowView {
    PreferencesRowView {
        user_id: preferences.user_id,
        global_hotkey: preferences.global_hotkey,
        cache_policy: preferences.cache_policy.tag(),
        theme: preferences.theme.tag(),
        window_settings: preferences.window_settings,
        notification_settings: preferences.notification_settings,
        quick_capture_enabled: preferences.quick_capture_enabled,
        system_tray_enabled: preferences.system_tray_enabled,
        auto_start: preferences.auto_start,
        analytics_enabled: preferences.analytics_enabled,
        created_at: preferences.created_at as i64,
        updated_at: preferences.updated_at as i64,
    }
}

/// The instant that a time column is read as at `now`: its own where that
/// lies within the calendar, else `now`.
pub open spec fn lenient_instant(seconds: i64, now: int) -> int {
    if representable(seconds as int) {
        seconds as int
    } else {
        now
    }
}

/// The preferences that a row is read as at `now`.
pub open spec fn row_to_preferences(row: PreferencesRowView, now: int) -> UserPreferencesView {
    UserPreferencesView {
        user_id: row.user_id,
        global_hotkey: row.global_hotkey,
        cache_policy: match CachePolicy::parse(row.cache_policy) {
            Some(policy) => policy,
            None => CachePolicy::Balanced,
        },
        theme: match Theme::parse(row.theme) {
            Some(theme) => theme,
            None => Theme::System,
        },
        window_settings: row.window_settings,
        notification_settings: row.notification_settings,
        quick_capture_enabled: row.quick_capture_enabled,
        system_tray_enabled: row.system_tray_enabled,
        auto_start: row.auto_start,
        analytics_enabled: row.analytics_enabled,
        created_at: lenient_instant(row.created_at, now),
        updated_at: lenient_instant(row.updated_at, now),
    }
}

/// Writes preferences as a row.
pub fn preferences_row(preferences: &UserPreferences) -> (row: PreferencesRow)
    ensures
        row@ == preferences_to_row(preferences@),
{
    PreferencesRow {
        user_id: preferences.user_id.clone(),
        global_hotkey: copy_opt_string(&preferences.global_hotkey),
        cache_policy: preferences.cache_policy.as_str().to_owned(),
        theme: preferences.theme.as_str().to_owned(),
        window_settings: preferences.window_settings.clone(),
        notification_settings: preferences.notification_settings.clone(),
        quick_capture_enabled: preferences.quick_capture_enabled,
        system_tray_enabled: preferences.system_tray_enabled,
        auto_start: preferences.auto_start,
        analytics_enabled: preferences.analytics_enabled,
        created_at: preferences.created_at.seconds(),
        updated_at: preferences.updated_at.seconds(),
    }
}

/// Reads a time column leniently.
fn decode(seconds: i64, now: Timestamp) -> (instant: Timestamp)
    ensures
        instant@ == lenient_instant(seconds, now@),
{
    match Timestamp::from_seconds(seconds) {
        Some(instant) => instant,
        None => now,
    }
}

/// Reads a row as preferences at `now`.
pub fn map_row_to_preferences(row: &PreferencesRow, now: Timestamp) -> (preferences:
    UserPreferences)
    ensures
        preferences@ == row_to_preferences(row@, now@),
{
    let cache_policy = match CachePolicy::from_str(row.cache_policy.as_str()) {
        Ok(policy) => policy,
        Err(_) => CachePolicy::Balanced,
    };
    let theme = match Theme::from_str(row.theme.as_str()) {
        Ok(theme) => theme,
        Err(_) => Theme::System,
    };
    UserPreferences {
        user_id: row.user_id.clone(),
        global_hotkey: copy_opt_string(&row.global_hotkey),
        cache_policy,
        theme,
        window_settings: row.window_settings.clone(),
        notification_settings: row.notification_settings.clone(),
        quick_capture_enabled: row.quick_capture_enabled,
        system_tray_enabled: row.system_tray_enabled,
        auto_start: row.auto_start,
        analytics_enabled: row.analytics_enabled,
        created_at: decode(row.created_at, now),
        updated_at: decode(row.updated_at, now),
    }
}

/// Preferences that are within the calendar are read back from their own
/// row, whenever they are read.
pub proof fn lemma_preferences_round_trip(preferences: UserPreferencesView, now: int)
    requires
        representable(preferences.created_at),
        representable(preferences.updated_at),
    ensures
        row_to_preferences(preferences_to_row(preferences), now) == preferences,
{
    preferences.cache_policy.lemma_tag_round_trip();
    preferences.theme.lemma_tag_round_trip();
}

/// The table after a row was saved: a row of the same user is overwritten
/// in place but for its creation time, a new user is appended.
pub open spec fn save_preferences_row(rows: Seq<PreferencesRowView>, row: PreferencesRowView)
    -> Seq<PreferencesRowView> {
    if has_key(rows, row.user_id) {
        let i = index_of_key(rows, row.user_id);
        rows.update(i, PreferencesRowView { created_at: rows[i].created_at, ..row })
    } else {
        rows.push(row)
    }
}

/// The table after the hotkey of `user_id` was set at `now`; without such a
/// user the table stays as it is.
pub open spec fn set_hotkey(
    rows: Seq<PreferencesRowView>,
    user_id: Seq<char>,
    hotkey: Option<Seq<char>>,
    now: int,
) -> Seq<PreferencesRowView> {
    if has_key(rows, user_id) {
        let i = index_of_key(rows, user_id);
        rows.update(
            i,
            PreferencesRowView { global_hotkey: hotkey, updated_at: now as i64, ..rows[i] },
        )
    } else {
        rows
    }
}

/// What loading the preferences of `user_id` at `now` gives.
pub open spec fn loaded(rows: Seq<PreferencesRowView>, user_id: Seq<char>, now: int) -> Option<
    UserPreferencesView,
> {
    if has_key(rows, user_id) {
        Some(row_to_preferences(rows[index_of_key(rows, user_id)], now))
    } else {
        None
    }
}

/// Keeps one record of preferences per user.
pub struct PreferencesService {
    rows: Vec<PreferencesRow>,
}

impl View for PreferencesService {
    type V = Seq<PreferencesRowView>;

    closed spec fn view(&self) -> Seq<PreferencesRowView> {
        self.rows.deep_view()
    }
}

impl PreferencesService {
    /// The service holds every user once.
    #[verifier::type_invariant]
    pub open spec fn one_record_per_user(self) -> bool {
        keys_unique(self@)
    }

    /// A service without any record.
    pub fn new() -> (service: PreferencesService)
        ensures
            service@ == Seq::<PreferencesRowView>::empty(),
    {
        let service = PreferencesService { rows: Vec::new() };
        assert(service@ =~= Seq::empty());
        service
    }

    /// The rows of `user_preferences`, as they are to be persisted.
    pub fn rows(&self) -> (rows: &Vec<PreferencesRow>)
        ensures
            rows.deep_view() == self@,
            keys_unique(self@),
    {
        proof {
            use_type_invariant(self);
        }
        &self.rows
    }

    /// Puts a row as it was persisted: it replaces the row of the same user,
    /// or is appended.
    pub fn restore_row(&mut self, row: PreferencesRow)
        ensures
            final(self)@ == put_row(old(self)@, row@),
    {
        proof {
            use_type_invariant(&*self);
        }
        let mut table: Vec<PreferencesRow> = Vec::new();
        core::mem::swap(&mut table, &mut self.rows);
        let same_user = |held: &PreferencesRow| -> (hit: bool)
            ensures
                hit == (held@.user_id == row@.user_id),
            {
                held.user_id == row.user_id
            };
        let hit = find_row(&table, same_user, Ghost(with_key(row@.user_id)));
        store_at(&mut table, hit, row);
        self.rows = table;
    }

    /// Loads the preferences of `user_id`, read at `now`, or `None` where
    /// the user has none.
    pub fn load(&self, user_id: &str, now: Timestamp) -> (found: PreferencesResult<
        Option<UserPreferences>,
    >)
        ensures
            found matches Ok(preferences) && preferences.deep_view() == loaded(
                self@,
                user_id@,
                now@,
            ),
    {
        proof {
            use_type_invariant(self);
        }
        let same_user = |held: &PreferencesRow| -> (hit: bool)
            ensures
                hit == (held@.user_id == user_id@),
            {
                str_eq(held.user_id.as_str(), user_id)
            };
        match find_row(&self.rows, same_user, Ghost(with_key(user_id@))) {
            Some(i) => {
                proof {
                    lemma_index_of_key(self.rows.deep_view(), user_id@, i as int);
                }
                Ok(Some(map_row_to_preferences(&self.rows[i], now)))
            },
            None => Ok(None),
        }
    }

    /// Saves preferences: inserts them, or overwrites those of the same user
    /// but for their creation time.
    pub fn save(&mut self, preferences: &UserPreferences) -> (done: PreferencesResult<()>)
        ensures
            done is Ok,
            final(self)@ == save_preferences_row(old(self)@, preferences_to_row(preferences@)),
    {
        proof {
            use_type_invariant(&*self);
        }
        let row = preferences_row(preferences);
        let mut table: Vec<PreferencesRow> = Vec::new();
        core::mem::swap(&mut table, &mut self.rows);
        let ghost before = table.deep_view();
        let same_user = |held: &PreferencesRow| -> (hit: bool)
            ensures
                hit == (held@.user_id == row@.user_id),
            {
                held.user_id == row.user_id
            };
        let found = find_row(&table, same_user, Ghost(with_key(row@.user_id)));
        match found {
            Some(i) => {
                let merged = PreferencesRow { created_at: table[i].created_at, ..row };
                proof {
                    lemma_index_of_key(before, row@.user_id, i as int);
                }
                table.set(i, merged);
                assert(table.deep_view() =~= save_preferences_row(before, row@));
            },
            None => {
                table.push(row);
                assert(table.deep_view() =~= save_preferences_row(before, row@));
            },
        }
        self.rows = table;
        Ok(())
    }

    /// Sets or clears the global hotkey of `user_id` and records `now` as
    /// the time of the change. Without such a user nothing changes.
    pub fn update_hotkey(&mut self, user_id: &str, hotkey: Option<String>, now: Timestamp) -> (done:
        PreferencesResult<()>)
        ensures
            done is Ok,
            final(self)@ == set_hotkey(old(self)@, user_id@, hotkey.deep_view(), now@),
    {
        proof {
            use_type_invariant(&*self);
        }
        let mut table: Vec<PreferencesRow> = Vec::new();
        core::mem::swap(&mut table, &mut self.rows);
        let ghost before = table.deep_view();
        let same_user = |held: &PreferencesRow| -> (hit: bool)
            ensures
                hit == (held@.user_id == user_id@),
            {
                str_eq(held.user_id.as_str(), user_id)
            };
        match find_row(&table, same_user, Ghost(with_key(user_id@))) {
            Some(i) => {
                let mut changed = table[i].clone();
                changed.global_hotkey = hotkey;
                changed.updated_at = now.seconds();
                proof {
                    lemma_index_of_key(before, user_id@, i as int);
                }
                table.set(i, changed);
                assert(table.deep_view() =~= set_hotkey(
                    before,
                    user_id@,
                    hotkey.deep_view(),
                    now@,
                ));
            },
            None => {},
        }
        self.rows = table;
        Ok(())
    }
}

} // verus!
