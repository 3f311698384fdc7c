//! FocusTrace: the logic of a focus-change logger, verified.
//!
//! The library holds what the application decides and computes: how focus
//! events are built, stored as rows and read back, how the log view
//! searches and orders them, how menu, close and relaunch requests change
//! the application's state, what the menu-bar menu lists, how settings take
//! their defaults, and where the application's files live.

pub mod text;
pub mod timestamp;
pub mod event;
pub mod paths;
pub mod settings;
pub mod order;
pub mod view;
pub mod tray;

pub use event::{FocusEvent, FocusTracker, StoredRow};
pub use order::SortKey;
pub use paths::{
    data_dir, data_path, data_path_under, launch_agent_plist, plist_path, settings_path_under,
};
pub use settings::{default_true, SearchScope, Settings};
pub use timestamp::Timestamp;
pub use tray::{menu_action_for, recent_texts, MenuAction, MenuIds, RECENT_SLOTS};
pub use view::{row_texts, scope_label, AppState, MenuEffect, RowTexts, Tab};
