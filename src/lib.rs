//! Composable widgets for character-grid terminal interfaces: rectangular
//! areas, framed borders with pluggable glyph styles and color themes,
//! focus navigation over lists, a scroll window that keeps the focused
//! item visible, and layouts that place widgets one after another.
//!
//! Widgets draw into a list of [`Command`]s, the operations of a terminal
//! output: moving the cursor, printing text and setting colors.

pub mod geometry;
pub mod sink;
pub mod widget;
pub mod borders;
pub mod focus;
pub mod scroll;
pub mod stacked;
pub mod tabs;
pub mod files;

pub use borders::{Border, BorderChar, BorderStyle, BorderTheme, Flat, Inset, Outset, Tall, Wide};
pub use files::{FileEntry, FileList, directory_listing};
pub use focus::FocusList;
pub use geometry::Area;
pub use scroll::{ScrollState, ScrollVertical, handle_scroll};
pub use sink::{Color, Command};
pub use stacked::{Axis, Entry, Stacked};
pub use tabs::{DefaultTabsTheme, TabSide, Tabs, TabsTheme};
pub use widget::{Event, Label, Widget};
