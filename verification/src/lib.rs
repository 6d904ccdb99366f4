//! The state and the rules of a tabbed text editor shell.
pub mod actions;
pub mod active;
pub mod agreement;
pub mod app;
pub mod bookmarks;
pub mod brackets;
pub mod caret;
pub mod comment;
pub mod completion;
pub mod disk;
pub mod edit;
pub mod find;
pub mod fonts;
pub mod frame;
pub mod grid;
pub mod highlight;
pub mod launch;
pub mod lines;
pub mod lsp;
pub mod memo;
pub mod multi_cursor;
pub mod plugins;
pub mod reporting;
pub mod resize;
pub mod restore;
pub mod session;
pub mod shortcuts;
pub mod status;
pub mod tab;
pub mod tabs;
pub mod tabstrip;
pub mod text;
pub mod theme;
pub mod toolbar;
pub mod updates;
