//! Verified core of a file manager: locations and navigation history,
//! selection, file operations planning, thumbnails, search filters and
//! desktop-entry command expansion.

pub mod text;
pub mod mode;
pub mod paths;
pub mod operation;
pub mod recursive;
pub mod notifiers;
pub mod large_image;
pub mod thumbnail;
pub mod search;
pub mod exec;
pub mod mime_app;
pub mod thumbnailer;
pub mod mounter;
pub mod tab;
pub mod tab_state;
pub mod trash;
pub mod pdf_preview;
pub mod remote;
pub mod nav_tree;
pub mod hidden;
pub mod theme_catalog;
pub mod mime_icon;
pub mod network;
pub mod quicklook;
pub mod controller;
pub mod icons;
pub mod column_sort;
pub mod patterns;
pub mod completion;
