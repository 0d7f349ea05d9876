//! Snapshort: the verified core of a non-linear video editor.
//!
//! Value objects (frames, ranges, timecodes, resolutions); the media
//! assets and projects of the domain; the timeline's clip layout with its
//! insertion, removal, update and ripple-delete rules; the persisted job
//! queue and project library; export decisions, plan findings and
//! thumbnail scaling; the editor's status state and inspector memory; the
//! browser backend's playback clock; and the formatting and argument
//! checks of the command line and the desktop shell.
pub mod text;
pub mod binary64;
pub mod value_objects;
pub mod ids;
pub mod jobs;
pub mod asset;
pub mod job_store;
pub mod project_store;
pub mod timeline;
pub mod cli;
pub mod render;
pub mod export;
pub mod ai;
pub mod desktop;
pub mod editor;
pub mod inspector;
pub mod web_backend;
