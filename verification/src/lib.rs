//! Logic of a system update frontend for image-based desktops.
//!
//! Basic building blocks are texts ([`text`], [`text_map`]), numbers ([`number`]),
//! orderings ([`order`]), dates ([`date`]), JSON documents ([`json`]) and command lines
//! ([`command`]). On these rest image tags and families, the builds of a registry and
//! the differences between images, and on those the state of an update and what each
//! page shows.

pub mod command;
pub mod date;
pub mod json;
pub mod number;
pub mod order;
pub mod text;
pub mod text_map;

pub mod family;
pub mod family_selection;
pub mod registry_client;
pub mod sbom_diff;
pub mod service;
pub mod tag;

pub mod settings;
pub mod system_info;
pub mod update_worker;

pub mod app;
pub mod changelog;
pub mod deployment;
pub mod history;
pub mod log_view;
pub mod rebase_dialog;
pub mod segmented_progress;
pub mod status_view;
pub mod update_list;
