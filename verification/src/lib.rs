//! CDK Drive updater library.
//!
//! Compares locally installed CDK Drive components against the versions the
//! CDK Online Software Distribution (OSD) catalog page publishes, and decides
//! what to report and what to install.  Every function here is specified by a
//! contract and verified; reading the registry, the filesystem, the network
//! and the environment is left to the caller, which hands the results in as
//! plain values.
//!
//! Modules:
//! - `text`: character-level text operations (trimming, case, searching,
//!   whitespace words, decimal rendering).
//! - `html`: a flat model of a parsed HTML document and its tree queries.
//! - `version`: ordering of version strings.
//! - `cdk_info`: the CDK installation snapshot and registry value decoding.
//! - `catalog`: reading the OSD catalog page and comparing against it.
//! - `utils`: missing-value tokens, settings, file-name tokens, timestamps.
//! - `installed`: installed-product versions and choosing the newest.
//! - `app_logging`: the ASCII report tables.
//! - `install`: installer argument tokenising, download names, outcome texts.
//! - `targets`: run mode, tracked software and per-target decisions.
pub mod text;
pub mod html;
pub mod version;
pub mod cdk_info;
pub mod catalog;
pub mod utils;
pub mod installed;
pub mod app_logging;
pub mod install;
pub mod targets;
