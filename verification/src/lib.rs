//! The logic of `psht`, which deploys apps to containers on a host and joins them to a
//! tailnet.

pub mod app_name;
pub mod app_state;
pub mod blocked;
pub mod blue_green;
pub mod blue_green_course;
pub mod bootstrap;
pub mod caddy;
pub mod cleanup;
pub mod cli;
pub mod deploy;
pub mod doctor;
pub mod env;
pub mod env_command;
pub mod failure;
pub mod fingerprint;
pub mod git;
pub mod health;
pub mod host;
pub mod hostname;
pub mod in_place;
pub mod in_place_course;
pub mod intent;
pub mod json;
pub mod lock;
pub mod number;
pub mod order;
pub mod paths;
pub mod power;
pub mod power_course;
pub mod profile;
pub mod progress;
pub mod project;
pub mod provide;
pub mod quiet_wait;
pub mod release;
pub mod release_address;
pub mod repair;
pub mod rows;
pub mod runtime;
pub mod scripts;
pub mod setup;
pub mod shell;
pub mod split;
pub mod stats;
pub mod storage;
pub mod table;
pub mod tailnet;
pub mod tailscale;
pub mod text;
pub mod tomltree;
pub mod update;
