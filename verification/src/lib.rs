pub mod text;
pub mod queue;
pub mod paths;
pub mod archive;
pub mod config;
pub mod toml_edit;
pub mod settings;
pub mod backups;
pub mod history;
pub mod notifications;
pub mod logs;
pub mod worker;
pub mod cli;
pub mod passwords;
pub mod disk;
pub mod extract;
pub mod dryrun;
pub mod html;
pub mod auth;
pub mod pages;
pub mod status;
pub mod api;
