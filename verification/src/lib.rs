//! BlueFlame privacy-browser core: filter rules, trust scoring, URL-bar
//! routing and the small bounded stores the browser shell keeps in memory.

pub mod text;
pub mod filter_parser;
pub mod search;
pub mod browser;
pub mod ring;
pub mod clock;
pub mod control_log;
pub mod debug_log;
pub mod downloads;
pub mod proxy;
pub mod claude_tabs;
pub mod token;
pub mod approval;
pub mod urls;
pub mod rx;
pub mod assoc;
pub mod body_analysis;
pub mod security;
pub mod tls_verifier;
pub mod trust;
pub mod b64;
pub mod brand;
pub mod html;
pub mod metasearch;
pub mod new_tab;
pub mod favicons;
pub mod dns;
pub mod ca_tpm;
pub mod ca;
pub mod ca_trust;
pub mod acl;
pub mod devtools;
pub mod context_menu;
pub mod storage;
pub mod session;
pub mod import_export;
pub mod reputation;
pub mod list_loader;
pub mod commands;
pub mod protocol;
pub mod upstream;
pub mod dispatch;
pub mod procs;
