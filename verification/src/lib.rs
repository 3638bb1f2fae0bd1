//! Verified core of the Yazelix Helix fork.
//!
//! Two parts of the fork are here:
//!
//! * the local editor action bridge: which environment switches it on and
//!   how each setting is validated ([`bridge_env`]), where its files and
//!   its transport live ([`bridge_layout`]), and the request protocol with
//!   the decisions taken while serving a connection ([`bridge_protocol`]);
//! * the tree-sitter grammar source lock: which grammars `languages.toml`
//!   makes active ([`languages`]), how each source is keyed and prefetched
//!   ([`grammar_source`], [`grammar_prefetch`]), and how the lock is built,
//!   merged and validated ([`grammar_lock`], [`lock_entries`]).
//!
//! Reading the environment, files and sockets, running `nix`, and
//! (de)serialising JSON and TOML are left to the caller.

pub mod text;
pub mod bridge_env;
pub mod bridge_protocol;
pub mod bridge_layout;
pub mod grammar_source;
pub mod grammar_prefetch;
pub mod languages;
pub mod lock_entries;
pub mod grammar_lock;
