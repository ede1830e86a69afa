//! Peer-sync runtime logic: inventory identity messages, the plugin verb
//! grammar and the state machines of the oracle services.
use vstd::prelude::*;

pub mod bootstrap;
pub mod build_context;
pub mod clock;
pub mod community;
pub mod compiler_dumper;
pub mod dashboard;
pub mod dev_workflow;
pub mod fingerprint;
pub mod foundation;
pub mod gateway;
pub mod governance;
pub mod hwinfo;
pub mod markov;
pub mod marketplace;
pub mod minimal_server;
pub mod monster;
pub mod plugin_registry;
pub mod plugin_server;
pub mod plugin_traits;
pub mod oci;
pub mod port_market;
pub mod port_table;
pub mod retro_games;
pub mod spectral;
pub mod stage1;
pub mod strmap;
pub mod sync;
pub mod telegram;
pub mod text;
pub mod timeline;
pub mod unified;
pub mod unix_accounts;
pub mod url_extract;
pub mod wrapping;

verus! {

} // verus!
