//! The command handlers, one per verb.

pub mod append;
pub mod authenticate;
pub mod bodystructure;
pub mod capability;
pub mod close;
pub mod copy;
pub mod create;
pub mod delete;
pub mod enable;
pub mod examine;
pub mod expunge;
pub mod fetch;
pub mod idle;
pub mod list;
pub mod login;
pub mod logout;
pub mod namespace;
pub mod noop;
pub mod rename;
pub mod search;
pub mod select;
pub mod starttls;
pub mod status;
pub mod store;
pub mod subscribe;
pub mod uid;
pub mod unselect;
pub mod unsubscribe;
