//! Peer-to-peer filesystem synchronization engine: wire codec, broker
//! transactions, and the decisions of the local watcher, the remote
//! subscriber and the start-up reconciler.
pub mod codec;
pub mod consistency;
pub mod convergence;
pub mod decimal;
pub mod file_events;
pub mod local_files_event_handler;
pub mod local_fs_store;
pub mod redis_store;
pub mod remote_files_event_handler;
pub mod transaction;
