//! Forwarding of local TCP sockets to pods of a Kubernetes cluster: the
//! configuration model, pod selection, loopback allocation and the relay
//! controller, each stated and proved with Verus.

pub mod clients;
pub mod config;
pub mod forward;
pub mod loopback;
pub mod net;
pub mod proxy;
pub mod selector;
pub mod watcher;
