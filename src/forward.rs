//! The decisions of the forwarding engine: what a resource's listener is
//! set up with, which pod an accepted connection goes to, and how a
//! connection task ends.

use vstd::prelude::*;

use crate::config::{Resource, SelectorPolicy, policy_spec};
use crate::selector::{SelectorSource, source_spec, selector_source};
use crate::watcher::{PodMeta, Watcher, get_step};

verus! {

/// Everything a listener of one resource is set up with.
#[derive(Debug)]
pub struct ForwardPlan {
    /// The kube-context of the client; none for the ambient default.
    pub context: Option<String>,
    pub namespace: String,
    pub source: SelectorSource,
    pub policy: SelectorPolicy,
    pub remote_port: u16,
    pub local_port: Option<u16>,
}

/// The set-up of the listener of `resource` under a forwarder whose
/// kube-context is `context`: the resource's own context wins over the
/// forwarder's, and the policy defaults to round-robin.
pub fn plan_forward(resource: &Resource, context: &Option<String>) -> (r: ForwardPlan)
    ensures
        resource.context is Some ==> r.context == resource.context,
        resource.context is None ==> r.context == *context,
        r.namespace == resource.namespace,
        source_spec(resource.selector, r.source),
        r.policy == policy_spec(*resource),
        r.remote_port == resource.ports.remote,
        r.local_port == resource.ports.local,
{
    ForwardPlan {
        context: resource.context_or(context),
        namespace: resource.namespace.clone(),
        source: selector_source(&resource.selector),
        policy: resource.policy_or_default(),
        remote_port: resource.ports.remote,
        local_port: resource.ports.local,
    }
}

/// Where an accepted connection goes: a pod and its port.
#[derive(Debug)]
pub struct Route {
    pub pod: PodMeta,
    pub port: u16,
}

/// Whether the listener may accept a connection: only while the store holds
/// a pod, so that connections wait in the backlog until one appears.
pub fn should_accept(watcher: &Watcher) -> (r: bool)
    ensures
        r == (watcher.pods().len() > 0),
{
    !watcher.is_empty()
}

/// The route of an accepted connection: the pod that the watcher picks, on
/// `port`; none where the store is empty.
pub fn route_connection(watcher: &mut Watcher, port: u16) -> (r: Option<Route>)
    ensures
        final(watcher).pods() == old(watcher).pods(),
        final(watcher).policy_spec() == old(watcher).policy_spec(),
        final(watcher).selector_spec() == old(watcher).selector_spec(),
        old(watcher).pods().len() == 0 ==> r is None && final(watcher).counter() == old(watcher).counter(),
        old(watcher).pods().len() > 0 ==> (r matches Some(route) && route.port == port && get_step(
            *old(watcher),
            *final(watcher),
            route.pod,
        )),
{
    match watcher.get() {
        Some(pod) => Some(Route { pod, port }),
        None => None,
    }
}

/// Which branch ended a connection task.
#[derive(Clone, Copy, Debug, PartialEq, Eq, Structural)]
pub enum ConnectionEnd {
    /// The task's cancellation token tripped.
    Cancelled,
    /// The port-forward reported an error.
    UpstreamError,
    /// Copying between the two sides failed.
    CopyError,
    /// One side closed.
    Closed,
}

/// What a connection task does once it ends.
#[derive(Clone, Copy, Debug, PartialEq, Eq, Structural)]
pub enum Finish {
    /// Drop the upstream stream and wait for the cluster side to close.
    Join,
    /// Abort the port-forward and report the error.
    Abort,
}

/// How a connection task finishes: an error aborts the port-forward; a
/// cancellation or a close joins it, so the close handshake completes.
pub fn finish(end: ConnectionEnd) -> (r: Finish)
    ensures
        r == Finish::Abort <==> (end == ConnectionEnd::UpstreamError || end == ConnectionEnd::CopyError),
{
    match end {
        ConnectionEnd::Cancelled => Finish::Join,
        ConnectionEnd::Closed => Finish::Join,
        ConnectionEnd::UpstreamError => Finish::Abort,
        ConnectionEnd::CopyError => Finish::Abort,
    }
}

} // verus!
