//! The configuration model: resources, groups, and how a target name
//! resolves to one resource or a whole group.

use vstd::prelude::*;

use crate::loopback::LoopbackNet;

verus! {

/// How a pod is picked for each connection.
#[derive(Clone, Copy, Debug, PartialEq, Eq, Structural)]
pub enum SelectorPolicy {
    /// Always the same pod while the store is unchanged.
    Sticky,
    /// The pods in turn.
    RoundRobin,
}

impl Default for SelectorPolicy {
    fn default() -> (r: SelectorPolicy)
        ensures
            r == SelectorPolicy::RoundRobin,
    {
        SelectorPolicy::RoundRobin
    }
}

/// Which pods back a resource.
#[derive(Clone, Debug)]
pub enum ResourceSelector {
    /// Pods that carry every one of these labels.
    Label(Vec<(String, String)>),
    /// The pods of the named Deployment.
    Deployment(String),
    /// The pods of the named Service.
    Service(String),
    /// The pods of the Service named by the leftmost label of a host name.
    Hostname(String),
}

/// Transport-security settings of a resource; none are defined.
#[derive(Clone, Copy, Debug, PartialEq, Eq, Structural)]
pub struct Tls {}

/// The ports of a resource: the pod's port, and the local one (any free
/// port where unset).
#[derive(Clone, Copy, Debug, PartialEq, Eq, Structural)]
pub struct Ports {
    pub remote: u16,
    pub local: Option<u16>,
}

/// A forwarding target declared by the user.
#[derive(Clone, Debug)]
pub struct Resource {
    pub alias: String,
    pub namespace: String,
    pub context: Option<String>,
    pub policy: Option<SelectorPolicy>,
    pub selector: ResourceSelector,
    pub ports: Ports,
    pub tls: Option<Tls>,
}

/// The policy of a resource, round-robin where none is set.
pub open spec fn policy_spec(r: Resource) -> SelectorPolicy {
    match r.policy {
        Some(p) => p,
        None => SelectorPolicy::RoundRobin,
    }
}

impl Resource {
    /// The policy of the resource, round-robin where none is set.
    pub fn policy_or_default(&self) -> (p: SelectorPolicy)
        ensures
            p == policy_spec(*self),
    {
        match self.policy {
            Some(p) => p,
            None => SelectorPolicy::default(),
        }
    }

    /// The kube-context to use: the resource's own, else the forwarder's,
    /// else none (the ambient default).
    pub fn context_or(&self, fallback: &Option<String>) -> (r: Option<String>)
        ensures
            self.context is Some ==> r == self.context,
            self.context is None ==> r == *fallback,
    {
        match &self.context {
            Some(c) => Some(c.clone()),
            None => match fallback {
                Some(c) => Some(c.clone()),
                None => None,
            },
        }
    }
}

/// A named group of resources.
#[derive(Clone, Debug)]
pub struct Group {
    pub name: String,
    pub resources: Vec<Resource>,
}

/// The configuration: a default kube-context, a network of loopback
/// addresses, and the groups of resources.
#[derive(Clone, Debug)]
pub struct Config {
    pub context: Option<String>,
    pub loopback: Option<LoopbackNet>,
    pub groups: Vec<Group>,
}

/// The arguments of a forward command: the alias or group to forward, and
/// a kube-context to use.
#[derive(Clone, Debug)]
pub struct ForwardCommandArguments {
    pub target: String,
    pub context: Option<String>,
}

impl ForwardCommandArguments {
    /// The kube-context of the command: its own, else the configuration's.
    pub fn context_or(&self, config: &Config) -> (r: Option<String>)
        ensures
            self.context is Some ==> r == self.context,
            self.context is None ==> r == config.context,
    {
        match &self.context {
            Some(c) => Some(c.clone()),
            None => match &config.context {
                Some(c) => Some(c.clone()),
                None => None,
            },
        }
    }
}

/// What a target name resolves to: one resource, by group and position, or
/// a whole group.
#[derive(Clone, Copy, Debug, PartialEq, Eq, Structural)]
pub enum Target {
    Resource { group: usize, index: usize },
    Group(usize),
}

/// Errors of target resolution.
#[derive(Clone, Copy, Debug, PartialEq, Eq, Structural)]
pub enum ConfigError {
    /// No resource alias and no group has the name.
    NoTarget,
}

/// Whether `(g, i)` names a resource of `c`.
pub open spec fn valid_position(c: Config, g: int, i: int) -> bool {
    0 <= g < c.groups@.len() && 0 <= i < c.groups@[g].resources@.len()
}

/// Whether the resource at `(g, i)` has alias `t`.
pub open spec fn alias_at(c: Config, g: int, i: int, t: Seq<char>) -> bool {
    valid_position(c, g, i) && c.groups@[g].resources@[i].alias@ == t
}

/// Whether some resource of `c` has alias `t`.
pub open spec fn has_alias(c: Config, t: Seq<char>) -> bool {
    exists|g: int, i: int| #[trigger] alias_at(c, g, i, t)
}

/// Whether group `g` of `c` is named `t`.
pub open spec fn group_named(c: Config, g: int, t: Seq<char>) -> bool {
    0 <= g < c.groups@.len() && c.groups@[g].name@ == t
}

/// What `t` resolves to in `c`: the first resource with alias `t`, in group
/// order and then in order within the group; else the first group named
/// `t`; else nothing.
pub open spec fn target_spec(c: Config, t: Seq<char>, r: Result<Target, ConfigError>) -> bool {
    match r {
        Ok(Target::Resource { group, index }) => {
            &&& alias_at(c, group as int, index as int, t)
            &&& forall|g: int, i: int|
                (g < group || (g == group && i < index)) ==> !#[trigger] alias_at(c, g, i, t)
        },
        Ok(Target::Group(g)) => {
            &&& !has_alias(c, t)
            &&& group_named(c, g as int, t)
            &&& forall|h: int| 0 <= h < g ==> !#[trigger] group_named(c, h, t)
        },
        Err(e) => {
            &&& e == ConfigError::NoTarget
            &&& !has_alias(c, t)
            &&& forall|h: int| !#[trigger] group_named(c, h, t)
        },
    }
}

/// Resolves a target name: a resource alias anywhere in the configuration
/// wins over a group of that name.
pub fn get_target(config: &Config, target: &String) -> (r: Result<Target, ConfigError>)
    ensures
        target_spec(*config, target@, r),
{
    let mut g: usize = 0;
    while g < config.groups.len()
        invariant
            g <= config.groups@.len(),
            forall|h: int, i: int| h < g ==> !#[trigger] alias_at(*config, h, i, target@),
        decreases config.groups@.len() - g,
    {
        let resources = &config.groups[g].resources;
        let mut i: usize = 0;
        while i < resources.len()
            invariant
                g < config.groups@.len(),
                resources == config.groups@[g as int].resources,
                i <= resources@.len(),
                forall|h: int, j: int| h < g ==> !#[trigger] alias_at(*config, h, j, target@),
                forall|j: int| j < i ==> !#[trigger] alias_at(*config, g as int, j, target@),
            decreases resources@.len() - i,
        {
            if resources[i].alias == *target {
                return Ok(Target::Resource { group: g, index: i });
            }
            i = i + 1;
        }
        proof {
            assert forall|h: int, j: int| h < g + 1 implies !#[trigger] alias_at(*config, h, j, target@) by {
                if h == g && alias_at(*config, h, j, target@) {
                    assert(j < i);
                }
            }
        }
        g = g + 1;
    }
    let mut h: usize = 0;
    while h < config.groups.len()
        invariant
            h <= config.groups@.len(),
            !has_alias(*config, target@),
            forall|k: int| 0 <= k < h ==> !#[trigger] group_named(*config, k, target@),
        decreases config.groups@.len() - h,
    {
        if config.groups[h].name == *target {
            return Ok(Target::Group(h));
        }
        h = h + 1;
    }
    Err(ConfigError::NoTarget)
}

} // verus!
