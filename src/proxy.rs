//! The relay controller: the in-cluster `socat` pod that forwards to an
//! address that is not itself a pod, and the state that makes its cleanup
//! certain.

use vstd::prelude::*;

use crate::net::{SocketAddress, push_char, socket_address_text};

verus! {

/// The port that the relay pod listens on.
pub const PORT: u16 = 8080;

/// The image of the relay container.
pub const IMAGE: &'static str = "alpine/socat:latest";

/// The program of the relay container.
pub const IMAGE_BIN: &'static str = "socat";

/// The characters of a relay id.
pub open spec fn id_alphabet() -> Seq<char> {
    seq!['1', '2', '3', '4', '5', '6', '7', '8', '9', '0', 'a', 'b', 'c', 'd', 'e', 'f']
}

/// Relies on nanoid::format with nanoid's default random source: a string
/// of `size` characters, each taken from `alphabet`. Its loop stops only
/// once `size` bytes are gathered, so the alphabet must be non-empty and
/// ASCII; it panics on an alphabet longer than 255, and where the system
/// gives no entropy to seed its generator.
#[verifier::external_body]
fn random_id(alphabet: &[char], size: usize) -> (r: String)
    requires
        0 < alphabet@.len() <= 255,
        size > 0,
        forall|i: int| 0 <= i < alphabet@.len() ==> (#[trigger] alphabet@[i] as u32) < 128,
    ensures
        r@.len() == size,
        forall|i: int| 0 <= i < r@.len() ==> alphabet@.contains(#[trigger] r@[i]),
{
    nanoid::format(nanoid::rngs::default, alphabet, size)
}

/// Where the relay forwards to.
#[derive(Clone, Copy, Debug, PartialEq, Eq, Structural)]
pub enum ProxyDestination {
    Tcp(SocketAddress),
    Udp(SocketAddress),
}

/// The `socat` address of a destination: `TCP:<addr>` or `UDP:<addr>`.
pub open spec fn socat_target_spec(d: ProxyDestination) -> Seq<char> {
    match d {
        ProxyDestination::Tcp(a) => "TCP:"@ + socket_address_text(a),
        ProxyDestination::Udp(a) => "UDP:"@ + socket_address_text(a),
    }
}

impl ProxyDestination {
    /// The `socat` address of the destination.
    pub fn to_socat_target(&self) -> (r: String)
        ensures
            r@ == socat_target_spec(*self),
    {
        match self {
            ProxyDestination::Tcp(a) => {
                let mut s = String::from_str("TCP:");
                a.push_text(&mut s);
                s
            },
            ProxyDestination::Udp(a) => {
                let mut s = String::from_str("UDP:");
                a.push_text(&mut s);
                s
            },
        }
    }
}

/// Why a relay operation was refused.
#[derive(Clone, Copy, Debug, PartialEq, Eq, Structural)]
pub enum ProxyError {
    /// The relay pod exists already.
    AlreadySpawned,
    /// No relay pod exists.
    NotSpawned,
}

/// The pod to create for a relay.
#[derive(Debug)]
pub struct PodPlan {
    pub name: String,
    pub labels: Vec<(String, String)>,
    pub container: String,
    pub image: String,
    pub command: Vec<String>,
}

/// What a watch of the relay pod reports.
#[derive(Clone, Copy, Debug, PartialEq, Eq, Structural)]
pub enum ProxyWatchEvent {
    Added,
    Modified,
    Deleted,
    Bookmark,
    Error,
}

/// An in-cluster relay: its id, and whether its pod was created and not
/// deleted since.
#[derive(Debug)]
pub struct Proxy {
    id: String,
    spawned: bool,
}

/// The name of the relay pod of id `id`.
pub open spec fn name_spec(id: Seq<char>) -> Seq<char> {
    "kubef-"@ + id
}

/// The listening side of the relay: `TCP-LISTEN:8080,reuseaddr,fork`.
pub open spec fn listen_spec() -> Seq<char> {
    "TCP-LISTEN:"@ + crate::net::digits_spec(PORT as nat, 10) + ",reuseaddr,fork"@
}

impl Proxy {
    pub closed spec fn id_spec(&self) -> Seq<char> {
        self.id@
    }

    pub closed spec fn spawned_spec(&self) -> bool {
        self.spawned
    }

    /// The pod to delete when the relay goes away: its own, while it exists.
    pub open spec fn pending_delete(&self) -> Option<Seq<char>> {
        if self.spawned_spec() { Some(name_spec(self.id_spec())) } else { None }
    }

    /// A relay with a fresh id of six characters, no pod created yet.
    pub fn new() -> (r: Proxy)
        ensures
            r.id_spec().len() == 6,
            forall|i: int| 0 <= i < 6 ==> id_alphabet().contains(#[trigger] r.id_spec()[i]),
            !r.spawned_spec(),
    {
        let alphabet: Vec<char> = vec!['1', '2', '3', '4', '5', '6', '7', '8', '9', '0', 'a', 'b', 'c', 'd', 'e', 'f'];
        assert(alphabet@ == id_alphabet());
        let id = random_id(alphabet.as_slice(), 6);
        Proxy { id, spawned: false }
    }

    /// Whether the relay pod exists.
    pub fn is_spawned(&self) -> (r: bool)
        ensures
            r == self.spawned_spec(),
    {
        self.spawned
    }

    /// The id of the relay.
    pub fn id(&self) -> (r: String)
        ensures
            r@ == self.id_spec(),
    {
        self.id.clone()
    }

    /// The name of the relay pod: `kubef-<id>`.
    pub fn get_name(&self) -> (r: String)
        ensures
            r@ == name_spec(self.id_spec()),
    {
        let mut s = String::from_str("kubef-");
        s.append(self.id.as_str());
        s
    }

    /// The pod to create for a relay to `destination`; refused where the pod
    /// exists already. The pod is named `kubef-<id>`, labelled
    /// `kubef.io/id=<id>` and `kubef.io/proxy=true`, and runs one `socat`
    /// container from listening port to destination.
    pub fn spawn_plan(&self, destination: &ProxyDestination) -> (r: Result<PodPlan, ProxyError>)
        ensures
            self.spawned_spec() <==> r == Err::<PodPlan, ProxyError>(ProxyError::AlreadySpawned),
            !self.spawned_spec() ==> r is Ok,
            r matches Ok(plan) ==> {
                &&& plan.name@ == name_spec(self.id_spec())
                &&& plan.labels@.len() == 2
                &&& plan.labels@[0].0@ == "kubef.io/id"@ && plan.labels@[0].1@ == self.id_spec()
                &&& plan.labels@[1].0@ == "kubef.io/proxy"@ && plan.labels@[1].1@ == "true"@
                &&& plan.container@ == "socat"@
                &&& plan.image@ == IMAGE@
                &&& plan.command@.len() == 3
                &&& plan.command@[0]@ == IMAGE_BIN@
                &&& plan.command@[1]@ == listen_spec()
                &&& plan.command@[2]@ == socat_target_spec(*destination)
            },
    {
        if self.spawned {
            return Err(ProxyError::AlreadySpawned);
        }
        let mut listen = String::from_str("TCP-LISTEN:");
        crate::net::push_digits(&mut listen, PORT as u64, 10);
        listen.append(",reuseaddr,fork");
        let mut labels: Vec<(String, String)> = Vec::new();
        labels.push((String::from_str("kubef.io/id"), self.id.clone()));
        labels.push((String::from_str("kubef.io/proxy"), String::from_str("true")));
        let mut command: Vec<String> = Vec::new();
        command.push(String::from_str(IMAGE_BIN));
        command.push(listen);
        command.push(destination.to_socat_target());
        Ok(PodPlan {
            name: self.get_name(),
            labels,
            container: String::from_str("socat"),
            image: String::from_str(IMAGE),
            command,
        })
    }

    /// Records the outcome of creating the relay pod: the relay is spawned
    /// once the creation succeeded, and stays as it was where it failed.
    pub fn finish_spawn(&mut self, created: bool)
        ensures
            final(self).id_spec() == old(self).id_spec(),
            final(self).spawned_spec() == (old(self).spawned_spec() || created),
    {
        if created {
            self.spawned = true;
        }
    }

    /// The pod to delete to abort the relay; refused where none exists.
    pub fn abort_target(&self) -> (r: Result<String, ProxyError>)
        ensures
            !self.spawned_spec() <==> r == Err::<String, ProxyError>(ProxyError::NotSpawned),
            self.spawned_spec() ==> r is Ok,
            r matches Ok(name) ==> name@ == name_spec(self.id_spec()),
    {
        if !self.spawned {
            return Err(ProxyError::NotSpawned);
        }
        Ok(self.get_name())
    }

    /// Records that the pod of the relay was deleted.
    pub fn mark_deleted(&mut self)
        ensures
            final(self).id_spec() == old(self).id_spec(),
            !final(self).spawned_spec(),
    {
        self.spawned = false;
    }

    /// The label selector that watches the relay pod, `kubef.io/id=<id>`;
    /// refused where no pod exists.
    pub fn watch_selector(&self) -> (r: Result<String, ProxyError>)
        ensures
            !self.spawned_spec() <==> r == Err::<String, ProxyError>(ProxyError::NotSpawned),
            self.spawned_spec() ==> r is Ok,
            r matches Ok(sel) ==> sel@ == "kubef.io/id="@ + self.id_spec(),
    {
        if !self.spawned {
            return Err(ProxyError::NotSpawned);
        }
        let mut s = String::from_str("kubef.io/id=");
        s.append(self.id.as_str());
        Ok(s)
    }

    /// Takes in an event of the watch of the relay pod; answers whether the
    /// wait for the relay's end is over. A deletion or an error ends it; a
    /// deletion also means that the pod no longer exists.
    pub fn observe(&mut self, event: ProxyWatchEvent) -> (done: bool)
        ensures
            done == (event == ProxyWatchEvent::Deleted || event == ProxyWatchEvent::Error),
            final(self).id_spec() == old(self).id_spec(),
            final(self).spawned_spec() == (old(self).spawned_spec() && event != ProxyWatchEvent::Deleted),
    {
        match event {
            ProxyWatchEvent::Deleted => {
                self.spawned = false;
                true
            },
            ProxyWatchEvent::Error => true,
            _ => false,
        }
    }

    /// The pod to delete when the relay is dropped: its own while it
    /// exists, none otherwise.
    pub fn drop_target(&self) -> (r: Option<String>)
        ensures
            r matches Some(n) ==> self.pending_delete() == Some(n@),
            r is None ==> self.pending_delete() is None,
    {
        if self.spawned {
            Some(self.get_name())
        } else {
            None
        }
    }
}

/// A relay whose creation succeeded leaves one deletion for its drop; one
/// whose creation was refused or failed leaves none.
pub proof fn lemma_drop_deletes_once_spawned(before: Proxy, after: Proxy, created: bool)
    requires
        !before.spawned_spec(),
        after.id_spec() == before.id_spec(),
        after.spawned_spec() == (before.spawned_spec() || created),
    ensures
        created ==> after.pending_delete() == Some(name_spec(before.id_spec())),
        !created ==> after.pending_delete() is None,
{
}

} // verus!
