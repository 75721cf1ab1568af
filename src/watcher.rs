//! The pod watcher: a live store of the pods that match a selector, fed by
//! watch events, and the policy that picks one pod per connection.

use vstd::prelude::*;

use crate::config::SelectorPolicy;
use crate::selector::{LabelSelector, has_label};

verus! {

/// The identifying metadata of a pod: enough to open a port-forward.
#[derive(Debug)]
pub struct PodMeta {
    pub name: String,
    pub namespace: String,
    pub labels: Vec<(String, String)>,
}

/// Whether two pods hold the same metadata.
pub open spec fn same_pod(a: PodMeta, b: PodMeta) -> bool {
    a.name == b.name && a.namespace == b.namespace && a.labels@ == b.labels@
}

impl PodMeta {
    /// A copy of the metadata.
    pub fn duplicate(&self) -> (r: PodMeta)
        ensures
            same_pod(r, *self),
    {
        let mut labels: Vec<(String, String)> = Vec::new();
        let mut i: usize = 0;
        while i < self.labels.len()
            invariant
                i <= self.labels@.len(),
                labels@.len() == i,
                forall|j: int| 0 <= j < i ==> #[trigger] labels@[j] == self.labels@[j],
            decreases self.labels@.len() - i,
        {
            labels.push((self.labels[i].0.clone(), self.labels[i].1.clone()));
            i = i + 1;
        }
        assert(labels@ =~= self.labels@);
        PodMeta { name: self.name.clone(), namespace: self.namespace.clone(), labels }
    }
}

/// A change reported by the cluster's watch of pods.
#[derive(Debug)]
pub enum PodEvent {
    /// A pod was created or changed.
    Apply(PodMeta),
    /// A pod was deleted.
    Delete(PodMeta),
    /// A full listing starts.
    Init,
    /// A pod of the listing in progress.
    InitApply(PodMeta),
    /// The listing is complete: it replaces the store.
    InitDone,
}

/// Whether two pods have the same namespace and name.
pub open spec fn same_key(a: PodMeta, b: PodMeta) -> bool {
    a.name@ == b.name@ && a.namespace@ == b.namespace@
}

/// No two pods of `s` have the same key.
pub open spec fn keys_unique(s: Seq<PodMeta>) -> bool {
    forall|i: int, j: int| 0 <= i < s.len() && 0 <= j < s.len() && i != j ==> !same_key(#[trigger] s[i], #[trigger] s[j])
}

/// Every pod of `s` carries the labels that `sel` asks for.
pub open spec fn all_match(sel: LabelSelector, s: Seq<PodMeta>) -> bool {
    forall|i: int| 0 <= i < s.len() ==> sel.matches_view(#[trigger] s[i].labels@)
}

/// The position of the pod with the key of `p` in `s`, or `-1`.
pub open spec fn find_spec(s: Seq<PodMeta>, p: PodMeta) -> int {
    if exists|i: int| 0 <= i < s.len() && same_key(#[trigger] s[i], p) {
        choose|i: int| 0 <= i < s.len() && same_key(#[trigger] s[i], p)
    } else {
        -1
    }
}

/// `s` with `p` in place of the pod of the same key, or at the end.
pub open spec fn upsert_spec(s: Seq<PodMeta>, p: PodMeta) -> Seq<PodMeta> {
    let i = find_spec(s, p);
    if i >= 0 { s.update(i, p) } else { s.push(p) }
}

/// `s` without the pod of the key of `p`.
pub open spec fn remove_spec(s: Seq<PodMeta>, p: PodMeta) -> Seq<PodMeta> {
    let i = find_spec(s, p);
    if i >= 0 { s.remove(i) } else { s }
}

/// `s` after `p` was reported: kept where it matches `sel`, dropped where it
/// does not.
pub open spec fn admit_spec(sel: LabelSelector, s: Seq<PodMeta>, p: PodMeta) -> Seq<PodMeta> {
    if sel.matches_view(p.labels@) { upsert_spec(s, p) } else { remove_spec(s, p) }
}

proof fn lemma_find(s: Seq<PodMeta>, p: PodMeta)
    requires
        keys_unique(s),
    ensures
        find_spec(s, p) >= 0 ==> find_spec(s, p) < s.len() && same_key(s[find_spec(s, p)], p),
        find_spec(s, p) >= 0 ==> forall|j: int| 0 <= j < s.len() && j != find_spec(s, p) ==> !same_key(#[trigger] s[j], p),
        find_spec(s, p) < 0 ==> forall|j: int| 0 <= j < s.len() ==> !same_key(#[trigger] s[j], p),
{
}

proof fn lemma_admit(sel: LabelSelector, s: Seq<PodMeta>, p: PodMeta)
    requires
        keys_unique(s),
        all_match(sel, s),
    ensures
        keys_unique(admit_spec(sel, s, p)),
        all_match(sel, admit_spec(sel, s, p)),
{
    lemma_find(s, p);
    let r = admit_spec(sel, s, p);
    let i = find_spec(s, p);
    if sel.matches_view(p.labels@) {
        if i >= 0 {
            assert forall|a: int, b: int| 0 <= a < r.len() && 0 <= b < r.len() && a != b implies !same_key(
                #[trigger] r[a],
                #[trigger] r[b],
            ) by {
                if a == i {
                    assert(!same_key(s[b], p));
                } else if b == i {
                    assert(!same_key(s[a], p));
                } else {
                    assert(!same_key(s[a], s[b]));
                }
            }
        } else {
            assert forall|a: int, b: int| 0 <= a < r.len() && 0 <= b < r.len() && a != b implies !same_key(
                #[trigger] r[a],
                #[trigger] r[b],
            ) by {
                if a == s.len() {
                    assert(!same_key(s[b], p));
                } else if b == s.len() {
                    assert(!same_key(s[a], p));
                } else {
                    assert(!same_key(s[a], s[b]));
                }
            }
        }
    } else if i >= 0 {
        assert forall|a: int, b: int| 0 <= a < r.len() && 0 <= b < r.len() && a != b implies !same_key(
            #[trigger] r[a],
            #[trigger] r[b],
        ) by {
            let a2 = if a < i { a } else { a + 1 };
            let b2 = if b < i { b } else { b + 1 };
            assert(r[a] == s[a2] && r[b] == s[b2]);
            assert(!same_key(s[a2], s[b2]));
        }
        assert forall|a: int| 0 <= a < r.len() implies sel.matches_view(#[trigger] r[a].labels@) by {
            let a2 = if a < i { a } else { a + 1 };
            assert(r[a] == s[a2]);
        }
    }
}

proof fn lemma_remove(sel: LabelSelector, s: Seq<PodMeta>, p: PodMeta)
    requires
        keys_unique(s),
        all_match(sel, s),
    ensures
        keys_unique(remove_spec(s, p)),
        all_match(sel, remove_spec(s, p)),
{
    lemma_find(s, p);
    let r = remove_spec(s, p);
    let i = find_spec(s, p);
    if i >= 0 {
        assert forall|a: int, b: int| 0 <= a < r.len() && 0 <= b < r.len() && a != b implies !same_key(
            #[trigger] r[a],
            #[trigger] r[b],
        ) by {
            let a2 = if a < i { a } else { a + 1 };
            let b2 = if b < i { b } else { b + 1 };
            assert(r[a] == s[a2] && r[b] == s[b2]);
            assert(!same_key(s[a2], s[b2]));
        }
        assert forall|a: int| 0 <= a < r.len() implies sel.matches_view(#[trigger] r[a].labels@) by {
            let a2 = if a < i { a } else { a + 1 };
            assert(r[a] == s[a2]);
        }
    }
}

/// The position of the pod with the key of `p` in `s`.
fn find_pod(s: &Vec<PodMeta>, p: &PodMeta) -> (r: Option<usize>)
    requires
        keys_unique(s@),
    ensures
        match r {
            Some(i) => i as int == find_spec(s@, *p),
            None => find_spec(s@, *p) == -1,
        },
{
    let mut i: usize = 0;
    while i < s.len()
        invariant
            i <= s@.len(),
            keys_unique(s@),
            forall|j: int| 0 <= j < i ==> !same_key(#[trigger] s@[j], *p),
        decreases s@.len() - i,
    {
        if s[i].name == p.name && s[i].namespace == p.namespace {
            proof {
                lemma_find(s@, *p);
                assert(same_key(s@[i as int], *p));
            }
            return Some(i);
        }
        i = i + 1;
    }
    None
}

/// Drops the pod with the key of `p` from `s`.
fn remove_pod(s: &mut Vec<PodMeta>, p: &PodMeta)
    requires
        keys_unique(old(s)@),
    ensures
        final(s)@ == remove_spec(old(s)@, *p),
{
    match find_pod(s, p) {
        Some(i) => {
            s.remove(i);
        },
        None => {},
    }
}

/// Records `p` in `s` where it matches `sel`, else drops its key.
fn admit_pod(sel: &LabelSelector, s: &mut Vec<PodMeta>, p: PodMeta)
    requires
        keys_unique(old(s)@),
    ensures
        final(s)@ == admit_spec(*sel, old(s)@, p),
{
    if sel.matches(&p.labels) {
        match find_pod(s, &p) {
            Some(i) => {
                let ghost before = s@;
                s.remove(i);
                s.insert(i, p);
                assert(s@ =~= before.update(i as int, p));
            },
            None => {
                s.push(p);
            },
        }
    } else {
        remove_pod(s, &p);
    }
}

/// The position that the selection counter points at in a store of `len`
/// pods.
pub open spec fn select_index(counter: usize, len: nat) -> int {
    (counter as nat % len) as int
}

/// The counter after one pick: one more, wrapping, for round-robin; the
/// same for sticky.
pub open spec fn next_counter(policy: SelectorPolicy, counter: usize) -> usize {
    match policy {
        SelectorPolicy::Sticky => counter,
        SelectorPolicy::RoundRobin => if counter == usize::MAX { 0 } else { (counter + 1) as usize },
    }
}

/// The counter after `k` picks from `counter`.
pub open spec fn counter_after(policy: SelectorPolicy, counter: usize, k: nat) -> usize
    decreases k,
{
    if k == 0 {
        counter
    } else {
        next_counter(policy, counter_after(policy, counter, (k - 1) as nat))
    }
}

proof fn lemma_round_robin_counter(c: usize, k: nat)
    ensures
        counter_after(SelectorPolicy::RoundRobin, c, k) as int == (c + k) % (usize::MAX as int + 1),
    decreases k,
{
    let m = usize::MAX as int + 1;
    if k == 0 {
        vstd::arithmetic::div_mod::lemma_small_mod(c as nat, m as nat);
    } else {
        lemma_round_robin_counter(c, (k - 1) as nat);
        let prev = counter_after(SelectorPolicy::RoundRobin, c, (k - 1) as nat) as int;
        vstd::arithmetic::div_mod::lemma_add_mod_noop(c + k - 1, 1, m);
        vstd::arithmetic::div_mod::lemma_small_mod(1, m as nat);
        if prev < usize::MAX {
            vstd::arithmetic::div_mod::lemma_small_mod((prev + 1) as nat, m as nat);
        } else {
            vstd::arithmetic::div_mod::lemma_mod_self_0(m);
        }
    }
}

/// Whether one of the `n` round-robin picks from counter `c` reaches
/// position `p`.
pub open spec fn round_robin_reaches(c: usize, n: nat, p: int) -> bool {
    exists|i: int|
        0 <= i < n && select_index(#[trigger] counter_after(SelectorPolicy::RoundRobin, c, i as nat), n) == p
}

/// Round-robin over an unchanged store of `n` pods: the `n` picks that
/// start from any counter reach each pod exactly once. This holds unless
/// the counter wraps within those picks while `n` does not divide the
/// number of counter values.
pub proof fn lemma_round_robin_each_once(c: usize, n: nat)
    requires
        n > 0,
        c + n <= usize::MAX as int + 1 || (usize::MAX as int + 1) % (n as int) == 0,
    ensures
        forall|i: int, j: int|
            0 <= i < j < n ==> select_index(#[trigger] counter_after(SelectorPolicy::RoundRobin, c, i as nat), n)
                != select_index(#[trigger] counter_after(SelectorPolicy::RoundRobin, c, j as nat), n),
        forall|p: int| 0 <= p < n ==> #[trigger] round_robin_reaches(c, n, p),
{
    let m = usize::MAX as int + 1;
    assert forall|i: int| 0 <= i < n implies select_index(
        #[trigger] counter_after(SelectorPolicy::RoundRobin, c, i as nat),
        n,
    ) == (c + i) % (n as int) by {
        lemma_round_robin_counter(c, i as nat);
        if c + n <= m {
            vstd::arithmetic::div_mod::lemma_small_mod((c + i) as nat, m as nat);
        } else {
            let q = m / (n as int);
            vstd::arithmetic::div_mod::lemma_fundamental_div_mod(m, n as int);
            assert(q > 0) by (nonlinear_arith)
                requires
                    m == n * q,
                    m > 0,
                    n > 0,
            ;
            assert(m == (n as int) * q);
            vstd::arithmetic::div_mod::lemma_mod_mod(c + i, n as int, q);
        }
    }
    assert forall|i: int, j: int|
        0 <= i < j < n implies select_index(#[trigger] counter_after(SelectorPolicy::RoundRobin, c, i as nat), n)
        != select_index(#[trigger] counter_after(SelectorPolicy::RoundRobin, c, j as nat), n) by {
        vstd::arithmetic::div_mod::lemma_mod_equivalence(c + j, c + i, n as int);
        assert((c + j) - (c + i) == j - i);
        vstd::arithmetic::div_mod::lemma_small_mod((j - i) as nat, n);
    }
    assert forall|p: int| 0 <= p < n implies #[trigger] round_robin_reaches(c, n, p) by {
        let r = (c as int) % (n as int);
        let q = (c as int) / (n as int);
        vstd::arithmetic::div_mod::lemma_fundamental_div_mod(c as int, n as int);
        vstd::arithmetic::div_mod::lemma_mod_bound(c as int, n as int);
        vstd::arithmetic::div_mod::lemma_small_mod(p as nat, n);
        let i = if p >= r { p - r } else { p - r + n };
        if p >= r {
            assert(c + i == (n as int) * q + p);
            vstd::arithmetic::div_mod::lemma_mod_multiples_vanish(q, p, n as int);
        } else {
            assert(c + i == (n as int) * (q + 1) + p) by (nonlinear_arith)
                requires
                    c == n * q + r,
                    i == p - r + n,
            ;
            vstd::arithmetic::div_mod::lemma_mod_multiples_vanish(q + 1, p, n as int);
        }
        assert(select_index(counter_after(SelectorPolicy::RoundRobin, c, i as nat), n) == p);
    }
}

/// Sticky over an unchanged store: however many picks are made, each one
/// reaches the pod that the first one reached.
pub proof fn lemma_sticky_same_pod(c: usize, n: nat, k: nat)
    requires
        n > 0,
    ensures
        select_index(counter_after(SelectorPolicy::Sticky, c, k), n) == select_index(c, n),
    decreases k,
{
    if k > 0 {
        lemma_sticky_same_pod(c, n, (k - 1) as nat);
    }
}

/// For a resource selected by the labels `pairs`, every pod in the store
/// of its watcher carries every one of those pairs.
pub proof fn lemma_store_holds_selected(pairs: Seq<(String, String)>, w: Watcher, i: int, k: int)
    requires
        w.selector_spec().pairs@ == pairs,
        w.only_matching(),
        0 <= i < w.pods().len(),
        0 <= k < pairs.len(),
    ensures
        has_label(w.pods()[i].labels@, pairs[k].0@, pairs[k].1@),
{
    assert(w.selector_spec().matches_view(w.pods()[i].labels@));
}

/// One pick from a non-empty store: the store and policy stay, `r` is the
/// pod at the counter, and the counter moves on by the policy.
pub open spec fn get_step(before: Watcher, after: Watcher, r: PodMeta) -> bool {
    &&& after.pods() == before.pods()
    &&& after.policy_spec() == before.policy_spec()
    &&& after.counter() == next_counter(before.policy_spec(), before.counter())
    &&& same_pod(r, before.pods()[select_index(before.counter(), before.pods().len())])
}

/// Whether `r` holds the pod at position `j` of `pods`.
pub open spec fn returned(r: Seq<PodMeta>, pods: Seq<PodMeta>, j: int) -> bool {
    exists|k: int| 0 <= k < r.len() && same_pod(#[trigger] r[k], pods[j])
}

proof fn lemma_steps_counter(ws: Seq<Watcher>, rs: Seq<PodMeta>, k: nat)
    requires
        ws.len() == rs.len() + 1,
        k < ws.len(),
        forall|i: int| 0 <= i < rs.len() ==> #[trigger] get_step(ws[i], ws[i + 1], rs[i]),
    ensures
        ws[k as int].pods() == ws[0].pods(),
        ws[k as int].policy_spec() == ws[0].policy_spec(),
        ws[k as int].counter() == counter_after(ws[0].policy_spec(), ws[0].counter(), k),
    decreases k,
{
    if k > 0 {
        lemma_steps_counter(ws, rs, (k - 1) as nat);
        let i = k - 1;
        assert(get_step(ws[i], ws[i + 1], rs[i]));
    }
}

/// Round-robin, stated over `n` successive picks from an unchanged store of
/// `n` pods, each related to the next by what `Watcher::get` ensures: the
/// picks take `n` different positions, and every pod of the store is
/// returned. As for the counter alone, this holds unless the counter wraps
/// within the picks while `n` does not divide the number of counter values.
pub proof fn lemma_round_robin_gets(ws: Seq<Watcher>, rs: Seq<PodMeta>, n: nat)
    requires
        n > 0,
        rs.len() == n,
        ws.len() == n + 1,
        ws[0].pods().len() == n,
        ws[0].policy_spec() == SelectorPolicy::RoundRobin,
        ws[0].counter() + n <= usize::MAX as int + 1 || (usize::MAX as int + 1) % (n as int) == 0,
        forall|i: int| 0 <= i < n ==> #[trigger] get_step(ws[i], ws[i + 1], rs[i]),
    ensures
        forall|a: int, b: int|
            0 <= a < b < n ==> select_index((#[trigger] ws[a]).counter(), n) != select_index((#[trigger] ws[b]).counter(), n),
        forall|j: int| 0 <= j < n ==> #[trigger] returned(rs, ws[0].pods(), j),
{
    let c = ws[0].counter();
    assert forall|k: int| 0 <= k <= n implies (#[trigger] ws[k]).counter() == counter_after(
        SelectorPolicy::RoundRobin,
        c,
        k as nat,
    ) && ws[k].pods() == ws[0].pods() by {
        lemma_steps_counter(ws, rs, k as nat);
    }
    lemma_round_robin_each_once(c, n);
    assert forall|a: int, b: int|
        0 <= a < b < n implies select_index((#[trigger] ws[a]).counter(), n) != select_index(
        (#[trigger] ws[b]).counter(),
        n,
    ) by {
        assert(ws[a].counter() == counter_after(SelectorPolicy::RoundRobin, c, a as nat));
        assert(ws[b].counter() == counter_after(SelectorPolicy::RoundRobin, c, b as nat));
    }
    assert forall|j: int| 0 <= j < n implies #[trigger] returned(rs, ws[0].pods(), j) by {
        assert(round_robin_reaches(c, n, j));
        let i = choose|i: int|
            0 <= i < n && select_index(#[trigger] counter_after(SelectorPolicy::RoundRobin, c, i as nat), n) == j;
        assert(ws[i].counter() == counter_after(SelectorPolicy::RoundRobin, c, i as nat));
        assert(get_step(ws[i], ws[i + 1], rs[i]));
        assert(same_pod(rs[i], ws[0].pods()[j]));
    }
}

/// A live store of the pods that match a selector, and the policy that
/// picks among them.
pub struct Watcher {
    selector: LabelSelector,
    pods: Vec<PodMeta>,
    buffer: Vec<PodMeta>,
    ready: bool,
    policy: SelectorPolicy,
    counter: usize,
}

impl Watcher {
    #[verifier::type_invariant]
    spec fn inv(&self) -> bool {
        &&& keys_unique(self.pods@)
        &&& keys_unique(self.buffer@)
        &&& all_match(self.selector, self.pods@)
        &&& all_match(self.selector, self.buffer@)
    }

    pub closed spec fn selector_spec(&self) -> LabelSelector {
        self.selector
    }

    /// The pods in the store, in the order that selection uses.
    pub closed spec fn pods(&self) -> Seq<PodMeta> {
        self.pods@
    }

    /// The pods of a listing in progress.
    pub closed spec fn buffered(&self) -> Seq<PodMeta> {
        self.buffer@
    }

    /// Whether a first listing has completed.
    pub closed spec fn is_ready_spec(&self) -> bool {
        self.ready
    }

    pub closed spec fn policy_spec(&self) -> SelectorPolicy {
        self.policy
    }

    /// The selection counter.
    pub closed spec fn counter(&self) -> usize {
        self.counter
    }

    /// Every pod in the store carries the labels that the selector asks for.
    pub open spec fn only_matching(&self) -> bool {
        all_match(self.selector_spec(), self.pods())
    }

    /// An empty store, not ready, with the counter at zero.
    pub fn new(selector: LabelSelector, policy: SelectorPolicy) -> (r: Watcher)
        ensures
            r.selector_spec() == selector,
            r.policy_spec() == policy,
            r.pods().len() == 0,
            r.buffered().len() == 0,
            !r.is_ready_spec(),
            r.counter() == 0,
            r.only_matching(),
    {
        Watcher { selector, pods: Vec::new(), buffer: Vec::new(), ready: false, policy, counter: 0 }
    }

    /// Applies a watch event: a pod that matches the selector is recorded
    /// (in place of the one of the same namespace and name), one that does
    /// not is dropped, as is a deleted pod; a listing is gathered apart and
    /// replaces the store once complete, which makes the store ready.
    pub fn apply(&mut self, event: PodEvent)
        ensures
            final(self).selector_spec() == old(self).selector_spec(),
            final(self).policy_spec() == old(self).policy_spec(),
            final(self).counter() == old(self).counter(),
            final(self).only_matching(),
            match event {
                PodEvent::Apply(p) => {
                    &&& final(self).pods() == admit_spec(old(self).selector_spec(), old(self).pods(), p)
                    &&& final(self).buffered() == old(self).buffered()
                    &&& final(self).is_ready_spec() == old(self).is_ready_spec()
                },
                PodEvent::Delete(p) => {
                    &&& final(self).pods() == remove_spec(old(self).pods(), p)
                    &&& final(self).buffered() == old(self).buffered()
                    &&& final(self).is_ready_spec() == old(self).is_ready_spec()
                },
                PodEvent::Init => {
                    &&& final(self).pods() == old(self).pods()
                    &&& final(self).buffered().len() == 0
                    &&& final(self).is_ready_spec() == old(self).is_ready_spec()
                },
                PodEvent::InitApply(p) => {
                    &&& final(self).pods() == old(self).pods()
                    &&& final(self).buffered() == admit_spec(old(self).selector_spec(), old(self).buffered(), p)
                    &&& final(self).is_ready_spec() == old(self).is_ready_spec()
                },
                PodEvent::InitDone => {
                    &&& final(self).pods() == old(self).buffered()
                    &&& final(self).buffered().len() == 0
                    &&& final(self).is_ready_spec()
                },
            },
    {
        proof {
            use_type_invariant(&*self);
        }
        match event {
            PodEvent::Apply(p) => {
                let mut pods: Vec<PodMeta> = Vec::new();
                std::mem::swap(&mut self.pods, &mut pods);
                proof {
                    lemma_admit(self.selector, pods@, p);
                }
                admit_pod(&self.selector, &mut pods, p);
                self.pods = pods;
            },
            PodEvent::Delete(p) => {
                let mut pods: Vec<PodMeta> = Vec::new();
                std::mem::swap(&mut self.pods, &mut pods);
                proof {
                    lemma_remove(self.selector, pods@, p);
                }
                remove_pod(&mut pods, &p);
                self.pods = pods;
            },
            PodEvent::Init => {
                self.buffer = Vec::new();
            },
            PodEvent::InitApply(p) => {
                let mut buffer: Vec<PodMeta> = Vec::new();
                std::mem::swap(&mut self.buffer, &mut buffer);
                proof {
                    lemma_admit(self.selector, buffer@, p);
                }
                admit_pod(&self.selector, &mut buffer, p);
                self.buffer = buffer;
            },
            PodEvent::InitDone => {
                let mut buffer: Vec<PodMeta> = Vec::new();
                std::mem::swap(&mut self.buffer, &mut buffer);
                self.pods = buffer;
                self.ready = true;
            },
        }
        proof {
            use_type_invariant(&*self);
        }
    }

    /// Whether the store holds no pod.
    pub fn is_empty(&self) -> (r: bool)
        ensures
            r == (self.pods().len() == 0),
    {
        self.pods.len() == 0
    }

    /// The number of pods in the store.
    pub fn len(&self) -> (r: usize)
        ensures
            r == self.pods().len(),
    {
        self.pods.len()
    }

    /// Whether a first listing has completed.
    pub fn is_ready(&self) -> (r: bool)
        ensures
            r == self.is_ready_spec(),
    {
        self.ready
    }

    /// Picks a pod: none where the store is empty; else the one at the
    /// counter modulo the number of pods. Round-robin then advances the
    /// counter by one, wrapping; sticky leaves it.
    pub fn get(&mut self) -> (r: Option<PodMeta>)
        ensures
            final(self).selector_spec() == old(self).selector_spec(),
            final(self).policy_spec() == old(self).policy_spec(),
            final(self).pods() == old(self).pods(),
            final(self).buffered() == old(self).buffered(),
            final(self).is_ready_spec() == old(self).is_ready_spec(),
            final(self).only_matching(),
            old(self).pods().len() == 0 ==> r is None && final(self).counter() == old(self).counter(),
            old(self).pods().len() > 0 ==> (r matches Some(p) && get_step(*old(self), *final(self), p)),
    {
        proof {
            use_type_invariant(&*self);
        }
        let n = self.pods.len();
        if n == 0 {
            return None;
        }
        let c = self.counter;
        let index = c % n;
        let pod = self.pods[index].duplicate();
        match self.policy {
            SelectorPolicy::Sticky => {},
            SelectorPolicy::RoundRobin => {
                self.counter = if c == usize::MAX { 0 } else { c + 1 };
            },
        }
        Some(pod)
    }
}

} // verus!
