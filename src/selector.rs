//! Label selectors: how a resource's selector becomes a set of equality
//! predicates on pod labels.

use vstd::prelude::*;

use crate::config::ResourceSelector;

verus! {

/// Whether `labels` holds the pair `(k, v)`.
pub open spec fn has_label(labels: Seq<(String, String)>, k: Seq<char>, v: Seq<char>) -> bool {
    exists|j: int| 0 <= j < labels.len() && #[trigger] labels[j].0@ == k && labels[j].1@ == v
}

/// Whether `labels` holds every pair of `pairs`.
pub open spec fn matches_spec(pairs: Seq<(String, String)>, labels: Seq<(String, String)>) -> bool {
    forall|i: int| 0 <= i < pairs.len() ==> has_label(labels, #[trigger] pairs[i].0@, pairs[i].1@)
}

/// A conjunction of label equalities.
#[derive(Clone, Debug)]
pub struct LabelSelector {
    pub pairs: Vec<(String, String)>,
}

impl LabelSelector {
    /// Whether `labels` satisfies every equality of the selector.
    pub open spec fn matches_view(&self, labels: Seq<(String, String)>) -> bool {
        matches_spec(self.pairs@, labels)
    }

    /// Whether `labels` satisfies every equality of the selector.
    pub fn matches(&self, labels: &Vec<(String, String)>) -> (r: bool)
        ensures
            r == self.matches_view(labels@),
    {
        let mut i: usize = 0;
        while i < self.pairs.len()
            invariant
                i <= self.pairs@.len(),
                forall|p: int| 0 <= p < i ==> has_label(labels@, #[trigger] self.pairs@[p].0@, self.pairs@[p].1@),
            decreases self.pairs@.len() - i,
        {
            let k = &self.pairs[i].0;
            let v = &self.pairs[i].1;
            let mut j: usize = 0;
            let mut found = false;
            while j < labels.len() && !found
                invariant
                    j <= labels@.len(),
                    i < self.pairs@.len(),
                    k == self.pairs@[i as int].0,
                    v == self.pairs@[i as int].1,
                    found ==> has_label(labels@, k@, v@),
                    !found ==> forall|q: int| 0 <= q < j ==> !(#[trigger] labels@[q].0@ == k@ && labels@[q].1@ == v@),
                decreases labels@.len() - j + (if found { 0int } else { 1int }),
            {
                if labels[j].0 == *k && labels[j].1 == *v {
                    found = true;
                } else {
                    j = j + 1;
                }
            }
            if !found {
                proof {
                    assert(!has_label(labels@, k@, v@));
                    assert(!has_label(labels@, self.pairs@[i as int].0@, self.pairs@[i as int].1@));
                }
                return false;
            }
            i = i + 1;
        }
        true
    }
}

/// The leftmost label of a host name: everything before the first dot.
pub open spec fn first_label_spec(s: Seq<char>) -> Seq<char> {
    if exists|i: int| 0 <= i < s.len() && s[i] == '.' {
        let i = choose|i: int|
            0 <= i < s.len() && s[i] == '.' && forall|j: int| 0 <= j < i ==> s[j] != '.';
        s.subrange(0, i)
    } else {
        s
    }
}

/// The leftmost label of a host name: everything before the first dot.
pub fn first_label(host: &str) -> (r: String)
    ensures
        r@ == first_label_spec(host@),
{
    let n = host.unicode_len();
    let mut i: usize = 0;
    while i < n
        invariant
            n == host@.len(),
            i <= n,
            forall|j: int| 0 <= j < i ==> host@[j] != '.',
        decreases n - i,
    {
        if host.get_char(i) == '.' {
            proof {
                assert(host@[i as int] == '.');
                let k = choose|k: int|
                    0 <= k < host@.len() && host@[k] == '.' && forall|j: int| 0 <= j < k ==> host@[j] != '.';
                assert(k == i) by {
                    if k < i {
                        assert(host@[k] != '.');
                    } else if k > i {
                        assert(host@[i as int] != '.');
                    }
                }
            }
            return host.substring_char(0, i).to_string();
        }
        i = i + 1;
    }
    proof {
        assert(host@.subrange(0, n as int) =~= host@);
    }
    host.to_string()
}

/// How the label selector of a resource is found.
#[derive(Clone, Debug)]
pub enum SelectorSource {
    /// The resource gives it directly.
    Labels(LabelSelector),
    /// The `matchLabels` of the named Deployment.
    Deployment(String),
    /// The selector of the named Service.
    Service(String),
}

/// Where the selector of `s` comes from: its labels, or the named Deployment
/// or Service; a host name stands for the Service of its leftmost label.
pub open spec fn source_spec(s: ResourceSelector, r: SelectorSource) -> bool {
    match s {
        ResourceSelector::Label(pairs) => r matches SelectorSource::Labels(l) && l.pairs@ == pairs@,
        ResourceSelector::Deployment(name) => r matches SelectorSource::Deployment(n) && n@ == name@,
        ResourceSelector::Service(name) => r matches SelectorSource::Service(n) && n@ == name@,
        ResourceSelector::Hostname(host) => r matches SelectorSource::Service(n) && n@ == first_label_spec(
            host@,
        ),
    }
}

/// Where the selector of a resource comes from.
pub fn selector_source(s: &ResourceSelector) -> (r: SelectorSource)
    ensures
        source_spec(*s, r),
{
    match s {
        ResourceSelector::Label(pairs) => {
            let mut copy: Vec<(String, String)> = Vec::new();
            let mut i: usize = 0;
            while i < pairs.len()
                invariant
                    i <= pairs@.len(),
                    copy@.len() == i,
                    forall|j: int| 0 <= j < i ==> #[trigger] copy@[j] == pairs@[j],
                decreases pairs@.len() - i,
            {
                copy.push((pairs[i].0.clone(), pairs[i].1.clone()));
                i = i + 1;
            }
            assert(copy@ =~= pairs@);
            SelectorSource::Labels(LabelSelector { pairs: copy })
        },
        ResourceSelector::Deployment(name) => SelectorSource::Deployment(name.clone()),
        ResourceSelector::Service(name) => SelectorSource::Service(name.clone()),
        ResourceSelector::Hostname(host) => SelectorSource::Service(first_label(host.as_str())),
    }
}

/// Why a selector could not be found.
#[derive(Clone, Copy, Debug, PartialEq, Eq, Structural)]
pub enum ResolverError {
    /// The Deployment or Service has no spec.
    MissingSpec,
    /// The Service has no selector.
    MissingSelector,
}

/// The selector of a fetched Deployment: its `matchLabels`, none meaning
/// the empty conjunction; fails where it has no spec.
pub fn from_deployment(spec: Option<Option<Vec<(String, String)>>>) -> (r: Result<LabelSelector, ResolverError>)
    ensures
        spec is None <==> r == Err::<LabelSelector, ResolverError>(ResolverError::MissingSpec),
        spec matches Some(Some(m)) ==> r matches Ok(l) && l.pairs@ == m@,
        spec matches Some(None) ==> r matches Ok(l) && l.pairs@.len() == 0,
{
    match spec {
        None => Err(ResolverError::MissingSpec),
        Some(None) => Ok(LabelSelector { pairs: Vec::new() }),
        Some(Some(m)) => Ok(LabelSelector { pairs: m }),
    }
}

/// The selector of a fetched Service; fails where it has no spec or no
/// selector.
pub fn from_service(spec: Option<Option<Vec<(String, String)>>>) -> (r: Result<LabelSelector, ResolverError>)
    ensures
        spec is None <==> r == Err::<LabelSelector, ResolverError>(ResolverError::MissingSpec),
        spec == Some(None::<Vec<(String, String)>>) <==> r == Err::<LabelSelector, ResolverError>(
            ResolverError::MissingSelector,
        ),
        spec matches Some(Some(m)) ==> r matches Ok(l) && l.pairs@ == m@,
{
    match spec {
        None => Err(ResolverError::MissingSpec),
        Some(None) => Err(ResolverError::MissingSelector),
        Some(Some(m)) => Ok(LabelSelector { pairs: m }),
    }
}

} // verus!
