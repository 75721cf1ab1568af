use kubef::config::SelectorPolicy;
use kubef::forward::{finish, route_connection, should_accept, ConnectionEnd, Finish};
use kubef::selector::LabelSelector;
use kubef::watcher::{PodEvent, PodMeta, Watcher};

fn pod(name: &str, app: &str) -> PodMeta {
    PodMeta {
        name: name.to_string(),
        namespace: "default".to_string(),
        labels: vec![("app".to_string(), app.to_string())],
    }
}

fn postgres() -> LabelSelector {
    LabelSelector { pairs: vec![("app".to_string(), "postgres".to_string())] }
}

fn listed(policy: SelectorPolicy, names: &[&str]) -> Watcher {
    let mut w = Watcher::new(postgres(), policy);
    w.apply(PodEvent::Init);
    for n in names {
        w.apply(PodEvent::InitApply(pod(n, "postgres")));
    }
    w.apply(PodEvent::InitDone);
    w
}

fn routes(w: &mut Watcher, k: usize) -> Vec<String> {
    (0..k).map(|_| route_connection(w, 5432).unwrap().pod.name).collect()
}

#[test]
fn round_robin_alternates_between_two_pods() {
    let mut w = listed(SelectorPolicy::RoundRobin, &["postgres-0", "postgres-1"]);
    assert!(w.is_ready());
    assert_eq!(routes(&mut w, 4), vec!["postgres-0", "postgres-1", "postgres-0", "postgres-1"]);
}

#[test]
fn sticky_always_picks_the_first_pod() {
    let mut w = listed(SelectorPolicy::Sticky, &["postgres-0", "postgres-1"]);
    assert_eq!(routes(&mut w, 4), vec!["postgres-0"; 4]);
}

#[test]
fn round_robin_reaches_each_pod_once_per_window() {
    let mut w = listed(SelectorPolicy::RoundRobin, &["a", "b", "c"]);
    for _ in 0..3 {
        let mut window = routes(&mut w, 3);
        window.sort();
        assert_eq!(window, vec!["a", "b", "c"]);
    }
}

#[test]
fn store_keeps_only_matching_pods() {
    let mut w = listed(SelectorPolicy::RoundRobin, &["postgres-0"]);
    w.apply(PodEvent::Apply(pod("mysql-0", "mysql")));
    assert_eq!(w.len(), 1);
    w.apply(PodEvent::Apply(pod("postgres-0", "other")));
    assert!(w.is_empty());
    w.apply(PodEvent::InitApply(pod("mysql-1", "mysql")));
    w.apply(PodEvent::InitDone);
    assert!(w.is_empty());
}

#[test]
fn apply_replaces_pod_of_same_key_and_delete_removes_it() {
    let mut w = listed(SelectorPolicy::RoundRobin, &["pod-a", "pod-b"]);
    let mut relabelled = pod("pod-a", "postgres");
    relabelled.labels.push(("tier".to_string(), "db".to_string()));
    w.apply(PodEvent::Apply(relabelled));
    assert_eq!(w.len(), 2);
    let first = route_connection(&mut w, 5432).unwrap().pod;
    assert_eq!(first.name, "pod-a");
    assert_eq!(first.labels.len(), 2);
    w.apply(PodEvent::Delete(pod("pod-a", "postgres")));
    assert_eq!(w.len(), 1);
    assert_eq!(routes(&mut w, 2), vec!["pod-b", "pod-b"]);
}

#[test]
fn empty_watcher_routes_nothing_until_a_pod_appears() {
    let mut w = listed(SelectorPolicy::RoundRobin, &[]);
    assert!(w.is_ready());
    assert!(w.is_empty());
    assert!(!should_accept(&w));
    assert!(route_connection(&mut w, 5432).is_none());
    w.apply(PodEvent::Apply(pod("mysql-0", "mysql")));
    assert!(!should_accept(&w));
    w.apply(PodEvent::Apply(pod("postgres-0", "postgres")));
    assert!(should_accept(&w));
    let r = route_connection(&mut w, 5432).unwrap();
    assert_eq!(r.pod.name, "postgres-0");
    assert_eq!(r.port, 5432);
}

#[test]
fn watcher_is_not_ready_before_a_listing() {
    let mut w = Watcher::new(postgres(), SelectorPolicy::RoundRobin);
    assert!(!w.is_ready());
    w.apply(PodEvent::Apply(pod("postgres-0", "postgres")));
    assert!(!w.is_ready());
    assert_eq!(w.get().unwrap().name, "postgres-0");
}

#[test]
fn connection_end_decides_join_or_abort() {
    assert_eq!(finish(ConnectionEnd::Cancelled), Finish::Join);
    assert_eq!(finish(ConnectionEnd::Closed), Finish::Join);
    assert_eq!(finish(ConnectionEnd::UpstreamError), Finish::Abort);
    assert_eq!(finish(ConnectionEnd::CopyError), Finish::Abort);
}
