use kubef::net::{Address, SocketAddress};
use kubef::proxy::{Proxy, ProxyDestination, ProxyError, ProxyWatchEvent, IMAGE, PORT};

fn dest() -> ProxyDestination {
    ProxyDestination::Tcp(SocketAddress { ip: Address::V4(u32::from_be_bytes([10, 0, 0, 5])), port: 5432 })
}

#[test]
fn new_proxy_has_a_six_character_hex_id() {
    let p = Proxy::new();
    let id = p.id();
    assert_eq!(id.chars().count(), 6);
    assert!(id.chars().all(|c| c.is_ascii_hexdigit() && !c.is_ascii_uppercase()));
    assert_eq!(p.get_name(), format!("kubef-{id}"));
    assert!(!p.is_spawned());
}

#[test]
fn spawn_plan_describes_the_relay_pod() {
    let p = Proxy::new();
    let id = p.id();
    let plan = p.spawn_plan(&dest()).unwrap();
    assert_eq!(plan.name, format!("kubef-{id}"));
    assert_eq!(
        plan.labels,
        vec![
            ("kubef.io/id".to_string(), id.clone()),
            ("kubef.io/proxy".to_string(), "true".to_string())
        ]
    );
    assert_eq!(plan.container, "socat");
    assert_eq!(plan.image, IMAGE);
    assert_eq!(plan.image, "alpine/socat:latest");
    assert_eq!(plan.command, vec!["socat", "TCP-LISTEN:8080,reuseaddr,fork", "TCP:10.0.0.5:5432"]);
    assert_eq!(PORT, 8080);
}

#[test]
fn socat_targets() {
    assert_eq!(dest().to_socat_target(), "TCP:10.0.0.5:5432");
    let udp = ProxyDestination::Udp(SocketAddress { ip: Address::V6(1), port: 53 });
    assert_eq!(udp.to_socat_target(), "UDP:[0:0:0:0:0:0:0:1]:53");
}

#[test]
fn lifecycle_of_a_spawned_relay() {
    let mut p = Proxy::new();
    assert_eq!(p.abort_target(), Err(ProxyError::NotSpawned));
    assert_eq!(p.watch_selector(), Err(ProxyError::NotSpawned));
    assert_eq!(p.drop_target(), None);
    p.finish_spawn(true);
    assert!(p.is_spawned());
    assert_eq!(p.spawn_plan(&dest()).unwrap_err(), ProxyError::AlreadySpawned);
    assert_eq!(p.watch_selector(), Ok(format!("kubef.io/id={}", p.id())));
    assert_eq!(p.drop_target(), Some(p.get_name()));
    assert_eq!(p.abort_target(), Ok(p.get_name()));
    p.mark_deleted();
    assert_eq!(p.drop_target(), None);
}

#[test]
fn failed_creation_leaves_nothing_to_delete() {
    let mut p = Proxy::new();
    p.finish_spawn(false);
    assert!(!p.is_spawned());
    assert_eq!(p.drop_target(), None);
}

#[test]
fn external_deletion_ends_the_wait_without_a_second_delete() {
    let mut p = Proxy::new();
    p.finish_spawn(true);
    assert!(!p.observe(ProxyWatchEvent::Added));
    assert!(!p.observe(ProxyWatchEvent::Modified));
    assert!(p.is_spawned());
    assert!(p.observe(ProxyWatchEvent::Deleted));
    assert!(!p.is_spawned());
    assert_eq!(p.abort_target(), Err(ProxyError::NotSpawned));
    assert_eq!(p.drop_target(), None);
}

#[test]
fn watch_error_ends_the_wait_but_keeps_the_pod() {
    let mut p = Proxy::new();
    p.finish_spawn(true);
    assert!(p.observe(ProxyWatchEvent::Error));
    assert!(p.is_spawned());
    assert_eq!(p.drop_target(), Some(p.get_name()));
}
