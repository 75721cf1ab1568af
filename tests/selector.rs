use kubef::selector::{first_label, from_deployment, from_service, LabelSelector, ResolverError};

fn pair(k: &str, v: &str) -> (String, String) {
    (k.to_string(), v.to_string())
}

#[test]
fn selector_matches_only_when_every_pair_is_present() {
    let sel = LabelSelector { pairs: vec![pair("app", "postgres"), pair("tier", "db")] };
    assert!(sel.matches(&vec![pair("tier", "db"), pair("app", "postgres"), pair("x", "y")]));
    assert!(!sel.matches(&vec![pair("app", "postgres")]));
    assert!(!sel.matches(&vec![pair("app", "mysql"), pair("tier", "db")]));
    assert!(LabelSelector { pairs: vec![] }.matches(&vec![]));
}

#[test]
fn leftmost_label_of_host_names() {
    assert_eq!(first_label("postgres.db.svc.cluster.local"), "postgres");
    assert_eq!(first_label("nodots"), "nodots");
    assert_eq!(first_label(".lead"), "");
    assert_eq!(first_label(""), "");
}

#[test]
fn deployment_selector_resolution() {
    assert_eq!(from_deployment(None).unwrap_err(), ResolverError::MissingSpec);
    assert!(from_deployment(Some(None)).unwrap().pairs.is_empty());
    let l = from_deployment(Some(Some(vec![pair("app", "api")]))).unwrap();
    assert_eq!(l.pairs, vec![pair("app", "api")]);
}

#[test]
fn service_selector_resolution() {
    assert_eq!(from_service(None).unwrap_err(), ResolverError::MissingSpec);
    assert_eq!(from_service(Some(None)).unwrap_err(), ResolverError::MissingSelector);
    let l = from_service(Some(Some(vec![pair("app", "web")]))).unwrap();
    assert_eq!(l.pairs, vec![pair("app", "web")]);
}
