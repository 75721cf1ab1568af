use kubef::config::{
    get_target, Config, ConfigError, ForwardCommandArguments, Group, Ports, Resource,
    ResourceSelector, SelectorPolicy, Target,
};
use kubef::forward::plan_forward;
use kubef::selector::SelectorSource;

fn resource(alias: &str, local: u16, remote: u16, policy: Option<SelectorPolicy>) -> Resource {
    Resource {
        alias: alias.to_string(),
        namespace: "default".to_string(),
        context: None,
        policy,
        selector: ResourceSelector::Label(vec![("app".to_string(), "postgres".to_string())]),
        ports: Ports { remote, local: Some(local) },
        tls: None,
    }
}

fn config() -> Config {
    Config {
        context: Some("cluster-a".to_string()),
        loopback: None,
        groups: vec![
            Group {
                name: "db".to_string(),
                resources: vec![
                    resource("pg", 15432, 5432, None),
                    resource("redis", 16379, 6379, None),
                ],
            },
            Group { name: "web".to_string(), resources: vec![resource("api", 18080, 80, None)] },
        ],
    }
}

#[test]
fn alias_resolves_to_its_resource() {
    let c = config();
    assert_eq!(get_target(&c, &"pg".to_string()), Ok(Target::Resource { group: 0, index: 0 }));
    assert_eq!(get_target(&c, &"api".to_string()), Ok(Target::Resource { group: 1, index: 0 }));
}

#[test]
fn group_expansion_binds_distinct_ports() {
    let c = config();
    let t = get_target(&c, &"db".to_string());
    assert_eq!(t, Ok(Target::Group(0)));
    let ports: Vec<Option<u16>> = c.groups[0].resources.iter().map(|r| r.ports.local).collect();
    assert_eq!(ports, vec![Some(15432), Some(16379)]);
}

#[test]
fn alias_wins_over_group_of_same_name() {
    let mut c = config();
    c.groups.push(Group { name: "pg".to_string(), resources: vec![] });
    assert_eq!(get_target(&c, &"pg".to_string()), Ok(Target::Resource { group: 0, index: 0 }));
}

#[test]
fn first_alias_in_order_wins() {
    let mut c = config();
    c.groups[1].resources.push(resource("pg", 25432, 5432, None));
    assert_eq!(get_target(&c, &"pg".to_string()), Ok(Target::Resource { group: 0, index: 0 }));
}

#[test]
fn unknown_target_is_an_error() {
    let c = config();
    assert_eq!(get_target(&c, &"nope".to_string()), Err(ConfigError::NoTarget));
    let empty = Config { context: None, loopback: None, groups: vec![] };
    assert_eq!(get_target(&empty, &"pg".to_string()), Err(ConfigError::NoTarget));
}

#[test]
fn policy_defaults_to_round_robin() {
    assert_eq!(resource("a", 1, 2, None).policy_or_default(), SelectorPolicy::RoundRobin);
    assert_eq!(
        resource("a", 1, 2, Some(SelectorPolicy::Sticky)).policy_or_default(),
        SelectorPolicy::Sticky
    );
    assert_eq!(SelectorPolicy::default(), SelectorPolicy::RoundRobin);
}

#[test]
fn context_precedence() {
    let mut r = resource("a", 1, 2, None);
    assert_eq!(r.context_or(&Some("fwd".to_string())), Some("fwd".to_string()));
    assert_eq!(r.context_or(&None), None);
    r.context = Some("own".to_string());
    assert_eq!(r.context_or(&Some("fwd".to_string())), Some("own".to_string()));

    let c = config();
    let args = ForwardCommandArguments { target: "pg".to_string(), context: None };
    assert_eq!(args.context_or(&c), Some("cluster-a".to_string()));
    let args = ForwardCommandArguments { target: "pg".to_string(), context: Some("b".to_string()) };
    assert_eq!(args.context_or(&c), Some("b".to_string()));
}

#[test]
fn plan_of_single_label_resource() {
    let c = config();
    let plan = plan_forward(&c.groups[0].resources[0], &c.context);
    assert_eq!(plan.context, Some("cluster-a".to_string()));
    assert_eq!(plan.namespace, "default");
    assert_eq!(plan.policy, SelectorPolicy::RoundRobin);
    assert_eq!(plan.remote_port, 5432);
    assert_eq!(plan.local_port, Some(15432));
    match plan.source {
        SelectorSource::Labels(l) => {
            assert_eq!(l.pairs, vec![("app".to_string(), "postgres".to_string())])
        }
        _ => panic!("expected labels"),
    }
}

#[test]
fn plan_of_hostname_resource_uses_leftmost_label() {
    let mut r = resource("h", 1, 2, None);
    r.selector = ResourceSelector::Hostname("postgres.db.svc.cluster.local".to_string());
    match plan_forward(&r, &None).source {
        SelectorSource::Service(name) => assert_eq!(name, "postgres"),
        _ => panic!("expected a service"),
    }
    r.selector = ResourceSelector::Deployment("api".to_string());
    match plan_forward(&r, &None).source {
        SelectorSource::Deployment(name) => assert_eq!(name, "api"),
        _ => panic!("expected a deployment"),
    }
}
