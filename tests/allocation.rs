use citadel_apps::artifacts::{env_line, merge_env, port_map, split_round_robin, VirtualIndex};
use citadel_apps::catalog::{
    port_requests, shared_data_dir, AppManifest, MountProblem, Protocol, ServiceDecl,
    SharedDataMount,
};
use citadel_apps::ips::{IpAllocator, IpError};
use citadel_apps::naming::{ip_var_name, shared_subdir_var_name};
use citadel_apps::pipeline::{
    pass2_action, reserve_app, resolve_default_password, Pass1Summary, Pass2Action,
};
use citadel_apps::ports::{platform_reserved_ports, PortAllocator, PortClaim};
use citadel_apps::priority::PortPriority;

fn allocator() -> PortAllocator {
    PortAllocator::new(platform_reserved_ports(), "service".to_string())
}

fn service(name: &str) -> ServiceDecl {
    ServiceDecl {
        name: name.to_string(),
        port: None,
        port_priority: None,
        required_tcp: Vec::new(),
        required_udp: Vec::new(),
        shared_data: None,
    }
}

fn app(id: &str, main: &str, services: Vec<ServiceDecl>) -> AppManifest {
    AppManifest {
        id: id.to_string(),
        main_container: main.to_string(),
        implements: None,
        services,
    }
}

fn claim(app: &str, container: &str, port: u16, priority: PortPriority) -> PortClaim {
    PortClaim {
        app: app.to_string(),
        container: container.to_string(),
        internal_port: port,
        dynamic: false,
        implements: None,
        priority,
    }
}

#[test]
fn default_ports_of_two_apps_do_not_collide() {
    let mut ports = allocator();
    let mut ips = IpAllocator::new();
    let alpha = app("alpha", "web", vec![service("web")]);
    let beta = app("beta", "web", vec![service("web")]);
    let a = reserve_app(&mut ports, &mut ips, &alpha).unwrap();
    let b = reserve_app(&mut ports, &mut ips, &beta).unwrap();
    assert!(a.supported && b.supported);
    let at3000 = ports.claim_at(3000).unwrap();
    assert_eq!(at3000.app, "alpha");
    assert!(at3000.dynamic);
    assert_eq!(at3000.priority, PortPriority::Optional);
    let at3001 = ports.claim_at(3001).unwrap();
    assert_eq!(at3001.app, "beta");
    assert_eq!(at3001.internal_port, 3001);
    assert!(at3001.dynamic);
}

#[test]
fn mandatory_reserved_port_is_redirected() {
    let mut ports = allocator();
    let mut ips = IpAllocator::new();
    let mut web = service("web");
    web.port = Some(8080);
    web.required_tcp = vec![80];
    let gamma = app("gamma", "web", vec![web]);
    let out = reserve_app(&mut ports, &mut ips, &gamma).unwrap();
    assert!(out.supported);
    assert_eq!(out.granted, vec![true, true]);
    assert!(ports.claim_at(80).is_none());
    let moved = ports.claim_at(81).unwrap();
    assert_eq!(moved.app, "gamma");
    assert_eq!(moved.internal_port, 80);
    assert_eq!(moved.priority, PortPriority::Required);
}

#[test]
fn mandatory_port_held_by_required_claim_fails() {
    let mut ports = allocator();
    ports.restore(80, claim("dashboard", "web", 80, PortPriority::Required));
    let mut ips = IpAllocator::new();
    let mut web = service("web");
    web.port = Some(8080);
    web.required_tcp = vec![80];
    let gamma = app("gamma", "web", vec![web]);
    let out = reserve_app(&mut ports, &mut ips, &gamma).unwrap();
    assert!(!out.supported);
    assert_eq!(out.granted, vec![true, false]);
    assert_eq!(out.requests[1].protocol, Some(Protocol::Tcp));
    assert_eq!(ports.claim_at(80).unwrap().app, "dashboard");
    let mut summary = Pass1Summary::new();
    summary.record(&"gamma".to_string(), &out);
    assert_eq!(
        pass2_action(true, &summary, &"gamma".to_string()),
        Pass2Action::RemoveStale
    );
}

#[test]
fn missing_manifest_removes_stale_spec() {
    let summary = Pass1Summary::new();
    assert_eq!(
        pass2_action(false, &summary, &"delta".to_string()),
        Pass2Action::RemoveStale
    );
    assert_eq!(
        pass2_action(true, &summary, &"delta".to_string()),
        Pass2Action::Compile
    );
}

#[test]
fn subnet_runs_out_after_236_names() {
    let mut ips = IpAllocator::new();
    for i in 0..236 {
        let addr = ips.assign(format!("APP_{i}_IP")).unwrap();
        assert_eq!(addr, format!("10.21.21.{}", 20 + i));
    }
    assert_eq!(
        ips.assign("APP_LAST_IP".to_string()),
        Err(IpError::AddressSpaceExhausted)
    );
    assert_eq!(ips.assign("APP_0_IP".to_string()), Ok("10.21.21.20".to_string()));
}

#[test]
fn addresses_follow_first_seen_order() {
    let mut ips = IpAllocator::new();
    let a1 = ips.assign("A".to_string()).unwrap();
    let b = ips.assign("B".to_string()).unwrap();
    let a2 = ips.assign("A".to_string()).unwrap();
    assert_eq!(a1, "10.21.21.20");
    assert_eq!(b, "10.21.21.21");
    assert_eq!(a2, a1);
    assert_eq!(ips.entries().len(), 2);
}

#[test]
fn restored_addresses_move_the_cursor() {
    let mut ips = IpAllocator::from_entries(vec![
        ("APP_X_WEB_IP".to_string(), "10.21.21.20".to_string()),
        ("APP_Y_WEB_IP".to_string(), "10.21.21.21".to_string()),
    ]);
    assert_eq!(ips.assign("APP_Y_WEB_IP".to_string()).unwrap(), "10.21.21.21");
    assert_eq!(ips.assign("APP_Z_WEB_IP".to_string()).unwrap(), "10.21.21.22");
}

#[test]
fn required_claim_evicts_optional_incumbent() {
    let mut ports = allocator();
    ports.restore(8080, claim("old", "web", 8080, PortPriority::Optional));
    let ok = ports.reserve(
        "new".to_string(),
        "api".to_string(),
        8080,
        PortPriority::Required,
        false,
        None,
    );
    assert!(ok);
    assert_eq!(ports.claim_at(8080).unwrap().app, "new");
    let moved = ports.claim_at(8081).unwrap();
    assert_eq!(moved.app, "old");
    assert_eq!(moved.internal_port, 8080);
}

#[test]
fn two_required_claims_conflict() {
    let mut ports = allocator();
    assert!(ports.reserve("a".to_string(), "x".to_string(), 9000, PortPriority::Required, false, None));
    assert!(!ports.reserve("b".to_string(), "y".to_string(), 9000, PortPriority::Required, false, None));
    assert_eq!(ports.claim_at(9000).unwrap().app, "a");
    assert!(ports.claim_at(9001).is_none());
}

#[test]
fn weaker_request_moves_forward_keeping_internal_port() {
    let mut ports = allocator();
    assert!(ports.reserve("a".to_string(), "x".to_string(), 9000, PortPriority::Recommended, false, None));
    assert!(ports.reserve("b".to_string(), "y".to_string(), 9000, PortPriority::Optional, false, None));
    let moved = ports.claim_at(9001).unwrap();
    assert_eq!(moved.app, "b");
    assert_eq!(moved.internal_port, 9000);
    assert!(!moved.dynamic);
}

#[test]
fn fresh_claim_never_gets_reserved_port() {
    let mut ports = allocator();
    for p in [80u16, 433, 443, 8333] {
        assert!(ports.reserve(format!("app{p}"), "web".to_string(), p, PortPriority::Optional, false, None));
        assert!(ports.claim_at(p).is_none());
    }
    let entries = ports.cache_entries();
    let taken: Vec<u16> = entries.iter().map(|e| e.0).collect();
    assert_eq!(taken, vec![81, 434, 444, 8334]);
}

#[test]
fn capability_packages_share_one_port() {
    let mut ports = allocator();
    let lnd = Some("lightning".to_string());
    assert!(ports.reserve("lnd".to_string(), "service".to_string(), 9735, PortPriority::Optional, false, lnd.clone()));
    assert!(ports.reserve("cln".to_string(), "service".to_string(), 9735, PortPriority::Optional, false, lnd));
    assert_eq!(ports.claim_at(9735).unwrap().app, "lnd");
    assert!(ports.claim_at(9736).is_none());
    let map = port_map(&ports);
    assert_eq!(map.len(), 1);
    assert_eq!(map[0].key, "lightning");
    assert_eq!(map[0].public_port, 9735);
}

#[test]
fn every_port_holds_one_claim() {
    let mut ports = allocator();
    let requests = [
        ("a", PortPriority::Optional),
        ("b", PortPriority::Required),
        ("c", PortPriority::Optional),
        ("d", PortPriority::Recommended),
    ];
    for (name, pr) in requests {
        assert!(ports.reserve(name.to_string(), "web".to_string(), 3000, pr, true, None));
    }
    assert_eq!(ports.claim_at(3000).unwrap().app, "b");
    assert_eq!(ports.claim_at(3001).unwrap().app, "a");
    assert_eq!(ports.claim_at(3002).unwrap().app, "c");
    assert_eq!(ports.claim_at(3003).unwrap().app, "d");
    let entries = ports.cache_entries();
    assert_eq!(entries.len(), 4);
    let mut seen: Vec<u16> = entries.iter().map(|e| e.0).collect();
    seen.dedup();
    assert_eq!(seen.len(), 4);
    let mut apps: Vec<String> = entries.iter().map(|e| e.1.app.clone()).collect();
    apps.sort();
    assert_eq!(apps, vec!["a", "b", "c", "d"]);
}

#[test]
fn rerun_with_cache_is_stable() {
    let catalog = vec![
        app("alpha", "web", vec![service("web")]),
        app("beta", "web", vec![service("web"), service("db")]),
    ];
    let mut ports = allocator();
    let mut ips = IpAllocator::new();
    for a in &catalog {
        reserve_app(&mut ports, &mut ips, a).unwrap();
    }
    let first_map: Vec<(String, String, u16, u16, bool)> = port_map(&ports)
        .into_iter()
        .map(|r| (r.key, r.container, r.internal_port, r.public_port, r.dynamic))
        .collect();
    let first_ips = ips.entries().clone();

    let mut ports2 = allocator();
    for (p, c) in ports.cache_entries() {
        ports2.restore(p, c);
    }
    let mut ips2 = IpAllocator::from_entries(first_ips.clone());
    for a in &catalog {
        reserve_app(&mut ports2, &mut ips2, a).unwrap();
    }
    let second_map: Vec<(String, String, u16, u16, bool)> = port_map(&ports2)
        .into_iter()
        .map(|r| (r.key, r.container, r.internal_port, r.public_port, r.dynamic))
        .collect();
    assert_eq!(first_map, second_map);
    assert_eq!(&first_ips, ips2.entries());
}

#[test]
fn variable_names_are_upper_case_with_underscores() {
    assert_eq!(ip_var_name("my-app", "web-ui"), "APP_MY_APP_WEB_UI_IP");
    assert_eq!(shared_subdir_var_name("btc-rpc"), "APP_BTC_RPC_SHARED_SUBDIR");
    assert_eq!(env_line("A", "b"), "A=b");
}

#[test]
fn env_merge_skips_present_lines() {
    let text = "X=1\nAPP_A_WEB_IP=10.21.21.20\n".to_string();
    let lines = vec![
        "APP_A_WEB_IP=10.21.21.20".to_string(),
        "APP_B_WEB_IP=10.21.21.21".to_string(),
        "APP_B_WEB_IP=10.21.21.21".to_string(),
    ];
    assert_eq!(
        merge_env(text, &lines),
        "X=1\nAPP_A_WEB_IP=10.21.21.20\nAPP_B_WEB_IP=10.21.21.21\n"
    );
}

#[test]
fn endpoints_are_dealt_over_three_files() {
    let entries: Vec<String> = (1..=7).map(|i| format!("e{i}")).collect();
    let (a, b, c) = split_round_robin(&entries);
    assert_eq!(a, vec!["e1", "e4", "e7"]);
    assert_eq!(b, vec!["e2", "e5"]);
    assert_eq!(c, vec!["e3", "e6"]);
    let (a, b, c) = split_round_robin(&Vec::new());
    assert!(a.is_empty() && b.is_empty() && c.is_empty());
}

#[test]
fn seed_sentinel_is_resolved() {
    let sentinel = Some("$APP_SEED".to_string());
    assert_eq!(
        resolve_default_password(sentinel.clone(), Some("derived".to_string())),
        Some("derived".to_string())
    );
    assert_eq!(
        resolve_default_password(sentinel, None),
        Some("Please reboot your node, default password does not seem to be available yet.".to_string())
    );
    assert_eq!(
        resolve_default_password(Some("hunter".to_string()), Some("derived".to_string())),
        Some("hunter".to_string())
    );
    assert_eq!(resolve_default_password(None, None), None);
}

#[test]
fn virtual_index_keeps_declaration_order() {
    let mut idx = VirtualIndex::new();
    idx.add("lightning".to_string(), "lnd".to_string());
    idx.add("bitcoin".to_string(), "bitcoind".to_string());
    idx.add("lightning".to_string(), "cln".to_string());
    let v = idx.to_vec();
    assert_eq!(v.len(), 2);
    assert_eq!(v[0].0, "lightning");
    assert_eq!(v[0].1, vec!["lnd", "cln"]);
    assert_eq!(v[1].0, "bitcoin");
    assert_eq!(v[1].1, vec!["bitcoind"]);
}

#[test]
fn shared_data_only_on_primary_container() {
    let mut svc = service("service");
    svc.shared_data = Some(SharedDataMount::Dirs(vec!["data".to_string()]));
    let mut web = service("web");
    web.shared_data = Some(SharedDataMount::Dirs(vec!["other".to_string()]));
    let mut text = service("worker");
    text.shared_data = Some(SharedDataMount::Text("x".to_string()));
    let mut many = service("cache");
    many.shared_data = Some(SharedDataMount::Dirs(vec!["a".to_string(), "b".to_string()]));
    let a = app("files", "web", vec![web, svc, text, many]);
    let (dir, warnings) = shared_data_dir(&a);
    assert_eq!(dir, Some("data".to_string()));
    let problems: Vec<(usize, MountProblem)> =
        warnings.iter().map(|w| (w.service_index, w.problem)).collect();
    assert_eq!(
        problems,
        vec![
            (0, MountProblem::NotPrimary),
            (2, MountProblem::TextMount),
            (3, MountProblem::MultipleMounts)
        ]
    );
}

#[test]
fn requests_follow_declaration_order() {
    let mut web = service("web");
    web.port = Some(8080);
    web.port_priority = Some(PortPriority::Recommended);
    web.required_udp = vec![51820];
    let mut db = service("db");
    db.required_tcp = vec![5432];
    let a = app("x", "web", vec![web, db]);
    let reqs = port_requests(&a);
    let got: Vec<(String, u16, PortPriority, bool, Option<Protocol>)> = reqs
        .into_iter()
        .map(|r| (r.container, r.port, r.priority, r.dynamic, r.protocol))
        .collect();
    assert_eq!(
        got,
        vec![
            ("web".to_string(), 8080, PortPriority::Recommended, false, None),
            ("web".to_string(), 51820, PortPriority::Required, false, Some(Protocol::Udp)),
            ("db".to_string(), 5432, PortPriority::Required, false, Some(Protocol::Tcp)),
        ]
    );
}

#[test]
fn evicted_dynamic_claim_is_stable_on_rerun() {
    let mut ports = allocator();
    assert!(ports.reserve("alpha".to_string(), "web".to_string(), 3000, PortPriority::Optional, true, None));
    assert!(ports.reserve("beta".to_string(), "api".to_string(), 3000, PortPriority::Required, false, None));
    let moved = ports.claim_at(3001).unwrap();
    assert_eq!(moved.app, "alpha");
    assert_eq!(moved.internal_port, 3001);
    assert!(moved.dynamic);
    let before: Vec<(u16, String, u16)> = ports
        .cache_entries()
        .into_iter()
        .map(|(p, c)| (p, c.app, c.internal_port))
        .collect();
    assert!(ports.reserve("alpha".to_string(), "web".to_string(), 3000, PortPriority::Optional, true, None));
    assert!(ports.reserve("beta".to_string(), "api".to_string(), 3000, PortPriority::Required, false, None));
    let after: Vec<(u16, String, u16)> = ports
        .cache_entries()
        .into_iter()
        .map(|(p, c)| (p, c.app, c.internal_port))
        .collect();
    assert_eq!(before, after);
}

#[test]
fn eviction_never_hands_out_reserved_port() {
    let mut ports = allocator();
    ports.restore(80, claim("x", "web", 80, PortPriority::Optional));
    assert!(ports.reserve("y".to_string(), "web".to_string(), 80, PortPriority::Required, false, None));
    assert_eq!(ports.claim_at(80).unwrap().app, "x");
    let placed = ports.claim_at(81).unwrap();
    assert_eq!(placed.app, "y");
    assert_eq!(placed.internal_port, 80);
}

#[test]
fn forward_search_skips_other_claims_of_same_container() {
    let mut ports = allocator();
    assert!(ports.reserve("a".to_string(), "web".to_string(), 5000, PortPriority::Required, false, None));
    assert!(ports.reserve("b".to_string(), "web".to_string(), 4999, PortPriority::Required, false, None));
    assert!(ports.reserve("a".to_string(), "web".to_string(), 4999, PortPriority::Optional, false, None));
    assert_eq!(ports.claim_at(5000).unwrap().priority, PortPriority::Required);
    let moved = ports.claim_at(5001).unwrap();
    assert_eq!(moved.app, "a");
    assert_eq!(moved.internal_port, 4999);
}

#[test]
fn env_merge_matches_whole_lines_only() {
    let text = "MYAPP_A_WEB_IP=10.21.21.25\n".to_string();
    let lines = vec!["APP_A_WEB_IP=10.21.21.25".to_string()];
    assert_eq!(
        merge_env(text, &lines),
        "MYAPP_A_WEB_IP=10.21.21.25\nAPP_A_WEB_IP=10.21.21.25\n"
    );
}
