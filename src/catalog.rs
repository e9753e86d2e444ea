use vstd::prelude::*;
use crate::priority::PortPriority;
use crate::ports::{PortAllocator, ClaimView, reserve_rel, opt_view};
use crate::ips::{IpAllocator, IpError, has_name, address_text, assign_rel, result_view, FIRST_SUFFIX, LAST_SUFFIX};
use crate::naming::{ip_var_name, ip_var_spec};

verus! {

/// Public port asked for by a main container that declares none.
pub const DEFAULT_PORT: u16 = 3000;

/// Transport of a port that an app cannot run without.
#[derive(Clone, Copy, Debug, PartialEq, Eq, Structural)]
pub enum Protocol {
    Tcp,
    Udp,
}

/// Declaration of a shared-data mount on a container.
#[derive(Clone, Debug)]
pub enum SharedDataMount {
    /// A plain string, which is not a supported form.
    Text(String),
    /// Host directories of the mount, in declaration order.
    Dirs(Vec<String>),
}

/// One container of an app, as its manifest declares it.
#[derive(Clone, Debug)]
pub struct ServiceDecl {
    pub name: String,
    pub port: Option<u16>,
    pub port_priority: Option<PortPriority>,
    pub required_tcp: Vec<u16>,
    pub required_udp: Vec<u16>,
    pub shared_data: Option<SharedDataMount>,
}

/// What pass 1 reads of an app's manifest.
#[derive(Clone, Debug)]
pub struct AppManifest {
    pub id: String,
    /// The designated main container.
    pub main_container: String,
    /// Capability that the app implements.
    pub implements: Option<String>,
    pub services: Vec<ServiceDecl>,
}

/// One port request of pass 1.
#[derive(Clone, Debug)]
pub struct PortRequest {
    pub container: String,
    pub port: u16,
    pub priority: PortPriority,
    pub dynamic: bool,
    /// Set for a port the app declares mandatory.
    pub protocol: Option<Protocol>,
}

pub struct RequestView {
    pub container: Seq<char>,
    pub port: u16,
    pub priority: PortPriority,
    pub dynamic: bool,
    pub protocol: Option<Protocol>,
}

impl PortRequest {
    pub open spec fn view(self) -> RequestView {
        RequestView {
            container: self.container@,
            port: self.port,
            priority: self.priority,
            dynamic: self.dynamic,
            protocol: self.protocol,
        }
    }
}

pub open spec fn request(
    container: Seq<char>,
    port: u16,
    priority: PortPriority,
    dynamic: bool,
    protocol: Option<Protocol>,
) -> RequestView {
    RequestView { container, port, priority, dynamic, protocol }
}

/// The request for a container's own port: the declared one at its declared
/// priority (`Optional` if none), else the default port, dynamic and
/// `Optional`, for the main container; nothing for other containers.
pub open spec fn main_requests(s: ServiceDecl, main: Seq<char>) -> Seq<RequestView> {
    match s.port {
        Some(p) => seq![
            request(
                s.name@,
                p,
                match s.port_priority {
                    Some(pr) => pr,
                    None => PortPriority::Optional,
                },
                false,
                None,
            ),
        ],
        None => if s.name@ == main {
            seq![request(s.name@, DEFAULT_PORT, PortPriority::Optional, true, None)]
        } else {
            Seq::empty()
        },
    }
}

pub open spec fn mandatory_requests(name: Seq<char>, ports: Seq<u16>, protocol: Protocol) -> Seq<
    RequestView,
> {
    ports.map_values(|p: u16| request(name, p, PortPriority::Required, false, Some(protocol)))
}

/// Requests of one container: its own port, then its mandatory TCP ports,
/// then its mandatory UDP ports.
pub open spec fn service_requests(s: ServiceDecl, main: Seq<char>) -> Seq<RequestView> {
    main_requests(s, main) + mandatory_requests(s.name@, s.required_tcp@, Protocol::Tcp)
        + mandatory_requests(s.name@, s.required_udp@, Protocol::Udp)
}

/// Requests of an app, container by container in declaration order.
pub open spec fn app_requests(services: Seq<ServiceDecl>, main: Seq<char>) -> Seq<RequestView>
    decreases services.len(),
{
    if services.len() == 0 {
        Seq::empty()
    } else {
        app_requests(services.drop_last(), main) + service_requests(services.last(), main)
    }
}

/// `ts` lists the tables met while making `reqs` in order for `app`:
/// each request takes `ts[k]` to `ts[k + 1]` and got `granted[k]`.
pub open spec fn reserve_trace(
    ts: Seq<Map<u16, ClaimView>>,
    reserved: Seq<u16>,
    shared: Seq<char>,
    app: Seq<char>,
    implements: Option<Seq<char>>,
    reqs: Seq<RequestView>,
    granted: Seq<bool>,
) -> bool {
    &&& granted.len() == reqs.len()
    &&& ts.len() == reqs.len() + 1
    &&& forall|k: int|
        0 <= k < reqs.len() ==> reserve_rel(
            #[trigger] ts[k],
            reserved,
            shared,
            app,
            reqs[k].container,
            reqs[k].port,
            reqs[k].priority,
            reqs[k].dynamic,
            implements,
            ts[k + 1],
            granted[k],
        )
}

/// `t2` and `granted` come of making `reqs` in order on `t` for `app`.
pub open spec fn reserve_chain(
    t: Map<u16, ClaimView>,
    reserved: Seq<u16>,
    shared: Seq<char>,
    app: Seq<char>,
    implements: Option<Seq<char>>,
    reqs: Seq<RequestView>,
    t2: Map<u16, ClaimView>,
    granted: Seq<bool>,
) -> bool {
    exists|ts: Seq<Map<u16, ClaimView>>|
        #[trigger] reserve_trace(ts, reserved, shared, app, implements, reqs, granted) && ts[0]
            == t && ts.last() == t2
}

/// The pairs after assigning `name`, or `None` once the subnet is used up.
pub open spec fn assigned(pairs: Seq<(Seq<char>, Seq<char>)>, name: Seq<char>) -> Option<
    Seq<(Seq<char>, Seq<char>)>,
> {
    if has_name(pairs, name) {
        Some(pairs)
    } else if FIRST_SUFFIX + pairs.len() > LAST_SUFFIX {
        None
    } else {
        Some(pairs.push((name, address_text((FIRST_SUFFIX + pairs.len()) as nat))))
    }
}

/// The pairs after assigning each of `names` in order.
pub open spec fn assigned_all(pairs: Seq<(Seq<char>, Seq<char>)>, names: Seq<Seq<char>>) -> Option<
    Seq<(Seq<char>, Seq<char>)>,
>
    decreases names.len(),
{
    if names.len() == 0 {
        Some(pairs)
    } else {
        match assigned_all(pairs, names.drop_last()) {
            Some(p) => assigned(p, names.last()),
            None => None,
        }
    }
}

/// Assigning `names` in order ran out of addresses at some name: `pairs` is
/// what the names before it gave, and that name found no address.
pub open spec fn stopped_at(
    pairs0: Seq<(Seq<char>, Seq<char>)>,
    names: Seq<Seq<char>>,
    pairs: Seq<(Seq<char>, Seq<char>)>,
) -> bool {
    exists|k: int|
        0 <= k < names.len() && assigned_all(pairs0, names.take(k)) == Some(pairs) && assigned(
            pairs,
            names[k],
        ) is None
}

/// Address variable names of an app's containers, in declaration order.
pub open spec fn ip_names(app: Seq<char>, services: Seq<ServiceDecl>) -> Seq<Seq<char>> {
    services.map_values(|s: ServiceDecl| ip_var_spec(app, s.name@))
}

proof fn lemma_assign_is_assigned(
    pairs: Seq<(Seq<char>, Seq<char>)>,
    name: Seq<char>,
    pairs2: Seq<(Seq<char>, Seq<char>)>,
    next2: nat,
    r: Result<Seq<char>, IpError>,
)
    requires
        assign_rel(pairs, (FIRST_SUFFIX + pairs.len()) as nat, name, pairs2, next2, r),
    ensures
        r is Ok ==> assigned(pairs, name) == Some(pairs2),
        r is Err ==> assigned(pairs, name) is None && pairs2 == pairs,
{
}

/// Assigns an address to every container of `app`, in declaration order.
pub fn assign_app_ips(ips: &mut IpAllocator, app: &AppManifest) -> (r: Result<(), IpError>)
    requires
        old(ips).wf(),
    ensures
        final(ips).wf(),
        match assigned_all(old(ips).pairs(), ip_names(app.id@, app.services@)) {
            Some(p) => r is Ok && final(ips).pairs() == p,
            None => r is Err && stopped_at(
                old(ips).pairs(),
                ip_names(app.id@, app.services@),
                final(ips).pairs(),
            ),
        },
{
    let ghost p0 = ips.pairs();
    let ghost names = ip_names(app.id@, app.services@);
    let mut i: usize = 0;
    while i < app.services.len()
        invariant
            0 <= i <= app.services@.len(),
            names == ip_names(app.id@, app.services@),
            p0 == old(ips).pairs(),
            ips.wf(),
            assigned_all(p0, names.take(i as int)) == Some(ips.pairs()),
        decreases app.services@.len() - i,
    {
        let name = ip_var_name(app.id.as_str(), app.services[i].name.as_str());
        let ghost before = ips.pairs();
        let res = ips.assign(name);
        proof {
            lemma_assign_is_assigned(before, name@, ips.pairs(), ips.cursor(), result_view(res));
            assert(names.take(i + 1).drop_last() =~= names.take(i as int));
            assert(names.take(i + 1).last() == name@);
        }
        match res {
            Ok(_) => {},
            Err(e) => {
                proof {
                    assert(names.take(i + 1).len() == i + 1);
                    assert(assigned_all(p0, names.take(i + 1)) is None);
                    lemma_assigned_all_stays_none(p0, names, i as int + 1);
                    assert(names[i as int] == name@);
                    assert(ips.pairs() == before);
                    assert(assigned_all(p0, names.take(i as int)) == Some(ips.pairs()) && assigned(
                        ips.pairs(),
                        names[i as int],
                    ) is None);
                }
                return Err(e);
            },
        }
        i = i + 1;
    }
    assert(names.take(i as int) =~= names);
    Ok(())
}

proof fn lemma_assigned_all_stays_none(
    pairs: Seq<(Seq<char>, Seq<char>)>,
    names: Seq<Seq<char>>,
    k: int,
)
    requires
        0 <= k <= names.len(),
        assigned_all(pairs, names.take(k)) is None,
    ensures
        assigned_all(pairs, names) is None,
    decreases names.len() - k,
{
    if k < names.len() {
        assert(names.take(k + 1).drop_last() =~= names.take(k));
        lemma_assigned_all_stays_none(pairs, names, k + 1);
    } else {
        assert(names.take(k) =~= names);
    }
}

pub open spec fn views(v: Seq<PortRequest>) -> Seq<RequestView> {
    v.map_values(|r: PortRequest| r.view())
}

fn push_mandatory(out: &mut Vec<PortRequest>, name: &String, ports: &Vec<u16>, protocol: Protocol)
    ensures
        views(final(out)@) == views(old(out)@) + mandatory_requests(name@, ports@, protocol),
{
    let mut j: usize = 0;
    while j < ports.len()
        invariant
            0 <= j <= ports@.len(),
            views(out@) == views(old(out)@) + mandatory_requests(name@, ports@.take(j as int), protocol),
        decreases ports@.len() - j,
    {
        let ghost before = out@;
        out.push(PortRequest {
            container: name.clone(),
            port: ports[j],
            priority: PortPriority::Required,
            dynamic: false,
            protocol: Some(protocol),
        });
        proof {
            assert(views(out@) =~= views(before).push(out@.last().view()));
            assert(mandatory_requests(name@, ports@.take(j + 1), protocol) =~= mandatory_requests(
                name@,
                ports@.take(j as int),
                protocol,
            ).push(request(name@, ports@[j as int], PortPriority::Required, false, Some(protocol))));
        }
        j = j + 1;
    }
    assert(ports@.take(j as int) =~= ports@);
}

/// The port requests of `app`, in the order pass 1 makes them.
pub fn port_requests(app: &AppManifest) -> (r: Vec<PortRequest>)
    ensures
        views(r@) == app_requests(app.services@, app.main_container@),
{
    let mut out: Vec<PortRequest> = Vec::new();
    let ghost main = app.main_container@;
    let mut i: usize = 0;
    assert(views(out@) =~= Seq::<RequestView>::empty());
    while i < app.services.len()
        invariant
            0 <= i <= app.services@.len(),
            main == app.main_container@,
            views(out@) == app_requests(app.services@.take(i as int), main),
        decreases app.services@.len() - i,
    {
        let s = &app.services[i];
        let ghost before = views(out@);
        match s.port {
            Some(p) => {
                let pr = match s.port_priority {
                    Some(pr) => pr,
                    None => PortPriority::Optional,
                };
                out.push(
                    PortRequest {
                        container: s.name.clone(),
                        port: p,
                        priority: pr,
                        dynamic: false,
                        protocol: None,
                    },
                );
            },
            None => {
                if s.name == app.main_container {
                    out.push(
                        PortRequest {
                            container: s.name.clone(),
                            port: DEFAULT_PORT,
                            priority: PortPriority::Optional,
                            dynamic: true,
                            protocol: None,
                        },
                    );
                }
            },
        }
        assert(views(out@) =~= before + main_requests(*s, main));
        let ghost mid = views(out@);
        push_mandatory(&mut out, &s.name, &s.required_tcp, Protocol::Tcp);
        push_mandatory(&mut out, &s.name, &s.required_udp, Protocol::Udp);
        proof {
            assert(app.services@.take(i + 1).drop_last() =~= app.services@.take(i as int));
            assert(app.services@.take(i + 1).last() == *s);
            assert(views(out@) =~= before + service_requests(*s, main));
        }
        i = i + 1;
    }
    assert(app.services@.take(i as int) =~= app.services@);
    out
}

fn clone_opt(o: &Option<String>) -> (r: Option<String>)
    ensures
        opt_view(r) == opt_view(*o),
{
    match o {
        Some(s) => Some(s.clone()),
        None => None,
    }
}

/// Makes `reqs` in order on `ports` for `app`; returns what each got.
pub fn apply_requests(
    ports: &mut PortAllocator,
    app: &String,
    implements: &Option<String>,
    reqs: &Vec<PortRequest>,
) -> (granted: Vec<bool>)
    ensures
        reserve_chain(
            old(ports).table(),
            old(ports).reserved_ports(),
            old(ports).shared_name(),
            app@,
            opt_view(*implements),
            views(reqs@),
            final(ports).table(),
            granted@,
        ),
        final(ports).reserved_ports() == old(ports).reserved_ports(),
        final(ports).shared_name() == old(ports).shared_name(),
{
    let ghost t0 = ports.table();
    let ghost imp = opt_view(*implements);
    let ghost vs = views(reqs@);
    let ghost mut ts: Seq<Map<u16, ClaimView>> = seq![t0];
    let mut granted: Vec<bool> = Vec::new();
    let mut i: usize = 0;
    while i < reqs.len()
        invariant
            0 <= i <= reqs@.len(),
            t0 == old(ports).table(),
            imp == opt_view(*implements),
            vs == views(reqs@),
            ports.reserved_ports() == old(ports).reserved_ports(),
            ports.shared_name() == old(ports).shared_name(),
            ts[0] == t0,
            ts.last() == ports.table(),
            reserve_trace(
                ts,
                ports.reserved_ports(),
                ports.shared_name(),
                app@,
                imp,
                vs.take(i as int),
                granted@,
            ),
        decreases reqs@.len() - i,
    {
        let q = &reqs[i];
        let ok = ports.reserve(
            app.clone(),
            q.container.clone(),
            q.port,
            q.priority,
            q.dynamic,
            clone_opt(implements),
        );
        granted.push(ok);
        proof {
            let ts_before = ts;
            ts = ts.push(ports.table());
            assert(vs.take(i + 1) =~= vs.take(i as int).push(q.view()));
            assert forall|k: int| 0 <= k < i + 1 implies reserve_rel(
                #[trigger] ts[k],
                ports.reserved_ports(),
                ports.shared_name(),
                app@,
                vs.take(i + 1)[k].container,
                vs.take(i + 1)[k].port,
                vs.take(i + 1)[k].priority,
                vs.take(i + 1)[k].dynamic,
                imp,
                ts[k + 1],
                granted@[k],
            ) by {
                if k < i {
                    assert(ts[k] == ts_before[k]);
                    assert(ts[k + 1] == ts_before[k + 1]);
                }
            }
        }
        i = i + 1;
    }
    assert(vs.take(i as int) =~= vs);
    granted
}

/// Why a container's shared-data mount is not honoured.
#[derive(Clone, Copy, Debug, PartialEq, Eq, Structural)]
pub enum MountProblem {
    /// Declared as a plain string.
    TextMount,
    /// More than one shared-data directory on one container.
    MultipleMounts,
    /// Declared on a container other than the app's primary one.
    NotPrimary,
}

/// A mount declaration that was skipped, by the index of its container.
#[derive(Clone, Copy, Debug, PartialEq, Eq, Structural)]
pub struct MountWarning {
    pub service_index: usize,
    pub problem: MountProblem,
}

pub open spec fn service_container_name() -> Seq<char> {
    "service"@
}

/// The container that holds an app's shared data: the one named `service`
/// if the app declares it, else the main container.
pub open spec fn primary_container(app: AppManifest) -> Seq<char> {
    if exists|i: int| 0 <= i < app.services@.len() && app.services@[i].name@ == service_container_name() {
        service_container_name()
    } else {
        app.main_container@
    }
}

/// What one container's mount declaration gives: nothing, the directory, or a problem.
pub open spec fn mount_outcome(s: ServiceDecl, primary: Seq<char>) -> Option<Result<Seq<char>, MountProblem>> {
    match s.shared_data {
        None => None,
        Some(SharedDataMount::Text(_)) => Some(Err(MountProblem::TextMount)),
        Some(SharedDataMount::Dirs(d)) => if d@.len() != 1 {
            Some(Err(MountProblem::MultipleMounts))
        } else if s.name@ == primary {
            Some(Ok(d@[0]@))
        } else {
            Some(Err(MountProblem::NotPrimary))
        },
    }
}

/// The directory of the last container whose declaration is honoured.
pub open spec fn data_dir_of(services: Seq<ServiceDecl>, primary: Seq<char>) -> Option<Seq<char>>
    decreases services.len(),
{
    if services.len() == 0 {
        None
    } else {
        match mount_outcome(services.last(), primary) {
            Some(Ok(d)) => Some(d),
            _ => data_dir_of(services.drop_last(), primary),
        }
    }
}

/// The skipped declarations, in container order.
pub open spec fn mount_warnings_of(services: Seq<ServiceDecl>, primary: Seq<char>) -> Seq<MountWarning>
    decreases services.len(),
{
    if services.len() == 0 {
        Seq::empty()
    } else {
        let prev = mount_warnings_of(services.drop_last(), primary);
        match mount_outcome(services.last(), primary) {
            Some(Err(p)) => prev.push(
                MountWarning { service_index: (services.len() - 1) as usize, problem: p },
            ),
            _ => prev,
        }
    }
}

fn primary_of(app: &AppManifest) -> (r: String)
    ensures
        r@ == primary_container(*app),
{
    let service = String::from_str("service");
    let mut i: usize = 0;
    while i < app.services.len()
        invariant
            0 <= i <= app.services@.len(),
            service@ == service_container_name(),
            forall|j: int| 0 <= j < i ==> app.services@[j].name@ != service_container_name(),
        decreases app.services@.len() - i,
    {
        if app.services[i].name == service {
            return service;
        }
        i = i + 1;
    }
    app.main_container.clone()
}

/// The shared-data directory of `app`, and the declarations skipped on the way.
pub fn shared_data_dir(app: &AppManifest) -> (r: (Option<String>, Vec<MountWarning>))
    ensures
        opt_view(r.0) == data_dir_of(app.services@, primary_container(*app)),
        r.1@ == mount_warnings_of(app.services@, primary_container(*app)),
{
    let primary = primary_of(app);
    let mut dir: Option<String> = None;
    let mut warnings: Vec<MountWarning> = Vec::new();
    let mut i: usize = 0;
    while i < app.services.len()
        invariant
            0 <= i <= app.services@.len(),
            primary@ == primary_container(*app),
            opt_view(dir) == data_dir_of(app.services@.take(i as int), primary@),
            warnings@ == mount_warnings_of(app.services@.take(i as int), primary@),
        decreases app.services@.len() - i,
    {
        let s = &app.services[i];
        proof {
            assert(app.services@.take(i + 1).drop_last() =~= app.services@.take(i as int));
            assert(app.services@.take(i + 1).last() == *s);
        }
        match &s.shared_data {
            None => {},
            Some(SharedDataMount::Text(_)) => {
                warnings.push(MountWarning { service_index: i, problem: MountProblem::TextMount });
            },
            Some(SharedDataMount::Dirs(d)) => {
                if d.len() != 1 {
                    warnings.push(
                        MountWarning { service_index: i, problem: MountProblem::MultipleMounts },
                    );
                } else if s.name == primary {
                    dir = Some(d[0].clone());
                } else {
                    warnings.push(
                        MountWarning { service_index: i, problem: MountProblem::NotPrimary },
                    );
                }
            },
        }
        i = i + 1;
    }
    assert(app.services@.take(i as int) =~= app.services@);
    (dir, warnings)
}

} // verus!
