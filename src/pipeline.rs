use vstd::prelude::*;
use vstd::string::StringExecFns;
use crate::ports::{PortAllocator, opt_view};
use crate::ips::{IpAllocator, IpError};
use crate::catalog::{
    AppManifest, PortRequest, MountWarning, views, app_requests, reserve_chain, assigned_all,
    ip_names, stopped_at, data_dir_of, mount_warnings_of, primary_container, port_requests, apply_requests,
    assign_app_ips, shared_data_dir,
};

verus! {

/// What pass 1 made of one app.
pub struct AppPass1 {
    /// The port requests, in the order they were made.
    pub requests: Vec<PortRequest>,
    /// Whether each request holds a port.
    pub granted: Vec<bool>,
    /// False once any request was refused: pass 2 then leaves the app out.
    pub supported: bool,
    pub data_dir: Option<String>,
    pub mount_warnings: Vec<MountWarning>,
}

/// Pass 1 for one app: addresses for its containers, then its port requests,
/// then its shared-data directory. An exhausted subnet is fatal for the run.
pub fn reserve_app(ports: &mut PortAllocator, ips: &mut IpAllocator, app: &AppManifest) -> (r:
    Result<AppPass1, IpError>)
    requires
        old(ips).wf(),
    ensures
        final(ips).wf(),
        final(ports).reserved_ports() == old(ports).reserved_ports(),
        final(ports).shared_name() == old(ports).shared_name(),
        match assigned_all(old(ips).pairs(), ip_names(app.id@, app.services@)) {
            Some(p) => final(ips).pairs() == p && r is Ok,
            None => r is Err && final(ports).table() == old(ports).table() && stopped_at(
                old(ips).pairs(),
                ip_names(app.id@, app.services@),
                final(ips).pairs(),
            ),
        },
        r matches Ok(out) ==> {
            &&& views(out.requests@) == app_requests(app.services@, app.main_container@)
            &&& reserve_chain(
                old(ports).table(),
                old(ports).reserved_ports(),
                old(ports).shared_name(),
                app.id@,
                opt_view(app.implements),
                views(out.requests@),
                final(ports).table(),
                out.granted@,
            )
            &&& out.supported == (forall|k: int| 0 <= k < out.granted@.len() ==> out.granted@[k])
            &&& opt_view(out.data_dir) == data_dir_of(app.services@, primary_container(*app))
            &&& out.mount_warnings@ == mount_warnings_of(app.services@, primary_container(*app))
        },
{
    match assign_app_ips(ips, app) {
        Ok(()) => {},
        Err(e) => {
            return Err(e);
        },
    }
    let requests = port_requests(app);
    let granted = apply_requests(ports, &app.id, &app.implements, &requests);
    let mut supported = true;
    let mut k: usize = 0;
    while k < granted.len()
        invariant
            0 <= k <= granted@.len(),
            supported == (forall|j: int| 0 <= j < k ==> granted@[j]),
        decreases granted@.len() - k,
    {
        if !granted[k] {
            supported = false;
        }
        k = k + 1;
    }
    let (data_dir, mount_warnings) = shared_data_dir(app);
    Ok(AppPass1 { requests, granted, supported, data_dir, mount_warnings })
}

/// What pass 1 leaves for pass 2: apps left out, and shared-data directories.
pub struct Pass1Summary {
    pub unsupported: Vec<String>,
    pub data_dirs: Vec<(String, String)>,
}

impl Pass1Summary {
    pub fn new() -> (r: Pass1Summary)
        ensures
            r.unsupported@.len() == 0,
            r.data_dirs@.len() == 0,
    {
        Pass1Summary { unsupported: Vec::new(), data_dirs: Vec::new() }
    }

    /// Notes the outcome of pass 1 for the app `app_id`.
    pub fn record(&mut self, app_id: &String, out: &AppPass1)
        ensures
            final(self).unsupported@ == if out.supported {
                old(self).unsupported@
            } else {
                old(self).unsupported@.push(*app_id)
            },
            final(self).data_dirs@ == match out.data_dir {
                Some(d) => old(self).data_dirs@.push((*app_id, d)),
                None => old(self).data_dirs@,
            },
    {
        if !out.supported {
            self.unsupported.push(app_id.clone());
        }
        match &out.data_dir {
            Some(d) => {
                self.data_dirs.push((app_id.clone(), d.clone()));
            },
            None => {},
        }
    }

    pub open spec fn lists_unsupported(&self, app_id: Seq<char>) -> bool {
        exists|i: int| 0 <= i < self.unsupported@.len() && self.unsupported@[i]@ == app_id
    }

    /// Whether pass 1 left the app out.
    pub fn is_unsupported(&self, app_id: &String) -> (r: bool)
        ensures
            r == self.lists_unsupported(app_id@),
    {
        let mut i: usize = 0;
        while i < self.unsupported.len()
            invariant
                0 <= i <= self.unsupported@.len(),
                forall|j: int| 0 <= j < i ==> self.unsupported@[j]@ != app_id@,
            decreases self.unsupported@.len() - i,
        {
            if self.unsupported[i] == *app_id {
                return true;
            }
            i = i + 1;
        }
        false
    }
}

/// What pass 2 does with one app directory.
#[derive(Clone, Copy, Debug, PartialEq, Eq, Structural)]
pub enum Pass2Action {
    /// Hand the app to the spec compiler.
    Compile,
    /// Delete any stale generated spec and skip the app.
    RemoveStale,
}

/// Pass 2 compiles an app that has a manifest and was not left out in pass 1.
pub fn pass2_action(has_manifest: bool, summary: &Pass1Summary, app_id: &String) -> (r: Pass2Action)
    ensures
        r == (if has_manifest && !summary.lists_unsupported(app_id@) {
            Pass2Action::Compile
        } else {
            Pass2Action::RemoveStale
        }),
{
    if has_manifest && !summary.is_unsupported(app_id) {
        Pass2Action::Compile
    } else {
        Pass2Action::RemoveStale
    }
}

pub open spec fn seed_sentinel() -> Seq<char> {
    "$APP_SEED"@
}

pub open spec fn seed_missing_message() -> Seq<char> {
    "Please reboot your node, default password does not seem to be available yet."@
}

/// The default password that the registry shows: the sentinel stands for the
/// secret derived from the platform seed (`derived`), or, without a seed, a
/// message that it is not available yet. Any other value is kept.
pub fn resolve_default_password(password: Option<String>, derived: Option<String>) -> (r: Option<
    String,
>)
    ensures
        (password matches Some(p) && p@ == seed_sentinel()) ==> opt_view(r) == match derived {
            Some(d) => Some(d@),
            None => Some(seed_missing_message()),
        },
        !(password matches Some(p) && p@ == seed_sentinel()) ==> opt_view(r) == opt_view(password),
{
    let sentinel = String::from_str("$APP_SEED");
    let is_sentinel = match &password {
        Some(p) => *p == sentinel,
        None => false,
    };
    if is_sentinel {
        match derived {
            Some(d) => Some(d),
            None => Some(
                String::from_str(
                    "Please reboot your node, default password does not seem to be available yet.",
                ),
            ),
        }
    } else {
        password
    }
}

} // verus!
