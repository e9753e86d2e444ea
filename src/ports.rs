use vstd::prelude::*;
use std::collections::HashMap;
use crate::priority::PortPriority;

verus! {

broadcast use vstd::std_specs::hash::group_hash_axioms;

/// A (app, container) pair's hold on the public port it is keyed by.
#[derive(Clone, Debug)]
pub struct PortClaim {
    pub app: String,
    pub container: String,
    /// Port the container listens on.
    pub internal_port: u16,
    /// Whether the port was chosen by the allocator rather than declared.
    pub dynamic: bool,
    /// Capability that the owning app implements, if any.
    pub implements: Option<String>,
    pub priority: PortPriority,
}

/// Mathematical value of a claim.
pub struct ClaimView {
    pub app: Seq<char>,
    pub container: Seq<char>,
    pub internal_port: u16,
    pub dynamic: bool,
    pub implements: Option<Seq<char>>,
    pub priority: PortPriority,
}

pub open spec fn opt_view(o: Option<String>) -> Option<Seq<char>> {
    match o {
        Some(s) => Some(s@),
        None => None,
    }
}

impl PortClaim {
    pub open spec fn view(self) -> ClaimView {
        ClaimView {
            app: self.app@,
            container: self.container@,
            internal_port: self.internal_port,
            dynamic: self.dynamic,
            implements: opt_view(self.implements),
            priority: self.priority,
        }
    }
}

impl PortClaim {
    /// A field-by-field copy.
    pub fn duplicate(&self) -> (r: PortClaim)
        ensures
            r.view() == self.view(),
    {
        PortClaim {
            app: self.app.clone(),
            container: self.container.clone(),
            internal_port: self.internal_port,
            dynamic: self.dynamic,
            implements: match &self.implements {
                Some(s) => Some(s.clone()),
                None => None,
            },
            priority: self.priority,
        }
    }
}

/// Ports that platform infrastructure holds: the dashboard (80 and 443), 433,
/// which some proxy setups use, and 8333 for Bitcoin Core's peer-to-peer port.
pub fn platform_reserved_ports() -> (r: Vec<u16>)
    ensures
        r@ == seq![80u16, 433u16, 443u16, 8333u16],
{
    vec![80, 433, 443, 8333]
}

pub open spec fn table_of(m: Map<u16, PortClaim>) -> Map<u16, ClaimView> {
    m.map_values(|c: PortClaim| c.view())
}

/// The claim that a request places, with the given internal port.
pub open spec fn placed(
    app: Seq<char>,
    container: Seq<char>,
    internal_port: u16,
    dynamic: bool,
    implements: Option<Seq<char>>,
    priority: PortPriority,
) -> ClaimView {
    ClaimView { app, container, internal_port, dynamic, implements, priority }
}

/// Port `p` cannot be handed out as a free port.
pub open spec fn blocked(t: Map<u16, ClaimView>, reserved: Seq<u16>, p: u16) -> bool {
    reserved.contains(p) || t.contains_key(p)
}

/// Port `p` is held by the pair (`app`, `container`).
pub open spec fn owned(t: Map<u16, ClaimView>, p: u16, app: Seq<char>, container: Seq<char>) -> bool {
    t.contains_key(p) && t[p].app == app && t[p].container == container
}

/// Claim `c` as it is stored at public port `p`: where `tracks` holds, its
/// internal port follows the public one.
pub open spec fn at_port(c: ClaimView, tracks: bool, p: u16) -> ClaimView {
    ClaimView {
        app: c.app,
        container: c.container,
        internal_port: if tracks { p } else { c.internal_port },
        dynamic: c.dynamic,
        implements: c.implements,
        priority: c.priority,
    }
}

/// The forward search for a place for `c` walks over `p`: the port is taken,
/// and not already by exactly the claim that would be stored there.
pub open spec fn passed_over(
    t: Map<u16, ClaimView>,
    reserved: Seq<u16>,
    c: ClaimView,
    tracks: bool,
    p: u16,
) -> bool {
    blocked(t, reserved, p) && !(t.contains_key(p) && t[p] == at_port(c, tracks, p))
}

/// `q` is where the forward search for `c` from `from` stops: the first port
/// at or above `from` that it does not walk over.
pub open spec fn is_landing(
    t: Map<u16, ClaimView>,
    reserved: Seq<u16>,
    c: ClaimView,
    tracks: bool,
    from: int,
    q: u16,
) -> bool {
    &&& from <= q
    &&& !passed_over(t, reserved, c, tracks, q)
    &&& forall|x: u16| from <= x < q ==> passed_over(t, reserved, c, tracks, x)
}

/// The forward search for `c` from `from` runs out of ports.
pub open spec fn no_landing(
    t: Map<u16, ClaimView>,
    reserved: Seq<u16>,
    c: ClaimView,
    tracks: bool,
    from: int,
) -> bool {
    forall|x: u16| from <= x ==> passed_over(t, reserved, c, tracks, x)
}

/// The incumbent already serves the request: same pair, or the same
/// capability asked for by the shared capability container.
pub open spec fn satisfied(
    inc: ClaimView,
    app: Seq<char>,
    container: Seq<char>,
    implements: Option<Seq<char>>,
    shared: Seq<char>,
) -> bool {
    (inc.app == app && inc.container == container) || (inc.implements is Some
        && inc.implements == implements && container == shared)
}

/// The claim `c` is stored at its landing `q` from `s` (see `at_port`); or,
/// with no landing, nothing changes and the request fails.
pub open spec fn placed_at_landing(
    t: Map<u16, ClaimView>,
    reserved: Seq<u16>,
    c: ClaimView,
    tracks: bool,
    s: u16,
    t2: Map<u16, ClaimView>,
    granted: bool,
) -> bool {
    if no_landing(t, reserved, c, tracks, s as int) {
        !granted && t2 == t
    } else {
        granted && exists|q: u16|
            is_landing(t, reserved, c, tracks, s as int, q) && t2 == t.insert(q, at_port(c, tracks, q))
    }
}

/// The incumbent of `s` moves to its landing above `s` (a dynamic one takes
/// its new port as internal port too), and `c` is stored at `s`; or, with no
/// landing for the incumbent, nothing changes and the request fails.
pub open spec fn evicted(
    t: Map<u16, ClaimView>,
    reserved: Seq<u16>,
    c: ClaimView,
    s: u16,
    t2: Map<u16, ClaimView>,
    granted: bool,
) -> bool {
    let inc = t[s];
    let rest = t.remove(s);
    if no_landing(rest, reserved, inc, inc.dynamic, s + 1) {
        !granted && t2 == t
    } else {
        granted && exists|q: u16|
            is_landing(rest, reserved, inc, inc.dynamic, s + 1, q) && t2 == rest.insert(
                q,
                at_port(inc, inc.dynamic, q),
            ).insert(s, c)
    }
}

/// What one `reserve` request does to the claim table `t`, giving `t2`.
pub open spec fn reserve_rel(
    t: Map<u16, ClaimView>,
    reserved: Seq<u16>,
    shared: Seq<char>,
    app: Seq<char>,
    container: Seq<char>,
    s: u16,
    priority: PortPriority,
    dynamic: bool,
    implements: Option<Seq<char>>,
    t2: Map<u16, ClaimView>,
    granted: bool,
) -> bool {
    let c = placed(app, container, s, dynamic, implements, priority);
    if !t.contains_key(s) {
        if !reserved.contains(s) {
            granted && t2 == t.insert(s, c)
        } else {
            placed_at_landing(t, reserved, c, false, s, t2, granted)
        }
    } else if satisfied(t[s], app, container, implements, shared) {
        granted && t2 == t
    } else if t[s].priority.level() < priority.level() && !reserved.contains(s) {
        evicted(t, reserved, c, s, t2, granted)
    } else if t[s].priority == PortPriority::Required && priority == PortPriority::Required {
        !granted && t2 == t
    } else {
        placed_at_landing(t, reserved, c, dynamic, s, t2, granted)
    }
}

/// Owner of the public port table: at most one claim per public port.
pub struct PortAllocator {
    claims: HashMap<u16, PortClaim>,
    reserved: Vec<u16>,
    shared_container: String,
}

impl PortAllocator {
    /// The claims, keyed by public port.
    pub closed spec fn table(&self) -> Map<u16, ClaimView> {
        table_of(self.claims@)
    }

    /// Ports held by platform infrastructure.
    pub closed spec fn reserved_ports(&self) -> Seq<u16> {
        self.reserved@
    }

    /// Name of the container that a capability's packages share.
    pub closed spec fn shared_name(&self) -> Seq<char> {
        self.shared_container@
    }

    /// An empty table over the given reserved ports and shared container name.
    pub fn new(reserved: Vec<u16>, shared_container: String) -> (r: PortAllocator)
        ensures
            r.table() == Map::<u16, ClaimView>::empty(),
            r.reserved_ports() == reserved@,
            r.shared_name() == shared_container@,
    {
        let r = PortAllocator { claims: HashMap::new(), reserved, shared_container };
        assert(r.table() =~= Map::<u16, ClaimView>::empty());
        r
    }

    /// Puts a claim from an earlier run back at its public port.
    pub fn restore(&mut self, public_port: u16, claim: PortClaim)
        ensures
            final(self).table() == old(self).table().insert(public_port, claim.view()),
            final(self).reserved_ports() == old(self).reserved_ports(),
            final(self).shared_name() == old(self).shared_name(),
    {
        self.claims.insert(public_port, claim);
        assert(self.table() =~= old(self).table().insert(public_port, claim.view()));
    }

    /// The claim at `public_port`, if any.
    pub fn claim_at(&self, public_port: u16) -> (r: Option<&PortClaim>)
        ensures
            match r {
                Some(c) => self.table().contains_key(public_port) && self.table()[public_port]
                    == c.view(),
                None => !self.table().contains_key(public_port),
            },
    {
        self.claims.get(&public_port)
    }

    /// Name of the container that a capability's packages share.
    pub fn shared_container_name(&self) -> (r: &String)
        ensures
            r@ == self.shared_name(),
    {
        &self.shared_container
    }

    /// The claims with their public ports, in increasing order of port.
    pub fn cache_entries(&self) -> (r: Vec<(u16, PortClaim)>)
        ensures
            forall|j: int|
                0 <= j < r@.len() ==> self.table().contains_key(#[trigger] r@[j].0)
                    && self.table()[r@[j].0] == r@[j].1.view(),
            forall|j: int, k: int| 0 <= j < k < r@.len() ==> r@[j].0 < r@[k].0,
            forall|p: u16|
                self.table().contains_key(p) ==> exists|j: int|
                    0 <= j < r@.len() && (#[trigger] r@[j]).0 == p,
    {
        let mut r: Vec<(u16, PortClaim)> = Vec::new();
        let mut p: u32 = 0;
        while p <= 65535
            invariant
                p <= 65536,
                forall|j: int|
                    0 <= j < r@.len() ==> self.table().contains_key(#[trigger] r@[j].0) && r@[j].0 < p
                        && self.table()[r@[j].0] == r@[j].1.view(),
                forall|j: int, k: int| 0 <= j < k < r@.len() ==> r@[j].0 < r@[k].0,
                forall|q: u16|
                    q < p && self.table().contains_key(q) ==> exists|j: int|
                        0 <= j < r@.len() && (#[trigger] r@[j]).0 == q,
            decreases 65536 - p,
        {
            let port = p as u16;
            match self.claims.get(&port) {
                Some(c) => {
                    let ghost r0 = r@;
                    r.push((port, c.duplicate()));
                    assert forall|q: u16|
                        q < p + 1 && self.table().contains_key(q) implies exists|j: int|
                            0 <= j < r@.len() && (#[trigger] r@[j]).0 == q by {
                        if q < p {
                            let j = choose|j: int| 0 <= j < r0.len() && (#[trigger] r0[j]).0 == q;
                            assert(r@[j] == r0[j]);
                        } else {
                            assert(r@[r0.len() as int].0 == q);
                        }
                    }
                },
                None => {},
            }
            p = p + 1;
        }
        r
    }

    fn is_reserved(&self, p: u16) -> (r: bool)
        ensures
            r == self.reserved@.contains(p),
    {
        let mut i: usize = 0;
        while i < self.reserved.len()
            invariant
                0 <= i <= self.reserved@.len(),
                forall|j: int| 0 <= j < i ==> self.reserved@[j] != p,
            decreases self.reserved@.len() - i,
        {
            if self.reserved[i] == p {
                return true;
            }
            i = i + 1;
        }
        false
    }

    /// Whether `x` is exactly claim `c` as stored at port `p`.
    fn is_stored_as(x: &PortClaim, c: &PortClaim, tracks: bool, p: u16) -> (r: bool)
        ensures
            r == (x.view() == at_port(c.view(), tracks, p)),
    {
        let internal = if tracks {
            p
        } else {
            c.internal_port
        };
        let same_implements = match (&x.implements, &c.implements) {
            (Some(a), Some(b)) => *a == *b,
            (None, None) => true,
            _ => false,
        };
        x.app == c.app && x.container == c.container && x.internal_port == internal && x.dynamic
            == c.dynamic && same_implements && x.priority == c.priority
    }

    /// Forward search from `from` for a place for `c`: skips reserved and
    /// claimed ports, and stops early on a port that already holds exactly
    /// the claim that would be stored there.
    fn next_free(&self, c: &PortClaim, tracks: bool, from: u16) -> (r: Option<u16>)
        ensures
            match r {
                Some(q) => is_landing(self.table(), self.reserved@, c.view(), tracks, from as int, q),
                None => no_landing(self.table(), self.reserved@, c.view(), tracks, from as int),
            },
    {
        let mut p: u16 = from;
        loop
            invariant
                from <= p,
                forall|x: u16|
                    from <= x < p ==> passed_over(self.table(), self.reserved@, c.view(), tracks, x),
            decreases 65535 - p,
        {
            let res = self.is_reserved(p);
            match self.claims.get(&p) {
                Some(x) => {
                    if Self::is_stored_as(x, c, tracks, p) {
                        return Some(p);
                    }
                },
                None => {
                    if !res {
                        return Some(p);
                    }
                },
            }
            if p == 65535 {
                return None;
            }
            p = p + 1;
        }
    }

    /// Stores `c` at its landing from `s`.
    fn place_at_landing(&mut self, c: PortClaim, tracks: bool, s: u16) -> (granted: bool)
        ensures
            placed_at_landing(
                old(self).table(),
                old(self).reserved_ports(),
                c.view(),
                tracks,
                s,
                final(self).table(),
                granted,
            ),
            final(self).reserved_ports() == old(self).reserved_ports(),
            final(self).shared_name() == old(self).shared_name(),
    {
        let ghost t = self.table();
        let ghost cv = c.view();
        match self.next_free(&c, tracks, s) {
            None => false,
            Some(q) => {
                let mut c = c;
                if tracks {
                    c.internal_port = q;
                }
                assert(c.view() == at_port(cv, tracks, q));
                self.claims.insert(q, c);
                assert(self.table() =~= t.insert(q, at_port(cv, tracks, q)));
                true
            },
        }
    }

    /// Asks for `suggested` as the public port of (`app`, `container`).
    /// Returns whether the request holds a port afterwards.
    pub fn reserve(
        &mut self,
        app: String,
        container: String,
        suggested: u16,
        priority: PortPriority,
        dynamic: bool,
        implements: Option<String>,
    ) -> (granted: bool)
        ensures
            reserve_rel(
                old(self).table(),
                old(self).reserved_ports(),
                old(self).shared_name(),
                app@,
                container@,
                suggested,
                priority,
                dynamic,
                opt_view(implements),
                final(self).table(),
                granted,
            ),
            final(self).reserved_ports() == old(self).reserved_ports(),
            final(self).shared_name() == old(self).shared_name(),
    {
        let ghost t = self.table();
        let c = PortClaim {
            app,
            container,
            internal_port: suggested,
            dynamic,
            implements,
            priority,
        };
        let found = match self.claims.get(&suggested) {
            Some(inc) => {
                let same_pair = inc.app == c.app && inc.container == c.container;
                let same_capability = match (&inc.implements, &c.implements) {
                    (Some(a), Some(b)) => *a == *b && c.container == self.shared_container,
                    _ => false,
                };
                Some((same_pair || same_capability, inc.priority))
            },
            None => None,
        };
        match found {
            None => {
                if !self.is_reserved(suggested) {
                    self.claims.insert(suggested, c);
                    assert(self.table() =~= t.insert(suggested, c.view()));
                    true
                } else {
                    self.place_at_landing(c, false, suggested)
                }
            },
            Some((true, _)) => true,
            Some((false, inc_priority)) => {
                if inc_priority.is_lower_than(&priority) && !self.is_reserved(suggested) {
                    self.evict_and_place(c, suggested)
                } else if inc_priority == PortPriority::Required && priority
                    == PortPriority::Required {
                    false
                } else {
                    self.place_at_landing(c, dynamic, suggested)
                }
            },
        }
    }

    /// Moves the incumbent of `s` forward and stores `c` at `s`.
    fn evict_and_place(&mut self, c: PortClaim, s: u16) -> (granted: bool)
        requires
            old(self).table().contains_key(s),
        ensures
            evicted(
                old(self).table(),
                old(self).reserved_ports(),
                c.view(),
                s,
                final(self).table(),
                granted,
            ),
            final(self).reserved_ports() == old(self).reserved_ports(),
            final(self).shared_name() == old(self).shared_name(),
    {
        let ghost t = self.table();
        let ghost rest = t.remove(s);
        let inc = match self.claims.remove(&s) {
            Some(x) => x,
            None => {
                return false;
            },
        };
        let ghost iv = inc.view();
        assert(self.table() =~= rest);
        let moved = if s == 65535 {
            assert(no_landing(rest, self.reserved@, iv, iv.dynamic, s + 1));
            None
        } else {
            self.next_free(&inc, inc.dynamic, s + 1)
        };
        match moved {
            None => {
                self.claims.insert(s, inc);
                assert(self.table() =~= t);
                false
            },
            Some(q) => {
                let mut inc = inc;
                if inc.dynamic {
                    inc.internal_port = q;
                }
                assert(inc.view() == at_port(iv, iv.dynamic, q));
                self.claims.insert(q, inc);
                let ghost cv = c.view();
                self.claims.insert(s, c);
                assert(self.table() =~= rest.insert(q, at_port(iv, iv.dynamic, q)).insert(s, cv));
                true
            },
        }
    }
}

} // verus!
