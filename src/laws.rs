use vstd::prelude::*;
use crate::priority::PortPriority;
use crate::ports::{
    ClaimView, reserve_rel, is_landing, no_landing, passed_over, owned, satisfied, placed,
    placed_at_landing, at_port,
};
use crate::ips::{assign_rel, address_text, has_name, names_unique, IpError, FIRST_SUFFIX, LAST_SUFFIX};

verus! {

/// The forward search stops at one port only.
pub proof fn landing_unique(
    t: Map<u16, ClaimView>,
    reserved: Seq<u16>,
    c: ClaimView,
    tracks: bool,
    from: int,
    q1: u16,
    q2: u16,
)
    requires
        is_landing(t, reserved, c, tracks, from, q1),
        is_landing(t, reserved, c, tracks, from, q2),
    ensures
        q1 == q2,
{
    if q1 < q2 {
        assert(passed_over(t, reserved, c, tracks, q1));
    } else if q2 < q1 {
        assert(passed_over(t, reserved, c, tracks, q2));
    }
}

/// A request never drops a claim: every (app, container) pair that held a
/// port before still holds one after, whatever the request asked for; and
/// the table, keyed by public port, never has two claims on one port.
pub proof fn reserve_keeps_every_claim(
    t: Map<u16, ClaimView>,
    reserved: Seq<u16>,
    shared: Seq<char>,
    app: Seq<char>,
    container: Seq<char>,
    s: u16,
    priority: PortPriority,
    dynamic: bool,
    implements: Option<Seq<char>>,
    t2: Map<u16, ClaimView>,
    granted: bool,
)
    requires
        reserve_rel(t, reserved, shared, app, container, s, priority, dynamic, implements, t2, granted),
    ensures
        forall|p: u16|
            t.contains_key(p) ==> exists|q: u16| owned(t2, q, t[p].app, t[p].container),
{
    let c = placed(app, container, s, dynamic, implements, priority);
    assert forall|p: u16| t.contains_key(p) implies exists|q: u16|
        owned(t2, q, t[p].app, t[p].container) by {
        if t2 == t {
            assert(owned(t2, p, t[p].app, t[p].container));
        } else if !t.contains_key(s) && !reserved.contains(s) {
            assert(owned(t2, p, t[p].app, t[p].container));
        } else if t.contains_key(s) && t[s].priority.level() < priority.level() && !reserved.contains(s) {
            let inc = t[s];
            let rest = t.remove(s);
            let q = choose|q: u16|
                is_landing(rest, reserved, inc, inc.dynamic, s + 1, q) && t2 == rest.insert(
                    q,
                    at_port(inc, inc.dynamic, q),
                ).insert(s, c);
            if p == s {
                assert(owned(t2, q, t[p].app, t[p].container));
            } else if p == q {
                assert(!passed_over(rest, reserved, inc, inc.dynamic, q));
                assert(owned(t2, q, t[p].app, t[p].container));
            } else {
                assert(owned(t2, p, t[p].app, t[p].container));
            }
        } else {
            let tracks = if !t.contains_key(s) { false } else { dynamic };
            assert(placed_at_landing(t, reserved, c, tracks, s, t2, granted));
            let q = choose|q: u16|
                is_landing(t, reserved, c, tracks, s as int, q) && t2 == t.insert(q, at_port(c, tracks, q));
            if p == q {
                assert(!passed_over(t, reserved, c, tracks, q));
                assert(owned(t2, q, t[p].app, t[p].container));
            } else {
                assert(owned(t2, p, t[p].app, t[p].container));
            }
        }
    }
}

/// A `Required` request takes its port from an `Optional` incumbent when the
/// port is not a reserved one and a port is left above it for the incumbent;
/// the incumbent moves up with its app, container, capability, priority and
/// dynamic flag kept.
pub proof fn required_evicts_optional(
    t: Map<u16, ClaimView>,
    reserved: Seq<u16>,
    shared: Seq<char>,
    app: Seq<char>,
    container: Seq<char>,
    s: u16,
    implements: Option<Seq<char>>,
    t2: Map<u16, ClaimView>,
    granted: bool,
)
    requires
        reserve_rel(t, reserved, shared, app, container, s, PortPriority::Required, false, implements, t2, granted),
        t.contains_key(s),
        !reserved.contains(s),
        t[s].priority == PortPriority::Optional,
        !satisfied(t[s], app, container, implements, shared),
        !no_landing(t.remove(s), reserved, t[s], t[s].dynamic, s + 1),
    ensures
        granted,
        t2[s] == placed(app, container, s, false, implements, PortPriority::Required),
        exists|q: u16|
            q > s && t2.contains_key(q) && t2[q] == at_port(t[s], t[s].dynamic, q),
{
    let inc = t[s];
    let rest = t.remove(s);
    let q = choose|q: u16|
        is_landing(rest, reserved, inc, inc.dynamic, s + 1, q) && t2 == rest.insert(
            q,
            at_port(inc, inc.dynamic, q),
        ).insert(s, placed(app, container, s, false, implements, PortPriority::Required));
    assert(!passed_over(rest, reserved, inc, inc.dynamic, q));
    assert(q > s && t2.contains_key(q) && t2[q] == at_port(inc, inc.dynamic, q));
}

/// Two `Required` claims on one port never both hold: the second request fails
/// and changes nothing.
pub proof fn required_conflict_fails(
    t: Map<u16, ClaimView>,
    reserved: Seq<u16>,
    shared: Seq<char>,
    app: Seq<char>,
    container: Seq<char>,
    s: u16,
    dynamic: bool,
    implements: Option<Seq<char>>,
    t2: Map<u16, ClaimView>,
    granted: bool,
)
    requires
        reserve_rel(t, reserved, shared, app, container, s, PortPriority::Required, dynamic, implements, t2, granted),
        t.contains_key(s),
        t[s].priority == PortPriority::Required,
        !satisfied(t[s], app, container, implements, shared),
    ensures
        !granted,
        t2 == t,
{
}

/// A request never puts a new holder on a reserved port: after it, a
/// reserved port is claimed only if it was before, and by the same
/// (app, container) pair. A fresh request for a reserved port goes forward
/// to the next free port instead.
pub proof fn reserved_port_keeps_its_holder(
    t: Map<u16, ClaimView>,
    reserved: Seq<u16>,
    shared: Seq<char>,
    app: Seq<char>,
    container: Seq<char>,
    s: u16,
    priority: PortPriority,
    dynamic: bool,
    implements: Option<Seq<char>>,
    t2: Map<u16, ClaimView>,
    granted: bool,
)
    requires
        reserve_rel(t, reserved, shared, app, container, s, priority, dynamic, implements, t2, granted),
    ensures
        forall|p: u16|
            t2.contains_key(p) && reserved.contains(p) ==> t.contains_key(p) && t2[p].app
                == t[p].app && t2[p].container == t[p].container,
{
    let c = placed(app, container, s, dynamic, implements, priority);
    if t2 == t {
    } else if !t.contains_key(s) && !reserved.contains(s) {
    } else if t.contains_key(s) && t[s].priority.level() < priority.level() && !reserved.contains(s) {
        let inc = t[s];
        let rest = t.remove(s);
        let q = choose|q: u16|
            is_landing(rest, reserved, inc, inc.dynamic, s + 1, q) && t2 == rest.insert(
                q,
                at_port(inc, inc.dynamic, q),
            ).insert(s, c);
        assert(!passed_over(rest, reserved, inc, inc.dynamic, q));
    } else {
        let tracks = if !t.contains_key(s) { false } else { dynamic };
        assert(placed_at_landing(t, reserved, c, tracks, s, t2, granted));
        let q = choose|q: u16|
            is_landing(t, reserved, c, tracks, s as int, q) && t2 == t.insert(q, at_port(c, tracks, q));
        assert(!passed_over(t, reserved, c, tracks, q));
    }
}

/// Two apps implementing the same capability both ask for one free port with
/// the shared capability container: both succeed, and the port stays with the
/// first, which serves both.
pub proof fn capability_shares_port(
    t: Map<u16, ClaimView>,
    reserved: Seq<u16>,
    shared: Seq<char>,
    cap: Seq<char>,
    app1: Seq<char>,
    app2: Seq<char>,
    s: u16,
    p1: PortPriority,
    p2: PortPriority,
    d1: bool,
    d2: bool,
    t1: Map<u16, ClaimView>,
    g1: bool,
    t2: Map<u16, ClaimView>,
    g2: bool,
)
    requires
        !t.contains_key(s),
        !reserved.contains(s),
        reserve_rel(t, reserved, shared, app1, shared, s, p1, d1, Some(cap), t1, g1),
        reserve_rel(t1, reserved, shared, app2, shared, s, p2, d2, Some(cap), t2, g2),
    ensures
        g1,
        g2,
        t2 == t1,
        t2.contains_key(s),
        t2[s].app == app1,
        t2[s].implements == Some(cap),
{
}

/// Asking again for the port that the same (app, container) already holds
/// succeeds and leaves the table as it is.
pub proof fn rereserve_is_stable(
    t: Map<u16, ClaimView>,
    reserved: Seq<u16>,
    shared: Seq<char>,
    app: Seq<char>,
    container: Seq<char>,
    s: u16,
    priority: PortPriority,
    dynamic: bool,
    implements: Option<Seq<char>>,
    t2: Map<u16, ClaimView>,
    granted: bool,
)
    requires
        reserve_rel(t, reserved, shared, app, container, s, priority, dynamic, implements, t2, granted),
        owned(t, s, app, container),
    ensures
        granted,
        t2 == t,
{
}

/// A request that was sent forward, or whose claim was moved forward by an
/// eviction, in an earlier run finds its claim again: when the search from
/// the port asked for stops at a port already holding exactly the claim that
/// would be stored there, nothing changes.
pub proof fn moved_claim_is_stable(
    t: Map<u16, ClaimView>,
    reserved: Seq<u16>,
    shared: Seq<char>,
    app: Seq<char>,
    container: Seq<char>,
    s: u16,
    priority: PortPriority,
    dynamic: bool,
    implements: Option<Seq<char>>,
    q: u16,
    t2: Map<u16, ClaimView>,
    granted: bool,
)
    requires
        reserve_rel(t, reserved, shared, app, container, s, priority, dynamic, implements, t2, granted),
        t.contains_key(s),
        !satisfied(t[s], app, container, implements, shared),
        !(t[s].priority.level() < priority.level() && !reserved.contains(s)),
        !(t[s].priority == PortPriority::Required && priority == PortPriority::Required),
        is_landing(t, reserved, placed(app, container, s, dynamic, implements, priority), dynamic, s as int, q),
        t.contains_key(q),
    ensures
        granted,
        t2 == t,
{
    let c = placed(app, container, s, dynamic, implements, priority);
    assert(!passed_over(t, reserved, c, dynamic, q));
    assert(!no_landing(t, reserved, c, dynamic, s as int));
    let q2 = choose|q2: u16|
        is_landing(t, reserved, c, dynamic, s as int, q2) && t2 == t.insert(q2, at_port(c, dynamic, q2));
    landing_unique(t, reserved, c, dynamic, s as int, q, q2);
    assert(t.insert(q, t[q]) =~= t);
}

/// Names get addresses in first-seen order, and a repeated name gets its
/// cached address again: A, B, A gives A the next address, B the one after,
/// and A its first address once more.
pub proof fn addresses_in_first_seen_order(
    pairs0: Seq<(Seq<char>, Seq<char>)>,
    a: Seq<char>,
    b: Seq<char>,
    pairs1: Seq<(Seq<char>, Seq<char>)>,
    n1: nat,
    r1: Result<Seq<char>, IpError>,
    pairs2: Seq<(Seq<char>, Seq<char>)>,
    n2: nat,
    r2: Result<Seq<char>, IpError>,
    pairs3: Seq<(Seq<char>, Seq<char>)>,
    n3: nat,
    r3: Result<Seq<char>, IpError>,
)
    requires
        names_unique(pairs0),
        a != b,
        !has_name(pairs0, a),
        !has_name(pairs0, b),
        FIRST_SUFFIX + pairs0.len() + 1 <= LAST_SUFFIX,
        assign_rel(pairs0, (FIRST_SUFFIX + pairs0.len()) as nat, a, pairs1, n1, r1),
        assign_rel(pairs1, n1, b, pairs2, n2, r2),
        assign_rel(pairs2, n2, a, pairs3, n3, r3),
    ensures
        r1 == Ok::<Seq<char>, IpError>(address_text((FIRST_SUFFIX + pairs0.len()) as nat)),
        r2 == Ok::<Seq<char>, IpError>(address_text((FIRST_SUFFIX + pairs0.len() + 1) as nat)),
        r3 == r1,
        pairs3 == pairs2,
{
    let k = pairs0.len() as int;
    assert(pairs1[k].0 == a);
    if has_name(pairs1, b) {
        let i = choose|i: int| 0 <= i < pairs1.len() && pairs1[i].0 == b;
        assert(i < k);
    }
    assert(pairs2[k].0 == a);
    let i = choose|i: int| 0 <= i < pairs2.len() && pairs2[i].0 == a && r3 == Ok::<Seq<char>, IpError>(pairs2[i].1);
    if i != k {
        assert(i < k);
        assert(pairs0[i].0 == a);
    }
}

/// Once the cursor has passed the last suffix, a new name is a fatal error and
/// nothing changes.
pub proof fn subnet_exhaustion_is_fatal(
    pairs: Seq<(Seq<char>, Seq<char>)>,
    name: Seq<char>,
    pairs2: Seq<(Seq<char>, Seq<char>)>,
    n2: nat,
    r: Result<Seq<char>, IpError>,
)
    requires
        !has_name(pairs, name),
        FIRST_SUFFIX + pairs.len() > LAST_SUFFIX,
        assign_rel(pairs, (FIRST_SUFFIX + pairs.len()) as nat, name, pairs2, n2, r),
    ensures
        r == Err::<Seq<char>, IpError>(IpError::AddressSpaceExhausted),
        pairs2 == pairs,
{
}

/// A name that has an address keeps it: assigning it again returns the same
/// address and changes nothing.
pub proof fn cached_address_is_stable(
    pairs: Seq<(Seq<char>, Seq<char>)>,
    next: nat,
    i: int,
    pairs2: Seq<(Seq<char>, Seq<char>)>,
    n2: nat,
    r: Result<Seq<char>, IpError>,
)
    requires
        names_unique(pairs),
        0 <= i < pairs.len(),
        assign_rel(pairs, next, pairs[i].0, pairs2, n2, r),
    ensures
        r == Ok::<Seq<char>, IpError>(pairs[i].1),
        pairs2 == pairs,
        n2 == next,
{
    let j = choose|j: int| 0 <= j < pairs.len() && pairs[j].0 == pairs[i].0 && r == Ok::<Seq<char>, IpError>(pairs[j].1);
    assert(j == i);
}

} // verus!
