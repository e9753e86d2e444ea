use vstd::prelude::*;
use vstd::string::StringExecFns;
use crate::ports::{PortAllocator, ClaimView};

verus! {

/// Capabilities and the apps that implement each, in declaration order.
pub struct VirtualIndex {
    capabilities: Vec<String>,
    members: Vec<Vec<String>>,
}

pub open spec fn names_of(v: Seq<String>) -> Seq<Seq<char>> {
    v.map_values(|s: String| s@)
}

impl VirtualIndex {
    /// (capability, app ids) pairs, in order of first declaration.
    pub closed spec fn entries(&self) -> Seq<(Seq<char>, Seq<Seq<char>>)> {
        Seq::new(
            self.capabilities@.len(),
            |i: int| (self.capabilities@[i]@, names_of(self.members@[i]@)),
        )
    }

    pub closed spec fn wf(&self) -> bool {
        &&& self.capabilities@.len() == self.members@.len()
        &&& forall|i: int, j: int|
            0 <= i < j < self.capabilities@.len() ==> self.capabilities@[i]@
                != self.capabilities@[j]@
    }

    pub fn new() -> (r: VirtualIndex)
        ensures
            r.wf(),
            r.entries() == Seq::<(Seq<char>, Seq<Seq<char>>)>::empty(),
    {
        let r = VirtualIndex { capabilities: Vec::new(), members: Vec::new() };
        assert(r.entries() =~= Seq::<(Seq<char>, Seq<Seq<char>>)>::empty());
        r
    }

    /// Appends `app` to the list of `capability`; the first declaration of a
    /// capability starts its list.
    pub fn add(&mut self, capability: String, app: String)
        requires
            old(self).wf(),
        ensures
            final(self).wf(),
            (exists|i: int|
                0 <= i < old(self).entries().len() && old(self).entries()[i].0 == capability@)
                ==> exists|i: int|
                0 <= i < old(self).entries().len() && old(self).entries()[i].0 == capability@
                    && final(self).entries() == old(self).entries().update(
                    i,
                    (capability@, old(self).entries()[i].1.push(app@)),
                ),
            !(exists|i: int|
                0 <= i < old(self).entries().len() && old(self).entries()[i].0 == capability@)
                ==> final(self).entries() == old(self).entries().push(
                (capability@, seq![app@]),
            ),
    {
        let ghost e0 = self.entries();
        let mut i: usize = 0;
        while i < self.capabilities.len()
            invariant
                0 <= i <= self.capabilities@.len(),
                self.wf(),
                e0 == self.entries(),
                e0 == old(self).entries(),
                forall|j: int| 0 <= j < i ==> self.capabilities@[j]@ != capability@,
            decreases self.capabilities@.len() - i,
        {
            if self.capabilities[i] == capability {
                let ghost m0 = self.members@;
                let mut list = self.members.remove(i);
                let ghost l0 = list@;
                list.push(app);
                let ghost l1 = list@;
                self.members.insert(i, list);
                assert(self.members@ =~= m0.update(i as int, self.members@[i as int]));
                assert(names_of(l1) =~= names_of(l0).push(app@));
                assert(e0[i as int].0 == capability@);
                assert(self.entries() =~= e0.update(
                    i as int,
                    (capability@, e0[i as int].1.push(app@)),
                ));
                return;
            }
            i = i + 1;
        }
        assert(!(exists|j: int| 0 <= j < e0.len() && e0[j].0 == capability@));
        self.capabilities.push(capability);
        let ghost m0 = self.members@;
        let ghost c0 = self.capabilities@;
        let one = vec![app];
        assert(names_of(one@) =~= seq![app@]);
        self.members.push(one);
        assert(self.members@ =~= m0.push(one));
        assert(self.entries() =~= e0.push((capability@, seq![app@])));
    }

    /// The capabilities with their app ids, in order of first declaration.
    pub fn to_vec(&self) -> (r: Vec<(String, Vec<String>)>)
        requires
            self.wf(),
        ensures
            r@.len() == self.entries().len(),
            forall|i: int|
                0 <= i < r@.len() ==> (#[trigger] r@[i]).0@ == self.entries()[i].0 && names_of(
                    r@[i].1@,
                ) == self.entries()[i].1,
    {
        let mut r: Vec<(String, Vec<String>)> = Vec::new();
        let mut i: usize = 0;
        while i < self.capabilities.len()
            invariant
                0 <= i <= self.capabilities@.len(),
                self.wf(),
                r@.len() == i,
                forall|j: int|
                    0 <= j < i ==> (#[trigger] r@[j]).0@ == self.capabilities@[j]@ && names_of(
                        r@[j].1@,
                    ) == names_of(self.members@[j]@),
            decreases self.capabilities@.len() - i,
        {
            let m = clone_names(&self.members[i]);
            r.push((self.capabilities[i].clone(), m));
            i = i + 1;
        }
        r
    }
}

fn clone_names(v: &Vec<String>) -> (r: Vec<String>)
    ensures
        names_of(r@) == names_of(v@),
{
    let mut r: Vec<String> = Vec::new();
    let mut i: usize = 0;
    while i < v.len()
        invariant
            0 <= i <= v@.len(),
            names_of(r@) == names_of(v@.take(i as int)),
        decreases v@.len() - i,
    {
        let ghost r0 = r@;
        r.push(v[i].clone());
        assert(v@.take(i + 1) =~= v@.take(i as int).push(v@[i as int]));
        assert(names_of(r@) =~= names_of(r0).push(v@[i as int]@));
        assert(names_of(v@.take(i + 1)) =~= names_of(v@.take(i as int)).push(v@[i as int]@));
        i = i + 1;
    }
    assert(v@.take(i as int) =~= v@);
    r
}

/// The entries of file `k` (0, 1 or 2) when `entries` are dealt round-robin
/// over three files: those at positions `k`, `k + 3`, `k + 6`, ... in order.
pub open spec fn dealt(entries: Seq<Seq<char>>, k: int) -> Seq<Seq<char>>
    decreases entries.len(),
{
    if entries.len() == 0 {
        Seq::empty()
    } else {
        let prev = dealt(entries.drop_last(), k);
        if (entries.len() - 1) % 3 == k {
            prev.push(entries.last())
        } else {
            prev
        }
    }
}

/// Deals `entries` round-robin over three lists, keeping their order.
pub fn split_round_robin(entries: &Vec<String>) -> (r: (Vec<String>, Vec<String>, Vec<String>))
    ensures
        names_of(r.0@) == dealt(names_of(entries@), 0),
        names_of(r.1@) == dealt(names_of(entries@), 1),
        names_of(r.2@) == dealt(names_of(entries@), 2),
{
    let ghost all = names_of(entries@);
    let mut a: Vec<String> = Vec::new();
    let mut b: Vec<String> = Vec::new();
    let mut c: Vec<String> = Vec::new();
    let mut i: usize = 0;
    while i < entries.len()
        invariant
            0 <= i <= entries@.len(),
            all == names_of(entries@),
            names_of(a@) == dealt(all.take(i as int), 0),
            names_of(b@) == dealt(all.take(i as int), 1),
            names_of(c@) == dealt(all.take(i as int), 2),
        decreases entries@.len() - i,
    {
        let e = entries[i].clone();
        let ghost t = all.take(i + 1);
        assert(t.drop_last() =~= all.take(i as int));
        assert(t.last() == e@);
        let ghost (a0, b0, c0) = (a@, b@, c@);
        if i % 3 == 0 {
            a.push(e);
            assert(names_of(a@) =~= names_of(a0).push(e@));
        } else if i % 3 == 1 {
            b.push(e);
            assert(names_of(b@) =~= names_of(b0).push(e@));
        } else {
            c.push(e);
            assert(names_of(c@) =~= names_of(c0).push(e@));
        }
        i = i + 1;
    }
    assert(all.take(i as int) =~= all);
    (a, b, c)
}

/// One entry of the port map.
#[derive(Clone, Debug)]
pub struct PortMapRecord {
    /// The capability for a shared capability container, else the app id.
    pub key: String,
    pub container: String,
    pub internal_port: u16,
    pub public_port: u16,
    pub dynamic: bool,
}

/// The port map groups a claim under its capability where the claim is the
/// shared capability container's, else under its app.
pub open spec fn key_of(c: ClaimView, shared: Seq<char>) -> Seq<char> {
    match c.implements {
        Some(cap) => if c.container == shared {
            cap
        } else {
            c.app
        },
        None => c.app,
    }
}

/// `r` is the port map entry of claim `c` at `port`.
pub open spec fn record_of(r: PortMapRecord, port: u16, c: ClaimView, shared: Seq<char>) -> bool {
    &&& r.key@ == key_of(c, shared)
    &&& r.container@ == c.container
    &&& r.internal_port == c.internal_port
    &&& r.public_port == port
    &&& r.dynamic == c.dynamic
}

/// The port map: one entry per claim, in increasing order of public port.
pub fn port_map(ports: &PortAllocator) -> (r: Vec<PortMapRecord>)
    ensures
        forall|j: int|
            0 <= j < r@.len() ==> ports.table().contains_key(#[trigger] r@[j].public_port)
                && record_of(r@[j], r@[j].public_port, ports.table()[r@[j].public_port], ports.shared_name()),
        forall|j: int, k: int| 0 <= j < k < r@.len() ==> r@[j].public_port < r@[k].public_port,
        forall|p: u16|
            ports.table().contains_key(p) ==> exists|j: int|
                0 <= j < r@.len() && (#[trigger] r@[j]).public_port == p,
{
    let shared = ports.shared_container_name();
    let mut r: Vec<PortMapRecord> = Vec::new();
    let mut p: u32 = 0;
    while p <= 65535
        invariant
            p <= 65536,
            shared@ == ports.shared_name(),
            forall|j: int|
                0 <= j < r@.len() ==> ports.table().contains_key(#[trigger] r@[j].public_port)
                    && r@[j].public_port < p
                    && record_of(r@[j], r@[j].public_port, ports.table()[r@[j].public_port], ports.shared_name()),
            forall|j: int, k: int| 0 <= j < k < r@.len() ==> r@[j].public_port < r@[k].public_port,
            forall|q: u16|
                q < p && ports.table().contains_key(q) ==> exists|j: int|
                    0 <= j < r@.len() && (#[trigger] r@[j]).public_port == q,
        decreases 65536 - p,
    {
        let port = p as u16;
        match ports.claim_at(port) {
            Some(c) => {
                let key = match &c.implements {
                    Some(cap) => if c.container == *shared {
                        cap.clone()
                    } else {
                        c.app.clone()
                    },
                    None => c.app.clone(),
                };
                let ghost r0 = r@;
                r.push(
                    PortMapRecord {
                        key,
                        container: c.container.clone(),
                        internal_port: c.internal_port,
                        public_port: port,
                        dynamic: c.dynamic,
                    },
                );
                assert forall|q: u16|
                    q < p + 1 && ports.table().contains_key(q) implies exists|j: int|
                        0 <= j < r@.len() && (#[trigger] r@[j]).public_port == q by {
                    if q < p {
                        let j = choose|j: int| 0 <= j < r0.len() && (#[trigger] r0[j]).public_port == q;
                        assert(r@[j] == r0[j]);
                    } else {
                        assert(r@[r0.len() as int].public_port == q);
                    }
                }
            },
            None => {},
        }
        p = p + 1;
    }
    r
}

/// `needle` occurs in `text` as a contiguous run.
pub open spec fn occurs(text: Seq<char>, needle: Seq<char>) -> bool {
    exists|i: int| 0 <= i && i + needle.len() <= text.len() && #[trigger] text.subrange(i, i + needle.len()) == needle
}

/// Relies on `str::contains` with a `&str` pattern: whether the pattern occurs
/// in the text.
#[verifier::external_body]
fn text_contains(text: &str, needle: &str) -> (r: bool)
    ensures
        r == occurs(text@, needle@),
{
    text.contains(needle)
}

/// `line` stands as a whole line of `text`.
pub open spec fn has_line(text: Seq<char>, line: Seq<char>) -> bool {
    occurs("\n"@ + text + "\n"@, "\n"@ + line + "\n"@)
}

/// The environment text after appending, in order, each line that is not
/// already a whole line of it, each followed by a newline.
pub open spec fn merged_env(text: Seq<char>, lines: Seq<Seq<char>>) -> Seq<char>
    decreases lines.len(),
{
    if lines.len() == 0 {
        text
    } else {
        let t = merged_env(text, lines.drop_last());
        if has_line(t, lines.last()) {
            t
        } else {
            t + lines.last() + "\n"@
        }
    }
}

/// `KEY=VALUE`.
pub fn env_line(key: &str, value: &str) -> (r: String)
    ensures
        r@ == key@ + "="@ + value@,
{
    let mut r = String::from_str(key);
    r.append("=");
    r.append(value);
    r
}

/// `\n`, `text`, `\n`.
fn framed(text: &str) -> (r: String)
    ensures
        r@ == "\n"@ + text@ + "\n"@,
{
    let mut r = String::from_str("\n");
    r.append(text);
    r.append("\n");
    r
}

/// Appends to the environment text each of `lines` that is not a whole line of it yet.
pub fn merge_env(text: String, lines: &Vec<String>) -> (r: String)
    ensures
        r@ == merged_env(text@, names_of(lines@)),
{
    let ghost t0 = text@;
    let ghost all = names_of(lines@);
    let mut out = text;
    let mut i: usize = 0;
    while i < lines.len()
        invariant
            0 <= i <= lines@.len(),
            all == names_of(lines@),
            out@ == merged_env(t0, all.take(i as int)),
        decreases lines@.len() - i,
    {
        let line = &lines[i];
        proof {
            assert(all.take(i + 1).drop_last() =~= all.take(i as int));
            assert(all.take(i + 1).last() == line@);
        }
        let hay = framed(out.as_str());
        let needle = framed(line.as_str());
        if !text_contains(hay.as_str(), needle.as_str()) {
            out.append(line.as_str());
            out.append("\n");
        }
        i = i + 1;
    }
    assert(all.take(i as int) =~= all);
    out
}

} // verus!
