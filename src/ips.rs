use vstd::prelude::*;
use vstd::string::StringExecFns;

verus! {

/// First host suffix handed out in the private subnet.
pub const FIRST_SUFFIX: usize = 20;

/// Last host suffix of the private subnet.
pub const LAST_SUFFIX: usize = 255;

/// The private subnet has no address left for a new name.
#[derive(Clone, Copy, Debug, PartialEq, Eq, Structural)]
pub enum IpError {
    AddressSpaceExhausted,
}

pub open spec fn digit(d: int) -> char {
    seq!['0', '1', '2', '3', '4', '5', '6', '7', '8', '9'][d]
}

/// Decimal digits of `n`, most significant first.
pub open spec fn decimal(n: nat) -> Seq<char>
    decreases n,
{
    if n < 10 {
        seq![digit(n as int)]
    } else {
        decimal(n / 10) + seq![digit((n % 10) as int)]
    }
}

/// Text of the address with host suffix `n` in the private subnet.
pub open spec fn address_text(n: nat) -> Seq<char> {
    "10.21.21."@ + decimal(n)
}

/// Relies on `u8`'s `ToString`: the decimal digits of the number.
#[verifier::external_body]
fn decimal_text(n: u8) -> (r: String)
    ensures
        r@ == decimal(n as nat),
{
    n.to_string()
}

/// The name has an entry in the sequence of (name, address) pairs.
pub open spec fn has_name(pairs: Seq<(Seq<char>, Seq<char>)>, name: Seq<char>) -> bool {
    exists|i: int| 0 <= i < pairs.len() && pairs[i].0 == name
}

pub open spec fn names_unique(pairs: Seq<(Seq<char>, Seq<char>)>) -> bool {
    forall|i: int, j: int| 0 <= i < j < pairs.len() ==> pairs[i].0 != pairs[j].0
}

/// What one `assign` of `name` does to (`pairs`, `next`), giving (`pairs2`, `next2`).
pub open spec fn assign_rel(
    pairs: Seq<(Seq<char>, Seq<char>)>,
    next: nat,
    name: Seq<char>,
    pairs2: Seq<(Seq<char>, Seq<char>)>,
    next2: nat,
    r: Result<Seq<char>, IpError>,
) -> bool {
    if has_name(pairs, name) {
        pairs2 == pairs && next2 == next && exists|i: int|
            0 <= i < pairs.len() && pairs[i].0 == name && r == Ok::<Seq<char>, IpError>(
                pairs[i].1,
            )
    } else if next > LAST_SUFFIX {
        pairs2 == pairs && next2 == next && r == Err::<Seq<char>, IpError>(
            IpError::AddressSpaceExhausted,
        )
    } else {
        pairs2 == pairs.push((name, address_text(next))) && next2 == next + 1 && r == Ok::<
            Seq<char>,
            IpError,
        >(address_text(next))
    }
}

pub open spec fn result_view(r: Result<String, IpError>) -> Result<Seq<char>, IpError> {
    match r {
        Ok(s) => Ok(s@),
        Err(e) => Err(e),
    }
}

/// Stable private addresses for environment-variable names, handed out in
/// first-seen order.
pub struct IpAllocator {
    entries: Vec<(String, String)>,
}

impl IpAllocator {
    /// The (name, address) pairs in the order they were made.
    pub closed spec fn pairs(&self) -> Seq<(Seq<char>, Seq<char>)> {
        self.entries@.map_values(|e: (String, String)| (e.0@, e.1@))
    }

    /// Host suffix that the next new name gets: the cursor moves past every
    /// pair held, those of an earlier run included.
    pub open spec fn cursor(&self) -> nat {
        (FIRST_SUFFIX + self.pairs().len()) as nat
    }

    pub open spec fn wf(&self) -> bool {
        names_unique(self.pairs())
    }

    /// Starts from the pairs of an earlier run.
    pub fn from_entries(entries: Vec<(String, String)>) -> (r: IpAllocator)
        requires
            names_unique(entries@.map_values(|e: (String, String)| (e.0@, e.1@))),
        ensures
            r.wf(),
            r.pairs() == entries@.map_values(|e: (String, String)| (e.0@, e.1@)),
    {
        IpAllocator { entries }
    }

    /// An allocator with no pairs.
    pub fn new() -> (r: IpAllocator)
        ensures
            r.wf(),
            r.pairs() == Seq::<(Seq<char>, Seq<char>)>::empty(),
    {
        let r = IpAllocator { entries: Vec::new() };
        assert(r.pairs() =~= Seq::<(Seq<char>, Seq<char>)>::empty());
        r
    }

    /// The pairs held, in the order they were made.
    pub fn entries(&self) -> (r: &Vec<(String, String)>)
        ensures
            r@.map_values(|e: (String, String)| (e.0@, e.1@)) == self.pairs(),
    {
        &self.entries
    }

    /// The address of `name`: the cached one if there is one, else the next
    /// address of the subnet, or an error once the subnet is used up.
    pub fn assign(&mut self, name: String) -> (r: Result<String, IpError>)
        requires
            old(self).wf(),
        ensures
            final(self).wf(),
            assign_rel(
                old(self).pairs(),
                old(self).cursor(),
                name@,
                final(self).pairs(),
                final(self).cursor(),
                result_view(r),
            ),
    {
        let mut i: usize = 0;
        while i < self.entries.len()
            invariant
                0 <= i <= self.entries@.len(),
                self.wf(),
                forall|j: int| 0 <= j < i ==> self.pairs()[j].0 != name@,
            decreases self.entries@.len() - i,
        {
            if self.entries[i].0 == name {
                let addr = self.entries[i].1.clone();
                assert(self.pairs()[i as int].0 == name@);
                return Ok(addr);
            }
            i = i + 1;
        }
        assert(!has_name(self.pairs(), name@));
        if self.entries.len() > LAST_SUFFIX - FIRST_SUFFIX {
            return Err(IpError::AddressSpaceExhausted);
        }
        let suffix = (FIRST_SUFFIX + self.entries.len()) as u8;
        let mut addr = String::from_str("10.21.21.");
        let digits = decimal_text(suffix);
        addr.append(digits.as_str());
        let ghost old_pairs = self.pairs();
        let stored = addr.clone();
        self.entries.push((name, stored));
        assert(self.pairs() =~= old_pairs.push((name@, address_text(suffix as nat))));
        Ok(addr)
    }
}

} // verus!
