//! Process-unique actor identifiers.

use vstd::prelude::*;
use vstd::string::*;

use crate::text::append_decimal;

verus! {

/// A unique, monotonically increasing actor id.
#[derive(Debug, Clone, Copy, PartialEq, Eq, Hash, Structural)]
pub struct ActorId(u64);

impl View for ActorId {
    type V = u64;

    closed spec fn view(&self) -> u64 {
        self.0
    }
}

/// The source from which ids are drawn. One per process keeps ids
/// process-unique.
pub struct IdSequence {
    next: u64,
}

impl View for IdSequence {
    type V = u64;

    /// The id that the next allocation hands out.
    closed spec fn view(&self) -> u64 {
        self.next
    }
}

/// The number that follows `n`, starting over at zero after the last one.
pub open spec fn successor(n: u64) -> u64 {
    if n == u64::MAX {
        0
    } else {
        (n + 1) as u64
    }
}

/// The id handed out by the allocation number `n` (counting from zero) of a
/// sequence that stands at `start`.
pub open spec fn issued(start: u64, n: nat) -> u64
    decreases n,
{
    if n == 0 {
        start
    } else {
        successor(issued(start, (n - 1) as nat))
    }
}

impl IdSequence {
    /// A fresh sequence; the first id it hands out is 1.
    pub fn new() -> (ids: IdSequence)
        ensures
            ids@ == 1,
    {
        IdSequence { next: 1 }
    }

    /// Pass over all numbers below `floor`.
    pub fn advance_to(&mut self, floor: u64)
        ensures
            final(self)@ == if old(self)@ < floor {
                floor
            } else {
                old(self)@
            },
    {
        if self.next < floor {
            self.next = floor;
        }
    }

    /// The number of the id that is handed out next.
    pub fn upcoming(&self) -> (n: u64)
        ensures
            n == self@,
    {
        self.next
    }
}

impl Default for IdSequence {
    fn default() -> (ids: IdSequence)
        ensures
            ids@ == 1,
    {
        IdSequence::new()
    }
}

impl ActorId {
    /// Allocate the next unique id.
    pub fn next(ids: &mut IdSequence) -> (id: ActorId)
        ensures
            id@ == old(ids)@,
            final(ids)@ == successor(old(ids)@),
    {
        let id = ActorId(ids.next);
        ids.next = ids.next.wrapping_add(1);
        id
    }

    /// The id with the given number.
    pub(crate) fn from_value(value: u64) -> (id: ActorId)
        ensures
            id@ == value,
    {
        ActorId(value)
    }

    /// The underlying numeric value.
    pub fn value(&self) -> (v: u64)
        ensures
            v == self@,
    {
        self.0
    }

    /// The id as it is shown to people: `#` and the number.
    pub fn to_string(&self) -> (s: String)
        ensures
            s@ == seq!['#'] + crate::text::decimal(self@ as nat),
    {
        proof {
            reveal_strlit("#");
        }
        let mut s = String::from_str("#");
        assert(s@ =~= seq!['#']);
        append_decimal(&mut s, self.0);
        s
    }
}

/// Two ids are equal exactly when their numbers are.
pub broadcast proof fn lemma_id_is_its_number(a: ActorId, b: ActorId)
    ensures
        #![trigger a@, b@]
        a == b <==> a@ == b@,
{
}

proof fn lemma_issued_offset(start: u64, n: nat)
    requires
        start + n <= u64::MAX,
    ensures
        issued(start, n) == start + n,
    decreases n,
{
    if n > 0 {
        lemma_issued_offset(start, (n - 1) as nat);
    }
}

/// Ids of one sequence are unique and increasing: of two allocations the later
/// one hands out the greater id, as long as the numbers do not run out.
pub proof fn law_ids_are_unique_and_increasing(start: u64, earlier: nat, later: nat)
    requires
        earlier < later,
        start + later <= u64::MAX,
    ensures
        issued(start, earlier) < issued(start, later),
{
    lemma_issued_offset(start, earlier);
    lemma_issued_offset(start, later);
}

} // verus!
