use vstd::prelude::*;

verus! {

/// The session id that follows `id`; zero is left out.
pub open spec fn id_after(id: u32) -> u32 {
    if id == u32::MAX {
        1
    } else {
        (id + 1) as u32
    }
}

/// The ids that the server hands out to its sessions, one after the other.
pub struct SessionIds {
    next: u32,
}

impl View for SessionIds {
    type V = u32;

    /// The id that is handed out next.
    closed spec fn view(&self) -> u32 {
        self.next
    }
}

impl SessionIds {
    #[verifier::type_invariant]
    spec fn not_zero(self) -> bool {
        self.next != 0
    }

    /// The first id is one.
    pub fn new() -> (ids: SessionIds)
        ensures
            ids@ == 1,
    {
        SessionIds { next: 1 }
    }

    /// Hands out the next id.
    pub fn allocate(&mut self) -> (id: u32)
        ensures
            id == old(self)@,
            id != 0,
            final(self)@ == id_after(id),
    {
        proof {
            use_type_invariant(&*self);
        }
        let id: u32 = self.next;
        let following: u32 = id.wrapping_add(1);
        self.next = if following == 0 {
            1
        } else {
            following
        };
        id
    }
}

/// The number of ids.
pub const ID_COUNT: u32 = u32::MAX;

/// The id that is handed out `k` ids after `first`.
pub open spec fn nth_id(first: u32, k: nat) -> u32
    decreases k,
{
    if k == 0 {
        first
    } else {
        id_after(nth_id(first, (k - 1) as nat))
    }
}

/// The ids go round all numbers but zero, in order.
pub proof fn theorem_ids_go_round(first: u32, k: nat)
    requires
        first != 0,
    ensures
        nth_id(first, k) == (first - 1 + k) % (ID_COUNT as int) + 1,
        nth_id(first, k) != 0,
    decreases k,
{
    let n = ID_COUNT as int;
    if k == 0 {
        assert((first - 1) % n == first - 1);
    } else {
        theorem_ids_go_round(first, (k - 1) as nat);
        let before = first - 1 + k - 1;
        let r = before % n;
        if r == n - 1 {
            assert((before + 1) % n == 0) by (nonlinear_arith)
                requires
                    n > 0,
                    before % n == n - 1,
            ;
        } else {
            assert((before + 1) % n == before % n + 1) by (nonlinear_arith)
                requires
                    n > 0,
                    before % n < n - 1,
            ;
        }
    }
}

/// No id is handed out twice until all others have been.
pub proof fn theorem_ids_do_not_repeat_early(first: u32, i: nat, j: nat)
    requires
        first != 0,
        i < j,
        j - i < ID_COUNT,
    ensures
        nth_id(first, i) != nth_id(first, j),
{
    theorem_ids_go_round(first, i);
    theorem_ids_go_round(first, j);
    let n = ID_COUNT as int;
    let a = first - 1 + i;
    let b = first - 1 + j;
    assert(a % n != b % n) by (nonlinear_arith)
        requires
            n > 0,
            0 < b - a < n,
    {
        if a % n == b % n {
            let q = b / n - a / n;
            assert(b - a == q * n);
            assert(q >= 1 ==> q * n >= n);
            assert(q <= 0 ==> q * n <= 0);
        }
    }
}

/// After all ids have been handed out, the first one comes again.
pub proof fn theorem_ids_come_again(first: u32)
    requires
        first != 0,
    ensures
        nth_id(first, ID_COUNT as nat) == first,
{
    theorem_ids_go_round(first, ID_COUNT as nat);
    let n = ID_COUNT as int;
    assert((first - 1 + n) % n == first - 1);
}

/// An id that is handed out is the one that was due, and the next one due is one more, or
/// one where there is no such number.
pub proof fn theorem_ids_are_handed_out_in_order(ids: &mut SessionIds, id: u32)
    requires
        call_ensures(SessionIds::allocate, (ids,), id),
    ensures
        id == old(ids)@,
        id < u32::MAX ==> final(ids)@ == id + 1,
        id == u32::MAX ==> final(ids)@ == 1,
{
}

} // verus!
