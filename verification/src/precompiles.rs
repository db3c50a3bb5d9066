//! Address matching for precompiled contracts.
//!
//! A precompile is reached either by one fixed 20-byte address or by every
//! address that starts with an 8-byte prefix.

use alloy_core::sol_types::SolError;
use vstd::prelude::*;

verus! {

/// How a precompile claims addresses.
#[derive(Clone, Copy, Debug, PartialEq, Eq)]
pub enum AddressMatcher {
    /// Exactly this address.
    Fixed([u8; 20]),
    /// Every address that starts with these bytes.
    Prefix([u8; 8]),
}

/// Two byte strings agree on every position that both of them have.
pub open spec fn prefix_agrees(a: Seq<u8>, b: Seq<u8>) -> bool {
    forall|i: int| 0 <= i < a.len() && i < b.len() ==> a[i] == b[i]
}

impl AddressMatcher {
    /// The bytes the matcher compares with.
    pub open spec fn bytes(self) -> Seq<u8> {
        match self {
            AddressMatcher::Fixed(a) => a@,
            AddressMatcher::Prefix(p) => p@,
        }
    }

    /// Compares the common prefix of two byte strings.
    pub fn cmp_prefix(a: &[u8], b: &[u8]) -> (r: bool)
        ensures
            r == prefix_agrees(a@, b@),
    {
        let mut i: usize = 0;
        while i < a.len() && i < b.len()
            invariant
                i <= a.len(),
                i <= b.len(),
                forall|k: int| 0 <= k < i ==> a@[k] == b@[k],
            decreases a.len() - i,
        {
            if a[i] != b[i] {
                return false;
            }
            i += 1;
        }
        true
    }

    /// Whether the address is claimed by this matcher.
    pub fn matches(&self, address: &[u8; 20]) -> (r: bool)
        ensures
            r == prefix_agrees(self.bytes(), address@),
    {
        match self {
            AddressMatcher::Fixed(needle) => Self::cmp_prefix(needle.as_slice(), address.as_slice()),
            AddressMatcher::Prefix(prefix) => Self::cmp_prefix(prefix.as_slice(), address.as_slice()),
        }
    }
}

/// Two matchers can claim the same address.
pub open spec fn collide(x: AddressMatcher, y: AddressMatcher) -> bool {
    prefix_agrees(x.bytes(), y.bytes())
}

/// Some two distinct entries of the list can claim the same address.
pub open spec fn has_collision(list: Seq<AddressMatcher>) -> bool {
    exists|i: int, j: int| 0 <= i < j < list.len() && #[trigger] collide(list[i], list[j])
}

/// The first pair of colliding matchers, in scan order.
#[derive(Clone, Copy, Debug, PartialEq, Eq)]
pub struct AddressCollision {
    pub first: usize,
    pub second: usize,
}

impl AddressMatcher {
    /// Whether two matchers can claim the same address.
    pub fn collides_with(&self, other: &AddressMatcher) -> (r: bool)
        ensures
            r == collide(*self, *other),
    {
        match (self, other) {
            (AddressMatcher::Fixed(addr_a), AddressMatcher::Fixed(addr_b)) => Self::cmp_prefix(
                addr_a.as_slice(),
                addr_b.as_slice(),
            ),
            (AddressMatcher::Fixed(addr_a), AddressMatcher::Prefix(pref_b)) => Self::cmp_prefix(
                addr_a.as_slice(),
                pref_b.as_slice(),
            ),
            (AddressMatcher::Prefix(pref_a), AddressMatcher::Fixed(addr_b)) => Self::cmp_prefix(
                pref_a.as_slice(),
                addr_b.as_slice(),
            ),
            (AddressMatcher::Prefix(pref_a), AddressMatcher::Prefix(pref_b)) => Self::cmp_prefix(
                pref_a.as_slice(),
                pref_b.as_slice(),
            ),
        }
    }

    /// Checks that no two matchers of a precompile set can claim the same
    /// address. A colliding set is a build error of the set's declaration, so
    /// the list is required to be free of collisions; `find_collision` is the
    /// same scan for a list that is not known to be.
    pub fn check_collision(list: &[AddressMatcher])
        requires
            !has_collision(list@),
    {
        let r = Self::find_collision(list);
        assert(r is Ok);
    }

    /// Scans the list for two matchers that can claim the same address; on a
    /// collision, reports the first colliding pair in scan order.
    pub fn find_collision(list: &[AddressMatcher]) -> (r: Result<(), AddressCollision>)
        ensures
            r is Ok <==> !has_collision(list@),
            r matches Err(c) ==> {
                &&& c.first < c.second < list@.len()
                &&& collide(list@[c.first as int], list@[c.second as int])
                &&& forall|i: int, j: int|
                    0 <= i < j < list@.len() && (i < c.first || (i == c.first && j < c.second))
                        ==> !#[trigger] collide(list@[i], list@[j])
            },
    {
        let len = list.len();
        let mut i: usize = 0;
        while i < len
            invariant
                len == list@.len(),
                i <= len,
                forall|a: int, b: int|
                    0 <= a < b < len && a < i ==> !#[trigger] collide(list@[a], list@[b]),
            decreases len - i,
        {
            let mut j: usize = i + 1;
            while j < len
                invariant
                    len == list@.len(),
                    i < len,
                    i + 1 <= j <= len,
                    forall|a: int, b: int|
                        0 <= a < b < len && (a < i || (a == i && b < j)) ==> !#[trigger] collide(
                            list@[a],
                            list@[b],
                        ),
                decreases len - j,
            {
                if list[i].collides_with(&list[j]) {
                    return Err(AddressCollision { first: i, second: j });
                }
                j += 1;
            }
            i += 1;
        }
        Ok(())
    }
}

/// Matchers that cannot collide never claim the same address.
pub proof fn lemma_disjoint_matchers(x: AddressMatcher, y: AddressMatcher, address: Seq<u8>)
    requires
        !collide(x, y),
        address.len() == 20,
    ensures
        !(prefix_agrees(x.bytes(), address) && prefix_agrees(y.bytes(), address)),
{
    if prefix_agrees(x.bytes(), address) && prefix_agrees(y.bytes(), address) {
        assert forall|i: int| 0 <= i < x.bytes().len() && i < y.bytes().len() implies x.bytes()[i]
            == y.bytes()[i] by {
            assert(x.bytes()[i] == address[i]);
        }
    }
}

/// Two matchers collide exactly when some 20-byte address is claimed by both
/// of them: a collision is never reported for matchers that share no address
/// (two different fixed addresses, say), and never missed for ones that do.
pub proof fn lemma_collide_iff_shared_address(x: AddressMatcher, y: AddressMatcher)
    ensures
        collide(x, y) <==> exists|address: Seq<u8>|
            address.len() == 20 && #[trigger] prefix_agrees(x.bytes(), address) && prefix_agrees(
                y.bytes(),
                address,
            ),
{
    assert(x.bytes().len() == 20 || x.bytes().len() == 8);
    assert(y.bytes().len() == 20 || y.bytes().len() == 8);
    if collide(x, y) {
        let w = if x is Fixed {
            x.bytes()
        } else if y is Fixed {
            y.bytes()
        } else {
            x.bytes() + Seq::new(12, |i: int| 0u8)
        };
        assert(w.len() == 20);
        assert(prefix_agrees(x.bytes(), w));
        assert(prefix_agrees(y.bytes(), w));
    } else {
        assert forall|address: Seq<u8>|
            address.len() == 20 implies !(#[trigger] prefix_agrees(x.bytes(), address) && prefix_agrees(
                y.bytes(),
                address,
            )) by {
            lemma_disjoint_matchers(x, y, address);
        }
    }
}

/// A fixed matcher claims exactly its own address, and a prefix matcher
/// exactly the addresses whose first eight bytes are its prefix.
pub proof fn lemma_what_a_matcher_claims(m: AddressMatcher, address: Seq<u8>)
    requires
        address.len() == 20,
    ensures
        m matches AddressMatcher::Fixed(a) ==> (prefix_agrees(m.bytes(), address) <==> a@ == address),
        m matches AddressMatcher::Prefix(p) ==> (prefix_agrees(m.bytes(), address) <==> address.subrange(
            0,
            8,
        ) == p@),
{
    match m {
        AddressMatcher::Fixed(a) => {
            if prefix_agrees(m.bytes(), address) {
                assert(a@ =~= address);
            }
        },
        AddressMatcher::Prefix(p) => {
            if prefix_agrees(m.bytes(), address) {
                assert(address.subrange(0, 8) =~= p@);
            }
            if address.subrange(0, 8) == p@ {
                assert forall|i: int| 0 <= i < p@.len() && i < address.len() implies p@[i] == address[i] by {
                    assert(address.subrange(0, 8)[i] == address[i]);
                }
            }
        },
    }
}

/// A list has a collision exactly when two of its entries claim a common
/// 20-byte address.
pub proof fn lemma_has_collision_iff_shared_address(list: Seq<AddressMatcher>)
    ensures
        has_collision(list) <==> exists|i: int, j: int, address: Seq<u8>|
            0 <= i < j < list.len() && address.len() == 20 && #[trigger] prefix_agrees(
                list[i].bytes(),
                address,
            ) && #[trigger] prefix_agrees(list[j].bytes(), address),
{
    if has_collision(list) {
        let (i, j) = choose|i: int, j: int| 0 <= i < j < list.len() && #[trigger] collide(list[i], list[j]);
        lemma_collide_iff_shared_address(list[i], list[j]);
        let address = choose|address: Seq<u8>|
            address.len() == 20 && #[trigger] prefix_agrees(list[i].bytes(), address) && prefix_agrees(
                list[j].bytes(),
                address,
            );
        assert(prefix_agrees(list[i].bytes(), address) && prefix_agrees(list[j].bytes(), address));
    } else {
        assert forall|i: int, j: int, address: Seq<u8>|
            0 <= i < j < list.len() && address.len() == 20 implies !(#[trigger] prefix_agrees(
                list[i].bytes(),
                address,
            ) && #[trigger] prefix_agrees(list[j].bytes(), address)) by {
            assert(!collide(list[i], list[j]));
            lemma_disjoint_matchers(list[i], list[j], address);
        }
    }
}

/// Collision is symmetric.
pub proof fn lemma_collide_symmetric(x: AddressMatcher, y: AddressMatcher)
    ensures
        collide(x, y) == collide(y, x),
{
}

/// In a collision-free set every address is claimed by at most one member,
/// so a set that `check_collision` accepts dispatches each address to at most
/// one precompile.
pub proof fn lemma_collision_free_unique(list: Seq<AddressMatcher>, address: Seq<u8>, i: int, j: int)
    requires
        !has_collision(list),
        address.len() == 20,
        0 <= i < list.len(),
        0 <= j < list.len(),
        prefix_agrees(list[i].bytes(), address),
        prefix_agrees(list[j].bytes(), address),
    ensures
        i == j,
{
    if i < j {
        assert(!collide(list[i], list[j]));
        lemma_disjoint_matchers(list[i], list[j], address);
    } else if j < i {
        assert(!collide(list[j], list[i]));
        lemma_disjoint_matchers(list[j], list[i], address);
    }
}

/// A set of precompiles, each reached through its own matcher; the order is
/// the order in which the set was declared.
pub struct Precompiles {
    matchers: Vec<AddressMatcher>,
}

/// Some matcher of the list claims the address.
pub open spec fn any_matches(matchers: Seq<AddressMatcher>, address: Seq<u8>) -> bool {
    exists|i: int| 0 <= i < matchers.len() && #[trigger] prefix_agrees(matchers[i].bytes(), address)
}

impl Precompiles {
    pub closed spec fn view(&self) -> Seq<AddressMatcher> {
        self.matchers@
    }

    /// A set made of these matchers, in this order.
    pub fn new(matchers: Vec<AddressMatcher>) -> (r: Precompiles)
        ensures
            r.view() == matchers@,
    {
        Precompiles { matchers }
    }

    /// Checks that no two members of the set can claim the same address; the
    /// set is required to be free of collisions, as its declaration is.
    pub fn check_collision(&self)
        requires
            !has_collision(self.view()),
    {
        AddressMatcher::check_collision(self.matchers.as_slice())
    }

    /// Scans the set for two members that can claim the same address; on a
    /// collision, reports the first colliding pair in declaration order.
    pub fn find_collision(&self) -> (r: Result<(), AddressCollision>)
        ensures
            r is Ok <==> !has_collision(self.view()),
            r matches Err(c) ==> {
                &&& c.first < c.second < self.view().len()
                &&& collide(self.view()[c.first as int], self.view()[c.second as int])
                &&& forall|i: int, j: int|
                    0 <= i < j < self.view().len() && (i < c.first || (i == c.first && j < c.second))
                        ==> !#[trigger] collide(self.view()[i], self.view()[j])
            },
    {
        AddressMatcher::find_collision(self.matchers.as_slice())
    }

    /// Whether some member of the set claims the address.
    pub fn matches(&self, address: &[u8; 20]) -> (r: bool)
        ensures
            r == any_matches(self.view(), address@),
    {
        let mut i: usize = 0;
        while i < self.matchers.len()
            invariant
                i <= self.matchers@.len(),
                forall|k: int| 0 <= k < i ==> !#[trigger] prefix_agrees(self.matchers@[k].bytes(), address@),
            decreases self.matchers@.len() - i,
        {
            if self.matchers[i].matches(address) {
                return true;
            }
            i += 1;
        }
        false
    }

    /// Runs the precompile that the set dispatches the address to, through
    /// `run_member` which is given the member's position in the set.
    ///
    /// Whenever any member claims the address, the set dispatches to its first
    /// member; when none does, nothing runs and the result is `None`.
    pub fn call<R, F: Fn(usize) -> R>(&self, address: &[u8; 20], run_member: F) -> (r: Option<R>)
        requires
            call_requires(run_member, (0usize,)),
        ensures
            r is Some <==> any_matches(self.view(), address@),
            r matches Some(out) ==> call_ensures(run_member, (0usize,), out),
    {
        if self.matches(address) {
            Some(run_member(0))
        } else {
            None
        }
    }
}

/// The ABI encoding of a Solidity `Panic(uint256)` error with the generic
/// panic code 0: the selector `0x4e487b71` followed by a zero word.
pub open spec fn generic_panic_bytes() -> Seq<u8> {
    seq![0x4eu8, 0x48u8, 0x7bu8, 0x71u8] + Seq::new(32, |i: int| 0u8)
}

/// Calls `alloy_sol_types::Panic::abi_encode` on `Panic::from(PanicKind::Generic)`;
/// trusted to return the 4-byte `Panic(uint256)` selector followed by the code 0
/// as one 32-byte big-endian word, which is what the crate's `SolError`
/// implementation for `Panic` writes.
#[verifier::external_body]
fn generic_panic_data() -> (r: Vec<u8>)
    ensures
        r@ == generic_panic_bytes(),
{
    alloy_core::sol_types::Panic::from(alloy_core::sol_types::PanicKind::Generic).abi_encode()
}

/// Completes a call into an ABI-typed precompile: `decoded` is `None` when the
/// input did not decode into the precompile's interface, else the encoded
/// outcome of the typed call. Undecodable input reverts with a generic panic.
pub fn precompile_call_result(decoded: Option<Result<Vec<u8>, Vec<u8>>>) -> (r: Result<Vec<u8>, Vec<u8>>)
    ensures
        decoded is None ==> (r matches Err(data) && data@ == generic_panic_bytes()),
        decoded matches Some(out) ==> r == out,
{
    match decoded {
        None => Err(generic_panic_data()),
        Some(out) => out,
    }
}

} // verus!
