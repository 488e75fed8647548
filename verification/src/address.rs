//! Twenty-byte addresses, their byte-wise order, and ascending duplicate-free
//! address lists.

use vstd::prelude::*;

verus! {

/// A 20-byte account address. Addresses are ordered byte by byte, most
/// significant (first) byte first.
#[derive(Clone, Copy, Debug, PartialEq, Eq, Hash)]
pub struct Address(pub [u8; 20]);

impl View for Address {
    type V = Seq<u8>;

    open spec fn view(&self) -> Seq<u8> {
        self.0@
    }
}

/// Lexicographic "strictly less than" on byte sequences: the first differing
/// byte decides, and a proper prefix is smaller than the longer sequence.
pub open spec fn lex_lt(a: Seq<u8>, b: Seq<u8>) -> bool
    decreases a.len(),
{
    if b.len() == 0 {
        false
    } else if a.len() == 0 {
        true
    } else if a[0] != b[0] {
        a[0] < b[0]
    } else {
        lex_lt(a.drop_first(), b.drop_first())
    }
}

/// No byte sequence is smaller than itself.
pub proof fn lemma_lex_lt_irreflexive(a: Seq<u8>)
    ensures
        !lex_lt(a, a),
    decreases a.len(),
{
    if a.len() > 0 {
        lemma_lex_lt_irreflexive(a.drop_first());
    }
}

/// Of two byte sequences, at most one is smaller than the other.
pub proof fn lemma_lex_lt_asymmetric(a: Seq<u8>, b: Seq<u8>)
    ensures
        lex_lt(a, b) ==> !lex_lt(b, a),
    decreases a.len(),
{
    if a.len() > 0 && b.len() > 0 && a[0] == b[0] {
        lemma_lex_lt_asymmetric(a.drop_first(), b.drop_first());
    }
}

/// The order is transitive.
pub proof fn lemma_lex_lt_transitive(a: Seq<u8>, b: Seq<u8>, c: Seq<u8>)
    requires
        lex_lt(a, b),
        lex_lt(b, c),
    ensures
        lex_lt(a, c),
    decreases a.len(),
{
    if a.len() > 0 && a[0] == b[0] && b[0] == c[0] {
        lemma_lex_lt_transitive(a.drop_first(), b.drop_first(), c.drop_first());
    }
}

/// Any two distinct byte sequences are ordered one way or the other.
pub proof fn lemma_lex_lt_total(a: Seq<u8>, b: Seq<u8>)
    ensures
        a =~= b || lex_lt(a, b) || lex_lt(b, a),
    decreases a.len(),
{
    if a.len() > 0 && b.len() > 0 && a[0] == b[0] {
        lemma_lex_lt_total(a.drop_first(), b.drop_first());
        if a.drop_first() =~= b.drop_first() {
            assert forall|i: int| 0 <= i < a.len() implies a[i] == b[i] by {
                if i > 0 {
                    assert(a[i] == a.drop_first()[i - 1]);
                    assert(b[i] == b.drop_first()[i - 1]);
                }
            }
            assert(a =~= b);
        }
    }
}

/// For sequences of equal length that agree below index `i` and differ at
/// `i`, the order is decided by the bytes at `i`.
proof fn lemma_lex_lt_first_difference(a: Seq<u8>, b: Seq<u8>, i: int)
    requires
        a.len() == b.len(),
        0 <= i < a.len(),
        forall|j: int| 0 <= j < i ==> a[j] == b[j],
        a[i] != b[i],
    ensures
        lex_lt(a, b) == (a[i] < b[i]),
    decreases i,
{
    if i > 0 {
        assert(a[0] == b[0]);
        assert forall|j: int| 0 <= j < i - 1 implies a.drop_first()[j] == b.drop_first()[j] by {
            assert(a[j + 1] == b[j + 1]);
        }
        lemma_lex_lt_first_difference(a.drop_first(), b.drop_first(), i - 1);
    }
}

impl Address {
    /// Builds an address from exactly 20 bytes, in order.
    pub fn from_slice(bytes: &[u8]) -> (address: Address)
        requires
            bytes@.len() == 20,
        ensures
            address@ == bytes@,
    {
        let mut raw = [0u8; 20];
        let mut i: usize = 0;
        while i < 20
            invariant
                0 <= i <= 20,
                bytes@.len() == 20,
                forall|k: int| 0 <= k < i ==> raw@[k] == bytes@[k],
            decreases 20 - i,
        {
            raw[i] = bytes[i];
            i = i + 1;
        }
        let address = Address(raw);
        assert(address@ =~= bytes@);
        address
    }

    /// Whether `self` comes strictly before `other` in the byte-wise order.
    pub fn precedes(&self, other: &Address) -> (before: bool)
        ensures
            before == lex_lt(self@, other@),
    {
        let mut i: usize = 0;
        while i < 20
            invariant
                0 <= i <= 20,
                self@.len() == 20,
                other@.len() == 20,
                forall|j: int| 0 <= j < i ==> self@[j] == other@[j],
            decreases 20 - i,
        {
            if self.0[i] != other.0[i] {
                proof {
                    lemma_lex_lt_first_difference(self@, other@, i as int);
                }
                return self.0[i] < other.0[i];
            }
            i = i + 1;
        }
        proof {
            assert(self@ =~= other@);
            lemma_lex_lt_irreflexive(self@);
        }
        false
    }

    /// Whether the two addresses hold the same bytes.
    pub fn same_as(&self, other: &Address) -> (same: bool)
        ensures
            same == (self@ == other@),
    {
        let mut i: usize = 0;
        while i < 20
            invariant
                0 <= i <= 20,
                self@.len() == 20,
                other@.len() == 20,
                forall|j: int| 0 <= j < i ==> self@[j] == other@[j],
            decreases 20 - i,
        {
            if self.0[i] != other.0[i] {
                return false;
            }
            i = i + 1;
        }
        assert(self@ =~= other@);
        true
    }
}

/// The addresses of `s`, each taken as its bytes.
pub open spec fn address_views(s: Seq<Address>) -> Seq<Seq<u8>> {
    s.map_values(|a: Address| a@)
}

/// Whether some address of `s` holds exactly the bytes `x`.
pub open spec fn holds_address(s: Seq<Address>, x: Seq<u8>) -> bool {
    exists|i: int| 0 <= i < s.len() && #[trigger] s[i]@ == x
}

/// Each address of `s` is strictly smaller than every later one; in
/// particular no address occurs twice.
pub open spec fn strictly_ascending(s: Seq<Address>) -> bool {
    forall|i: int, j: int| 0 <= i < j < s.len() ==> lex_lt(#[trigger] s[i]@, #[trigger] s[j]@)
}

/// Two addresses with the same bytes are the same address.
pub proof fn lemma_address_view_injective(a: Address, b: Address)
    requires
        a@ == b@,
    ensures
        a == b,
{
    broadcast use vstd::array::group_array_axioms;

    assert forall|i: int| 0 <= i < 20 implies a.0[i] == b.0[i] by {
        assert(a@[i] == b@[i]);
    }
    assert(a.0 =~= b.0);
}

/// Two address lists with the same bytes, entry by entry, are the same list.
pub proof fn lemma_address_views_injective(s1: Seq<Address>, s2: Seq<Address>)
    requires
        address_views(s1) == address_views(s2),
    ensures
        s1 == s2,
{
    assert(s1.len() == address_views(s1).len());
    assert forall|i: int| 0 <= i < s1.len() implies s1[i] == s2[i] by {
        assert(address_views(s1)[i] == address_views(s2)[i]);
        lemma_address_view_injective(s1[i], s2[i]);
    }
    assert(s1 =~= s2);
}

/// An ascending duplicate-free address list is determined by the addresses it
/// holds: two such lists holding the same addresses are equal.
pub proof fn lemma_ascending_lists_determined_by_members(s1: Seq<Address>, s2: Seq<Address>)
    requires
        strictly_ascending(s1),
        strictly_ascending(s2),
        forall|x: Seq<u8>| holds_address(s1, x) <==> holds_address(s2, x),
    ensures
        s1 == s2,
    decreases s1.len(),
{
    if s1.len() == 0 {
        if s2.len() > 0 {
            assert(holds_address(s2, s2[0]@));
        }
        assert(s1 =~= s2);
    } else {
        assert(holds_address(s1, s1[0]@));
        assert(s2.len() > 0);
        assert(holds_address(s2, s2[0]@));
        let a = s1[0]@;
        let b = s2[0]@;
        let k = choose|k: int| 0 <= k < s2.len() && #[trigger] s2[k]@ == a;
        let m = choose|m: int| 0 <= m < s1.len() && #[trigger] s1[m]@ == b;
        if k > 0 && m > 0 {
            assert(lex_lt(b, a));
            assert(lex_lt(a, b));
            lemma_lex_lt_asymmetric(a, b);
        }
        assert(a == b);
        lemma_address_view_injective(s1[0], s2[0]);
        let t1 = s1.drop_first();
        let t2 = s2.drop_first();
        assert forall|x: Seq<u8>| holds_address(t1, x) <==> holds_address(t2, x) by {
            if holds_address(t1, x) {
                let i = choose|i: int| 0 <= i < t1.len() && #[trigger] t1[i]@ == x;
                assert(s1[i + 1]@ == x);
                assert(lex_lt(a, x));
                assert(holds_address(s1, x));
                assert(holds_address(s2, x));
                let j = choose|j: int| 0 <= j < s2.len() && #[trigger] s2[j]@ == x;
                if j == 0 {
                    lemma_lex_lt_irreflexive(a);
                }
                assert(t2[j - 1]@ == x);
            }
            if holds_address(t2, x) {
                let i = choose|i: int| 0 <= i < t2.len() && #[trigger] t2[i]@ == x;
                assert(s2[i + 1]@ == x);
                assert(lex_lt(b, x));
                assert(holds_address(s2, x));
                assert(holds_address(s1, x));
                let j = choose|j: int| 0 <= j < s1.len() && #[trigger] s1[j]@ == x;
                if j == 0 {
                    lemma_lex_lt_irreflexive(b);
                }
                assert(t1[j - 1]@ == x);
            }
        }
        assert forall|i: int, j: int| 0 <= i < j < t1.len() implies lex_lt(
            #[trigger] t1[i]@,
            #[trigger] t1[j]@,
        ) by {
            assert(lex_lt(s1[i + 1]@, s1[j + 1]@));
        }
        assert forall|i: int, j: int| 0 <= i < j < t2.len() implies lex_lt(
            #[trigger] t2[i]@,
            #[trigger] t2[j]@,
        ) by {
            assert(lex_lt(s2[i + 1]@, s2[j + 1]@));
        }
        lemma_ascending_lists_determined_by_members(t1, t2);
        assert forall|i: int| 0 <= i < s1.len() implies s1[i] == s2[i] by {
            if i > 0 {
                assert(s1[i] == t1[i - 1]);
                assert(s2[i] == t2[i - 1]);
            }
        }
        assert(s1 =~= s2);
    }
}

/// Adds `address` to an ascending duplicate-free list, keeping it ascending
/// and duplicate-free; the list is unchanged when it already holds the
/// address.
pub fn insert_ascending(list: &mut Vec<Address>, address: Address)
    requires
        strictly_ascending(old(list)@),
    ensures
        strictly_ascending(final(list)@),
        forall|x: Seq<u8>|
            holds_address(final(list)@, x) <==> (holds_address(old(list)@, x) || x == address@),
        holds_address(old(list)@, address@) ==> final(list)@ == old(list)@,
{
    let ghost before = list@;
    let mut i: usize = 0;
    while i < list.len()
        invariant
            list@ == before,
            0 <= i <= list.len(),
            forall|j: int| 0 <= j < i ==> lex_lt(#[trigger] list@[j]@, address@),
        ensures
            0 <= i <= list.len(),
            forall|j: int| 0 <= j < i ==> lex_lt(#[trigger] list@[j]@, address@),
            i < list.len() ==> !lex_lt(list@[i as int]@, address@),
        decreases list.len() - i,
    {
        if !list[i].precedes(&address) {
            break;
        }
        i = i + 1;
    }
    // Every address before `i` is smaller; the one at `i`, if any, is not.
    if i < list.len() && list[i].same_as(&address) {
        assert(holds_address(before, address@));
        return;
    }
    if i < list.len() {
        proof {
            lemma_lex_lt_total(list@[i as int]@, address@);
        }
        assert(lex_lt(address@, list@[i as int]@));
    }
    assert forall|x: Seq<u8>| holds_address(before, x) implies x != address@ by {
        let k = choose|k: int| 0 <= k < before.len() && #[trigger] before[k]@ == x;
        if k < i {
            lemma_lex_lt_irreflexive(address@);
        } else if k == i {
        } else {
            lemma_lex_lt_transitive(address@, before[i as int]@, before[k]@);
            lemma_lex_lt_irreflexive(address@);
        }
    }
    list.insert(i, address);
    let ghost after = list@;
    assert(after == before.insert(i as int, address));
    assert forall|a: int, b: int| 0 <= a < b < after.len() implies lex_lt(
        #[trigger] after[a]@,
        #[trigger] after[b]@,
    ) by {
        if b < i {
        } else if b == i {
        } else if a < i {
            lemma_lex_lt_transitive(after[a]@, address@, before[i as int]@);
            if b - 1 > i {
                lemma_lex_lt_transitive(after[a]@, before[i as int]@, before[b - 1]@);
            }
        } else if a == i {
            if b - 1 > i {
                lemma_lex_lt_transitive(address@, before[i as int]@, before[b - 1]@);
            }
        } else {
            assert(after[a] == before[a - 1]);
            assert(after[b] == before[b - 1]);
        }
    }
    assert forall|x: Seq<u8>| holds_address(after, x) <==> (holds_address(before, x) || x
        == address@) by {
        if holds_address(after, x) {
            let k = choose|k: int| 0 <= k < after.len() && #[trigger] after[k]@ == x;
            if k < i {
                assert(before[k]@ == x);
            } else if k > i {
                assert(before[k - 1]@ == x);
            }
        }
        if holds_address(before, x) {
            let k = choose|k: int| 0 <= k < before.len() && #[trigger] before[k]@ == x;
            if k < i {
                assert(after[k]@ == x);
            } else {
                assert(after[k + 1]@ == x);
            }
        }
        if x == address@ {
            assert(after[i as int]@ == x);
        }
    }
}

/// The distinct addresses of `addresses`, in ascending order.
pub fn ascending_unique(addresses: &Vec<Address>) -> (sorted: Vec<Address>)
    ensures
        strictly_ascending(sorted@),
        forall|x: Seq<u8>| holds_address(sorted@, x) <==> holds_address(addresses@, x),
{
    let mut sorted: Vec<Address> = Vec::new();
    let mut i: usize = 0;
    while i < addresses.len()
        invariant
            0 <= i <= addresses.len(),
            strictly_ascending(sorted@),
            forall|x: Seq<u8>|
                holds_address(sorted@, x) <==> holds_address(addresses@.take(i as int), x),
        decreases addresses.len() - i,
    {
        let ghost prefix = addresses@.take(i as int);
        let ghost next = addresses@.take(i + 1);
        insert_ascending(&mut sorted, addresses[i]);
        assert forall|x: Seq<u8>| holds_address(next, x) <==> (holds_address(prefix, x) || x
            == addresses@[i as int]@) by {
            if holds_address(next, x) {
                let k = choose|k: int| 0 <= k < next.len() && #[trigger] next[k]@ == x;
                if k < i {
                    assert(prefix[k]@ == x);
                }
            }
            if holds_address(prefix, x) {
                let k = choose|k: int| 0 <= k < prefix.len() && #[trigger] prefix[k]@ == x;
                assert(next[k]@ == x);
            }
            if x == addresses@[i as int]@ {
                assert(next[i as int]@ == x);
            }
        }
        i = i + 1;
    }
    assert(addresses@.take(addresses.len() as int) =~= addresses@);
    sorted
}

} // verus!
