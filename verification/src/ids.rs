//! Identifiers of machines and workspaces.
//!
//! An identifier is a UUID, held as the number that its sixteen bytes spell. The
//! order of those numbers is the order of the bytes.

use std::collections::{BTreeMap, HashSet};

use vstd::prelude::*;

use crate::bytes;

verus! {

/// Permanent identifier of an installation. Never derived from network state.
pub type MachineId = u128;

/// Identifier of a workspace, minted by whichever machine creates it.
pub type WorkspaceId = u128;

/// The sixteen bytes of an identifier.
pub open spec fn id_bytes(id: u128) -> Seq<u8> {
    bytes::big_endian(id as nat, 16)
}

/// The hyphenated form of an identifier: thirty-two lower-case hexadecimal
/// digits in groups of eight, four, four, four and twelve.
pub open spec fn id_text(id: u128) -> Seq<char> {
    let digits = bytes::hex_text(id_bytes(id));
    digits.subrange(0, 8) + seq!['-'] + digits.subrange(8, 12) + seq!['-'] + digits.subrange(12, 16)
        + seq!['-'] + digits.subrange(16, 20) + seq!['-'] + digits.subrange(20, 32)
}

/// What `uuid::Uuid::parse_str` makes of a text, `None` where it refuses it.
pub uninterp spec fn id_parsed(text: Seq<char>) -> Option<u128>;

/// Whether the version field of an identifier reads four and its variant field two,
/// as they do in a random one.
pub open spec fn is_minted(id: u128) -> bool {
    (id / 0x1000_0000_0000_0000_0000) % 16 == 4 && (id / 0x4000_0000_0000_0000) % 4 == 2
}

/// `uuid::Uuid::new_v4`: a random identifier. Whatever the random bits are, the
/// version field reads four and the variant field reads two.
#[verifier::external_body]
pub(crate) fn new_id() -> (r: u128)
    ensures
        is_minted(r),
{
    uuid::Uuid::new_v4().as_u128()
}

/// The `Display` form of `uuid::Uuid`: the hyphenated text of the identifier.
/// `Uuid::parse_str` reads it back.
#[verifier::external_body]
pub(crate) fn format_id(id: u128) -> (r: String)
    ensures
        r@ == id_text(id),
        id_parsed(r@) == Some(id),
{
    uuid::Uuid::from_u128(id).to_string()
}

/// `uuid::Uuid::parse_str`, with the reason of a refusal dropped.
#[verifier::external_body]
pub(crate) fn parse_id(text: &str) -> (r: Option<u128>)
    ensures
        r == id_parsed(text@),
{
    match uuid::Uuid::parse_str(text) {
        Ok(id) => Some(id.as_u128()),
        Err(_) => None,
    }
}

/// The sixteen bytes of an identifier.
pub fn id_to_bytes(id: u128) -> (r: Vec<u8>)
    ensures
        r@ == id_bytes(id),
        r@.len() == 16,
{
    bytes::to_be_bytes(id, 16)
}

/// The smaller of two optional identifiers.
pub open spec fn least(a: Option<MachineId>, b: MachineId) -> MachineId {
    match a {
        Some(a) if a <= b => a,
        _ => b,
    }
}

/// Identifiers in ascending order, each of them once.
pub open spec fn is_ascending(ids: Seq<u128>) -> bool {
    forall|i: int, j: int| 0 <= i < j < ids.len() ==> ids[i] < ids[j]
}

/// The identifiers of a finite set, in ascending order.
pub open spec fn ascending(ids: Set<u128>) -> Seq<u128> {
    choose|s: Seq<u128>| is_ascending(s) && s.to_set() == ids
}

/// Two ascending sequences with the same members are the same sequence.
pub proof fn ascending_is_unique(a: Seq<u128>, b: Seq<u128>)
    requires
        is_ascending(a),
        is_ascending(b),
        a.to_set() == b.to_set(),
    ensures
        a == b,
    decreases a.len(),
{
    if a.len() == 0 {
        if b.len() > 0 {
            assert(b.to_set().contains(b[0]));
            assert(a.to_set().contains(b[0]));
        }
        assert(a =~= b);
    } else {
        assert(a.to_set().contains(a.last()));
        assert(b.to_set().contains(a.last()));
        let j = choose|j: int| 0 <= j < b.len() && b[j] == a.last();
        assert(b.to_set().contains(b.last()));
        assert(a.to_set().contains(b.last()));
        let i = choose|i: int| 0 <= i < a.len() && a[i] == b.last();
        assert(a.last() == b.last()) by {
            if i < a.len() - 1 {
                assert(a[i] < a[a.len() - 1]);
            }
            if j < b.len() - 1 {
                assert(b[j] < b[b.len() - 1]);
            }
        }
        let a0 = a.drop_last();
        let b0 = b.drop_last();
        assert forall|x: u128| a0.to_set().contains(x) <==> b0.to_set().contains(x) by {
            if a0.to_set().contains(x) {
                let k = choose|k: int| 0 <= k < a0.len() && a0[k] == x;
                assert(a[k] == x && a[k] < a[a.len() - 1]);
                assert(a.to_set().contains(x));
                assert(b.to_set().contains(x));
                let m = choose|m: int| 0 <= m < b.len() && b[m] == x;
                assert(m < b.len() - 1);
                assert(b0[m] == x);
            }
            if b0.to_set().contains(x) {
                let k = choose|k: int| 0 <= k < b0.len() && b0[k] == x;
                assert(b[k] == x && b[k] < b[b.len() - 1]);
                assert(b.to_set().contains(x));
                assert(a.to_set().contains(x));
                let m = choose|m: int| 0 <= m < a.len() && a[m] == x;
                assert(m < a.len() - 1);
                assert(a0[m] == x);
            }
        }
        assert(a0.to_set() =~= b0.to_set());
        ascending_is_unique(a0, b0);
        assert(a =~= a0.push(a.last()));
        assert(b =~= b0.push(b.last()));
    }
}

/// An ascending sequence is the ascending order of its own members.
pub proof fn ascending_of(s: Seq<u128>, ids: Set<u128>)
    requires
        is_ascending(s),
        s.to_set() == ids,
    ensures
        ascending(ids) == s,
{
    let t = ascending(ids);
    assert(is_ascending(t) && t.to_set() == ids);
    ascending_is_unique(s, t);
}

/// The keys of a map, in ascending order.
pub fn keys_in_order<V>(m: &BTreeMap<u128, V>) -> (r: Vec<u128>)
    ensures
        r@ == ascending(m@.dom()),
        is_ascending(r@),
        r@.to_set() == m@.dom(),
{
    proof {
        let keys = vstd::std_specs::iter::IteratorSpec::remaining(&m.keys());
        assert(vstd::laws_cmp::obeys_cmp::<u128>());
        assert(vstd::laws_cmp::obeys_cmp::<&u128>());
        vstd::std_specs::btree::axiom_increasing_seq_meaning(keys);
        assert forall|i: int, j: int| 0 <= i < j < keys.len() implies *keys[i] < *keys[j] by {
            assert(vstd::std_specs::cmp::OrdSpec::cmp_spec(&keys[i], &keys[j])
                is Less);
        }
    }
    let mut out: Vec<u128> = Vec::new();
    for key in iter: m.keys()
        invariant
            out@.len() == iter.index(),
            iter.seq().unref().to_set() == m@.dom(),
            forall|i: int| 0 <= i < out@.len() ==> out@[i] == *iter.seq()[i],
            forall|i: int, j: int| 0 <= i < j < iter.seq().len() ==> *iter.seq()[i] < *iter.seq()[j],
    {
        out.push(*key);
    }
    proof {
        let keys = vstd::std_specs::iter::IteratorSpec::remaining(&m.keys()).unref();
        assert(out@ =~= keys);
        ascending_of(out@, m@.dom());
    }
    out
}

/// A copy of a set of identifiers.
pub fn copy_set(set: &HashSet<u128>) -> (r: HashSet<u128>)
    ensures
        r@ == set@,
{
    let mut out: HashSet<u128> = HashSet::new();
    let ghost mut seen: Seq<u128> = Seq::empty();
    for member in iter: set.iter()
        invariant
            iter.seq().unref().to_set() == set@,
            seen == iter.seq().unref().take(iter.index() as int),
            out@ == seen.to_set(),
    {
        proof {
            let all = iter.seq().unref();
            assert(all.take(iter.index() + 1) =~= seen.push(*member));
            seen.lemma_push_to_set_commute(*member);
            seen = seen.push(*member);
        }
        let _ = out.insert(*member);
    }
    proof {
        let all = vstd::std_specs::iter::IteratorSpec::remaining(&set.iter()).unref();
        assert(all.take(all.len() as int) =~= all);
    }
    out
}

} // verus!
