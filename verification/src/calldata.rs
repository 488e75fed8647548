//! Address extraction from transactions for screening.
//!
//! Extracts all addresses relevant to compliance screening from a transaction:
//! sender, recipient, EIP-7702 authorizations, access list entries, and
//! addresses embedded in ERC-20/ERC-721/ERC-1155 token transfer calldata.

use vstd::prelude::*;
use vstd::slice::slice_subrange;

use crate::address::{
    address_views, ascending_unique, holds_address, lemma_address_views_injective,
    strictly_ascending, Address,
};

verus! {

// ──── ERC-20 selectors (the four selector bytes, read big-endian) ─────────
/// `transfer(address,uint256)`
pub const TRANSFER: u32 = 0xa905_9cbb;

/// `approve(address,uint256)`
pub const APPROVE: u32 = 0x095e_a7b3;

/// `transferFrom(address,address,uint256)`, shared with ERC-721
pub const TRANSFER_FROM: u32 = 0x23b8_72dd;

// ──── ERC-721 selectors ────────────────────────────────────────────────────
/// `safeTransferFrom(address,address,uint256)`
pub const SAFE_TRANSFER_FROM: u32 = 0x4284_2e0e;

/// `safeTransferFrom(address,address,uint256,bytes)`
pub const SAFE_TRANSFER_FROM_DATA: u32 = 0xb88d_4fde;

// ──── ERC-1155 selectors ───────────────────────────────────────────────────
/// `safeTransferFrom(address,address,uint256,uint256,bytes)`
pub const ERC1155_SAFE_TRANSFER_FROM: u32 = 0xf242_432a;

/// `safeBatchTransferFrom(address,address,uint256[],uint256[],bytes)`
pub const ERC1155_SAFE_BATCH_TRANSFER_FROM: u32 = 0x2eb2_c2d6;

/// The four selector bytes at the head of `input`, read as a big-endian number.
pub open spec fn selector_of(input: Seq<u8>) -> int
    recommends
        input.len() >= 4,
{
    input[0] * 0x100_0000 + input[1] * 0x1_0000 + input[2] * 0x100 + input[3]
}

/// How many leading ABI words of the parameters hold an address for a call
/// with this selector: one for `transfer` and `approve`, two for the
/// transfer-from family, none for any other selector.
pub open spec fn address_word_count(selector: int) -> int {
    if selector == TRANSFER || selector == APPROVE {
        1
    } else if selector == TRANSFER_FROM || selector == SAFE_TRANSFER_FROM || selector
        == SAFE_TRANSFER_FROM_DATA || selector == ERC1155_SAFE_TRANSFER_FROM || selector
        == ERC1155_SAFE_BATCH_TRANSFER_FROM {
        2
    } else {
        0
    }
}

/// The address held by ABI word `word` (32 bytes) of `data`: `None` when the
/// word does not lie within `data` or when its upper 12 bytes are not all
/// zero; otherwise its lower 20 bytes.
pub open spec fn word_address(data: Seq<u8>, word: int) -> Option<Seq<u8>> {
    let start = word * 32;
    if word < 0 || start + 32 > data.len() {
        None
    } else if exists|k: int| start <= k < start + 12 && data[k] != 0 {
        None
    } else {
        Some(data.subrange(start + 12, start + 32))
    }
}

/// The address of ABI word `word` of `data` as a list of zero or one entries.
pub open spec fn word_address_list(data: Seq<u8>, word: int) -> Seq<Seq<u8>> {
    match word_address(data, word) {
        Some(a) => seq![a],
        None => seq![],
    }
}

/// The addresses that token-transfer calldata carries, in order: nothing
/// when `input` is shorter than a selector or the selector is not a known
/// one; otherwise the well-formed addresses among the first one or two ABI
/// words after the selector.
pub open spec fn calldata_addresses(input: Seq<u8>) -> Seq<Seq<u8>> {
    if input.len() < 4 {
        seq![]
    } else {
        let params = input.skip(4);
        let count = address_word_count(selector_of(input));
        if count == 1 {
            word_address_list(params, 0)
        } else if count == 2 {
            word_address_list(params, 0) + word_address_list(params, 1)
        } else {
            seq![]
        }
    }
}

/// A word that holds 12 zero bytes followed by an address decodes to that
/// address, whatever surrounds it.
pub proof fn lemma_encoded_word_decodes(data: Seq<u8>, word: int, address: Seq<u8>)
    requires
        0 <= word,
        word * 32 + 32 <= data.len(),
        address.len() == 20,
        forall|k: int| word * 32 <= k < word * 32 + 12 ==> data[k] == 0,
        data.subrange(word * 32 + 12, word * 32 + 32) == address,
    ensures
        word_address(data, word) == Some(address),
{
}

/// A word whose upper 12 bytes are not all zero holds no address: if any
/// byte at offsets `32 * word .. 32 * word + 12` is non-zero, the word decodes
/// to nothing.
pub proof fn lemma_nonzero_padding_rejected(data: Seq<u8>, word: int, k: int)
    requires
        0 <= word,
        word * 32 <= k < word * 32 + 12,
        k < data.len(),
        data[k] != 0,
    ensures
        word_address(data, word) is None,
{
}

/// A word that does not lie wholly within the data holds no address.
pub proof fn lemma_short_word_rejected(data: Seq<u8>, word: int)
    requires
        word * 32 + 32 > data.len(),
    ensures
        word_address(data, word) is None,
{
}

/// Bytes after a word do not change what the word decodes to.
pub proof fn lemma_word_address_ignores_later_bytes(data: Seq<u8>, more: Seq<u8>, word: int)
    requires
        0 <= word,
        word * 32 + 32 <= data.len(),
    ensures
        word_address(data + more, word) == word_address(data, word),
{
    let start = word * 32;
    let longer = data + more;
    assert forall|k: int| 0 <= k < data.len() implies longer[k] == data[k] by {}
    assert(longer.subrange(start + 12, start + 32) =~= data.subrange(start + 12, start + 32));
    if exists|k: int| start <= k < start + 12 && data[k] != 0 {
        let k = choose|k: int| start <= k < start + 12 && data[k] != 0;
        assert(longer[k] != 0);
    }
    if exists|k: int| start <= k < start + 12 && longer[k] != 0 {
        let k = choose|k: int| start <= k < start + 12 && longer[k] != 0;
        assert(data[k] != 0);
    }
}

/// The selectors of `transfer(address,uint256)` and `approve(address,uint256)`.
pub open spec fn is_one_address_selector(sel: Seq<u8>) -> bool {
    sel == seq![0xa9u8, 0x05u8, 0x9cu8, 0xbbu8] || sel == seq![0x09u8, 0x5eu8, 0xa7u8, 0xb3u8]
}

/// The selectors of ERC-20/ERC-721 `transferFrom`, the two ERC-721
/// `safeTransferFrom` and the ERC-1155 `safeTransferFrom` and
/// `safeBatchTransferFrom`.
pub open spec fn is_two_address_selector(sel: Seq<u8>) -> bool {
    ||| sel == seq![0x23u8, 0xb8u8, 0x72u8, 0xddu8]
    ||| sel == seq![0x42u8, 0x84u8, 0x2eu8, 0x0eu8]
    ||| sel == seq![0xb8u8, 0x8du8, 0x4fu8, 0xdeu8]
    ||| sel == seq![0xf2u8, 0x42u8, 0x43u8, 0x2au8]
    ||| sel == seq![0x2eu8, 0xb2u8, 0xc2u8, 0xd6u8]
}

/// How many address words the selector bytes at the head of `input` carry.
proof fn lemma_selector_words(input: Seq<u8>)
    requires
        input.len() >= 4,
    ensures
        is_one_address_selector(input.take(4)) ==> address_word_count(selector_of(input)) == 1,
        is_two_address_selector(input.take(4)) ==> address_word_count(selector_of(input)) == 2,
        !is_one_address_selector(input.take(4)) && !is_two_address_selector(input.take(4))
            ==> address_word_count(selector_of(input)) == 0,
{
    let sel = input.take(4);
    let b0 = input[0];
    let b1 = input[1];
    let b2 = input[2];
    let b3 = input[3];
    assert(sel[0] == b0 && sel[1] == b1 && sel[2] == b2 && sel[3] == b3);
    assert(selector_of(input) == b0 * 0x100_0000 + b1 * 0x1_0000 + b2 * 0x100 + b3);
    assert forall|c0: u8, c1: u8, c2: u8, c3: u8|
        selector_of(input) == c0 * 0x100_0000 + c1 * 0x1_0000 + c2 * 0x100 + c3 implies sel
        == seq![c0, c1, c2, c3] by {
        assert(b0 == c0 && b1 == c1 && b2 == c2 && b3 == c3) by (nonlinear_arith)
            requires
                b0 * 0x100_0000 + b1 * 0x1_0000 + b2 * 0x100 + b3 == c0 * 0x100_0000 + c1
                    * 0x1_0000 + c2 * 0x100 + c3,
                b0 < 256,
                b1 < 256,
                b2 < 256,
                b3 < 256,
                c0 < 256,
                c1 < 256,
                c2 < 256,
                c3 < 256,
        ;
        assert(sel =~= seq![c0, c1, c2, c3]);
    }
    if is_one_address_selector(sel) || is_two_address_selector(sel) {
        assert(sel[0] == b0 && sel[1] == b1 && sel[2] == b2 && sel[3] == b3);
    }
    // each known selector value names its own four bytes
    assert(TRANSFER == 0xa9u8 * 0x100_0000 + 0x05u8 * 0x1_0000 + 0x9cu8 * 0x100 + 0xbbu8);
    assert(APPROVE == 0x09u8 * 0x100_0000 + 0x5eu8 * 0x1_0000 + 0xa7u8 * 0x100 + 0xb3u8);
    assert(TRANSFER_FROM == 0x23u8 * 0x100_0000 + 0xb8u8 * 0x1_0000 + 0x72u8 * 0x100 + 0xddu8);
    assert(SAFE_TRANSFER_FROM == 0x42u8 * 0x100_0000 + 0x84u8 * 0x1_0000 + 0x2eu8 * 0x100
        + 0x0eu8);
    assert(SAFE_TRANSFER_FROM_DATA == 0xb8u8 * 0x100_0000 + 0x8du8 * 0x1_0000 + 0x4fu8 * 0x100
        + 0xdeu8);
    assert(ERC1155_SAFE_TRANSFER_FROM == 0xf2u8 * 0x100_0000 + 0x42u8 * 0x1_0000 + 0x43u8
        * 0x100 + 0x2au8);
    assert(ERC1155_SAFE_BATCH_TRANSFER_FROM == 0x2eu8 * 0x100_0000 + 0xb2u8 * 0x1_0000 + 0xc2u8
        * 0x100 + 0xd6u8);
}

/// Calldata shorter than a selector, or with a selector that is none of the
/// seven known ones, carries no address.
pub proof fn lemma_unknown_calldata_carries_nothing(input: Seq<u8>)
    requires
        input.len() < 4 || (!is_one_address_selector(input.take(4))
            && !is_two_address_selector(input.take(4))),
    ensures
        calldata_addresses(input) == Seq::<Seq<u8>>::empty(),
{
    if input.len() >= 4 {
        lemma_selector_words(input);
    }
}

/// For `transfer` and `approve` calldata whose first parameter word is a
/// well-formed address word, that address (bytes 16 to 36 of the input) is
/// the one address carried, whatever follows it.
pub proof fn lemma_one_address_calldata(input: Seq<u8>)
    requires
        input.len() >= 36,
        is_one_address_selector(input.take(4)),
        forall|k: int| 4 <= k < 16 ==> input[k] == 0,
    ensures
        calldata_addresses(input) == seq![input.subrange(16, 36)],
{
    lemma_selector_words(input);
    let params = input.skip(4);
    assert forall|k: int| 0 <= k < 12 implies params[k] == 0 by {
        assert(params[k] == input[k + 4]);
    }
    assert(params.subrange(12, 32) =~= input.subrange(16, 36));
    assert(word_address(params, 0) == Some(input.subrange(16, 36)));
}

/// For calldata of the transfer-from family whose first two parameter words
/// are well-formed address words, those two addresses (bytes 16 to 36 and
/// 48 to 68 of the input) are carried, in order, whatever follows them.
pub proof fn lemma_two_address_calldata(input: Seq<u8>)
    requires
        input.len() >= 68,
        is_two_address_selector(input.take(4)),
        forall|k: int| 4 <= k < 16 ==> input[k] == 0,
        forall|k: int| 36 <= k < 48 ==> input[k] == 0,
    ensures
        calldata_addresses(input) == seq![input.subrange(16, 36), input.subrange(48, 68)],
{
    lemma_selector_words(input);
    let params = input.skip(4);
    assert forall|k: int| 0 <= k < 12 implies params[k] == 0 by {
        assert(params[k] == input[k + 4]);
    }
    assert forall|k: int| 32 <= k < 44 implies params[k] == 0 by {
        assert(params[k] == input[k + 4]);
    }
    assert(params.subrange(12, 32) =~= input.subrange(16, 36));
    assert(params.subrange(44, 64) =~= input.subrange(48, 68));
    assert(word_address(params, 0) == Some(input.subrange(16, 36)));
    assert(word_address(params, 1) == Some(input.subrange(48, 68)));
    assert(calldata_addresses(input) =~= seq![input.subrange(16, 36), input.subrange(48, 68)]);
}

/// Only the selector and the first two parameter words matter: once calldata
/// holds them (68 bytes), appending further bytes changes nothing that is
/// extracted.
pub proof fn lemma_trailing_calldata_ignored(input: Seq<u8>, extra: Seq<u8>)
    requires
        input.len() >= 68,
    ensures
        calldata_addresses(input + extra) == calldata_addresses(input),
{
    let longer = input + extra;
    assert(longer.take(4) =~= input.take(4));
    assert(longer[0] == input[0] && longer[1] == input[1] && longer[2] == input[2] && longer[3]
        == input[3]);
    assert(longer.skip(4) =~= input.skip(4) + extra);
    lemma_word_address_ignores_later_bytes(input.skip(4), extra, 0);
    lemma_word_address_ignores_later_bytes(input.skip(4), extra, 1);
}

/// Decodes an ABI-encoded address from the given word index (each word = 32
/// bytes). Returns `None` if the data is too short or the upper 12 bytes are
/// not zero (malformed ABI encoding).
pub fn decode_address_word(data: &[u8], word_index: usize) -> (decoded: Option<Address>)
    ensures
        match decoded {
            Some(a) => word_address(data@, word_index as int) == Some(a@),
            None => word_address(data@, word_index as int) is None,
        },
{
    let len = data.len();
    let start = match word_index.checked_mul(32) {
        Some(start) => start,
        None => return None,
    };
    let end = match start.checked_add(32) {
        Some(end) => end,
        None => return None,
    };
    if len < end {
        return None;
    }
    let mut j: usize = 0;
    while j < 12
        invariant
            0 <= j <= 12,
            start == word_index * 32,
            end == start + 32,
            end <= data@.len(),
            forall|k: int| start <= k < start + j ==> data@[k] == 0,
        decreases 12 - j,
    {
        if data[start + j] != 0 {
            assert(data@[start + j] != 0);
            return None;
        }
        j = j + 1;
    }
    let word = slice_subrange(data, start + 12, end);
    Some(Address::from_slice(word))
}

/// Which selector family `selector` belongs to, as the number of address
/// words it carries.
fn address_words_of(selector: u32) -> (count: usize)
    ensures
        count == address_word_count(selector as int),
{
    if selector == TRANSFER || selector == APPROVE {
        1
    } else if selector == TRANSFER_FROM || selector == SAFE_TRANSFER_FROM || selector
        == SAFE_TRANSFER_FROM_DATA || selector == ERC1155_SAFE_TRANSFER_FROM || selector
        == ERC1155_SAFE_BATCH_TRANSFER_FROM {
        2
    } else {
        0
    }
}

/// Appends the address of ABI word `word` of `params` to `addrs`, when that
/// word holds a well-formed address.
fn push_word_address(params: &[u8], word: usize, addrs: &mut Vec<Address>)
    ensures
        address_views(final(addrs)@) == address_views(old(addrs)@) + word_address_list(
            params@,
            word as int,
        ),
{
    if let Some(addr) = decode_address_word(params, word) {
        addrs.push(addr);
        assert(address_views(final(addrs)@) =~= address_views(old(addrs)@) + seq![addr@]);
    } else {
        assert(address_views(final(addrs)@) =~= address_views(old(addrs)@));
    }
}

/// Parses known ERC-20/ERC-721/ERC-1155 function selectors from calldata and
/// appends the embedded addresses to `addrs`.
///
/// Each ABI-encoded address occupies a 32-byte word (left-padded with zeros).
/// The upper 12 bytes must be zero for a word to count as an address.
pub fn extract_calldata_addresses(input: &[u8], addrs: &mut Vec<Address>)
    ensures
        address_views(final(addrs)@) == address_views(old(addrs)@) + calldata_addresses(
            input@,
        ),
        final(addrs)@.subrange(0, old(addrs)@.len() as int) == old(addrs)@,
{
    let ghost start = addrs@;
    // Need at least 4 bytes for the selector
    if input.len() < 4 {
        assert(address_views(addrs@) =~= address_views(start) + calldata_addresses(input@));
        return;
    }
    let selector: u32 = (input[0] as u32) * 0x100_0000 + (input[1] as u32) * 0x1_0000 + (
    input[2] as u32) * 0x100 + (input[3] as u32);
    let params = slice_subrange(input, 4, input.len());
    assert(params@ =~= input@.skip(4));
    let count = address_words_of(selector);
    if count == 1 {
        // transfer(address,uint256), approve(address,uint256): word 0
        push_word_address(params, 0, addrs);
    } else if count == 2 {
        // the transfer-from family: words 0 and 1
        push_word_address(params, 0, addrs);
        push_word_address(params, 1, addrs);
        assert(address_views(addrs@) =~= address_views(start) + (word_address_list(params@, 0)
            + word_address_list(params@, 1)));
    } else {
        assert(address_views(addrs@) =~= address_views(start) + calldata_addresses(input@));
    }
    proof {
        let fin = address_views(addrs@);
        let pre = address_views(start);
        assert(fin == pre + calldata_addresses(input@));
        assert(addrs@.len() == fin.len());
        let kept = addrs@.subrange(0, start.len() as int);
        assert forall|i: int| 0 <= i < start.len() implies #[trigger] kept[i]@ == start[i]@ by {
            assert(fin[i] == pre[i]);
        }
        assert(address_views(kept) =~= address_views(start));
        lemma_address_views_injective(kept, start);
    }
}

/// What a pool transaction exposes for screening.
pub struct ScreenableTransaction {
    /// The transaction sender.
    pub sender: Address,
    /// The recipient, absent for contract creation.
    pub to: Option<Address>,
    /// The addresses of the EIP-7702 authorization list, if the transaction has one.
    pub authorization_list: Option<Vec<Address>>,
    /// The addresses of the access list entries, if the transaction has one.
    pub access_list: Option<Vec<Address>>,
    /// The call input.
    pub input: Vec<u8>,
}

/// An optional address as a list of zero or one entries.
pub open spec fn optional_address(a: Option<Address>) -> Seq<Seq<u8>> {
    match a {
        Some(a) => seq![a@],
        None => seq![],
    }
}

/// An optional address list as a (possibly empty) list.
pub open spec fn optional_addresses(list: Option<Vec<Address>>) -> Seq<Seq<u8>> {
    match list {
        Some(v) => address_views(v@),
        None => seq![],
    }
}

/// Every screenable address of `tx`, in source order and with repetitions:
/// the sender, the recipient, the EIP-7702 authorization addresses, the
/// access list addresses, then the calldata addresses.
pub open spec fn screenable_addresses(tx: ScreenableTransaction) -> Seq<Seq<u8>> {
    seq![tx.sender@] + optional_address(tx.to) + optional_addresses(tx.authorization_list)
        + optional_addresses(tx.access_list) + calldata_addresses(tx.input@)
}

/// The sender of a transaction is always screened, and so is its recipient
/// when it has one.
pub proof fn lemma_sender_and_recipient_screened(tx: ScreenableTransaction)
    ensures
        screenable_addresses(tx).contains(tx.sender@),
        tx.to matches Some(to) ==> screenable_addresses(tx).contains(to@),
{
    let s = screenable_addresses(tx);
    assert(s[0] == tx.sender@);
    if let Some(to) = tx.to {
        assert(s[1] == to@);
    }
}

/// A list joined from two parts holds exactly what either part holds.
proof fn lemma_concat_contains(a: Seq<Seq<u8>>, b: Seq<Seq<u8>>, x: Seq<u8>)
    ensures
        (a + b).contains(x) <==> (a.contains(x) || b.contains(x)),
{
    let ab = a + b;
    if ab.contains(x) {
        let k = choose|k: int| 0 <= k < ab.len() && ab[k] == x;
        if k < a.len() {
            assert(a[k] == x);
        } else {
            assert(b[k - a.len()] == x);
        }
    }
    if a.contains(x) {
        let k = choose|k: int| 0 <= k < a.len() && a[k] == x;
        assert(ab[k] == x);
    }
    if b.contains(x) {
        let k = choose|k: int| 0 <= k < b.len() && b[k] == x;
        assert(ab[k + a.len()] == x);
    }
}

/// The bytes of a list's addresses hold `x` exactly when one of its addresses is `x`.
proof fn lemma_views_contains(s: Seq<Address>, x: Seq<u8>)
    ensures
        address_views(s).contains(x) <==> holds_address(s, x),
{
    let v = address_views(s);
    if v.contains(x) {
        let k = choose|k: int| 0 <= k < v.len() && v[k] == x;
        assert(s[k]@ == x);
    }
    if holds_address(s, x) {
        let k = choose|k: int| 0 <= k < s.len() && #[trigger] s[k]@ == x;
        assert(v[k] == x);
    }
}

/// The screenable addresses of a transaction are exactly its sender, its
/// recipient (if any), every address of its EIP-7702 authorization list and
/// of its access list (if present), and every address its calldata carries.
pub proof fn lemma_screenable_sources(tx: ScreenableTransaction, x: Seq<u8>)
    ensures
        screenable_addresses(tx).contains(x) <==> {
            ||| x == tx.sender@
            ||| (tx.to matches Some(to) && x == to@)
            ||| (tx.authorization_list matches Some(auths) && holds_address(auths@, x))
            ||| (tx.access_list matches Some(items) && holds_address(items@, x))
            ||| calldata_addresses(tx.input@).contains(x)
        },
{
    let p0 = seq![tx.sender@];
    let p1 = optional_address(tx.to);
    let p2 = optional_addresses(tx.authorization_list);
    let p3 = optional_addresses(tx.access_list);
    let p4 = calldata_addresses(tx.input@);
    lemma_concat_contains(p0 + p1 + p2 + p3, p4, x);
    lemma_concat_contains(p0 + p1 + p2, p3, x);
    lemma_concat_contains(p0 + p1, p2, x);
    lemma_concat_contains(p0, p1, x);
    if p0.contains(x) {
        assert(p0[0] == x);
    }
    if x == tx.sender@ {
        assert(p0[0] == x);
    }
    if let Some(to) = tx.to {
        if p1.contains(x) {
            assert(p1[0] == x);
        }
        if x == to@ {
            assert(p1[0] == x);
        }
    }
    if let Some(auths) = tx.authorization_list {
        lemma_views_contains(auths@, x);
    }
    if let Some(items) = tx.access_list {
        lemma_views_contains(items@, x);
    }
}

/// Every address of a transaction's access list is screened.
pub proof fn lemma_access_list_screened(tx: ScreenableTransaction, i: int)
    requires
        tx.access_list is Some,
        0 <= i < tx.access_list->0@.len(),
    ensures
        screenable_addresses(tx).contains(tx.access_list->0@[i]@),
{
    let x = tx.access_list->0@[i]@;
    assert(holds_address(tx.access_list->0@, x));
    lemma_screenable_sources(tx, x);
}

/// Every address of a transaction's EIP-7702 authorization list is screened.
pub proof fn lemma_authorization_list_screened(tx: ScreenableTransaction, i: int)
    requires
        tx.authorization_list is Some,
        0 <= i < tx.authorization_list->0@.len(),
    ensures
        screenable_addresses(tx).contains(tx.authorization_list->0@[i]@),
{
    let x = tx.authorization_list->0@[i]@;
    assert(holds_address(tx.authorization_list->0@, x));
    lemma_screenable_sources(tx, x);
}

/// Appends every address of `list` to `addrs`.
fn push_all(list: &Vec<Address>, addrs: &mut Vec<Address>)
    ensures
        address_views(final(addrs)@) == address_views(old(addrs)@) + address_views(list@),
{
    let ghost start = addrs@;
    let mut i: usize = 0;
    while i < list.len()
        invariant
            0 <= i <= list.len(),
            address_views(addrs@) == address_views(start) + address_views(list@.take(i as int)),
        decreases list.len() - i,
    {
        let ghost prev = addrs@;
        addrs.push(list[i]);
        assert(address_views(addrs@) =~= address_views(prev) + seq![list@[i as int]@]);
        assert(address_views(list@.take(i + 1)) =~= address_views(list@.take(i as int)) + seq![
            list@[i as int]@,
        ]);
        assert(address_views(addrs@) =~= address_views(start) + address_views(
            list@.take(i + 1),
        ));
        i = i + 1;
    }
    assert(list@.take(list.len() as int) =~= list@);
}

/// Extracts all screenable addresses from a pool transaction.
///
/// Sources:
/// 1. Transaction sender
/// 2. Transaction recipient (`to` address)
/// 3. EIP-7702 authorization list addresses
/// 4. Access list addresses
/// 5. ERC-20/ERC-721/ERC-1155 calldata addresses
///
/// Returns a deduplicated, sorted vector of addresses.
pub fn extract_addresses(tx: &ScreenableTransaction) -> (addrs: Vec<Address>)
    ensures
        strictly_ascending(addrs@),
        forall|x: Seq<u8>| holds_address(addrs@, x) <==> screenable_addresses(*tx).contains(x),
{
    let mut collected: Vec<Address> = Vec::new();
    // 1. Sender
    collected.push(tx.sender);
    assert(address_views(collected@) =~= seq![tx.sender@]);
    // 2. Recipient
    if let Some(to) = tx.to {
        collected.push(to);
    }
    assert(address_views(collected@) =~= seq![tx.sender@] + optional_address(tx.to));
    // 3. EIP-7702 authorization addresses
    if let Some(auths) = &tx.authorization_list {
        push_all(auths, &mut collected);
    }
    assert(address_views(collected@) =~= seq![tx.sender@] + optional_address(tx.to)
        + optional_addresses(tx.authorization_list));
    // 4. Access list addresses
    if let Some(al) = &tx.access_list {
        push_all(al, &mut collected);
    }
    assert(address_views(collected@) =~= seq![tx.sender@] + optional_address(tx.to)
        + optional_addresses(tx.authorization_list) + optional_addresses(tx.access_list));
    // 5. ERC-20/ERC-721/ERC-1155 calldata addresses
    extract_calldata_addresses(tx.input.as_slice(), &mut collected);
    let ghost all = address_views(collected@);
    assert(all =~= screenable_addresses(*tx));
    assert forall|x: Seq<u8>| holds_address(collected@, x) <==> all.contains(x) by {
        if holds_address(collected@, x) {
            let k = choose|k: int| 0 <= k < collected@.len() && #[trigger] collected@[k]@ == x;
            assert(all[k] == x);
        }
        if all.contains(x) {
            let k = choose|k: int| 0 <= k < all.len() && all[k] == x;
            assert(collected@[k]@ == x);
        }
    }
    // Deduplicate
    ascending_unique(&collected)
}

} // verus!
