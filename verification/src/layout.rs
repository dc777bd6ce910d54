//! Where things stand in a candy machine account.
//!
//! The account starts with the encoded state, for which [`CONFIG_ARRAY_START`] bytes are set
//! aside. Behind it stand, as a little-endian `u32`, the number of config lines that are
//! filled in, then the config lines themselves, each [`CONFIG_LINE_SIZE`] bytes long, then, as
//! a `u32`, the number of bytes of a bit mask, and then the bit mask, which has one bit for
//! each config line.
use crate::error::ProgramError;
use crate::state::{CandyMachineData, CandyMachineDataView};
use crate::codec::{read_u32, u32_at};
use vstd::prelude::*;

verus! {

/// The longest name of an item, in bytes.
pub const MAX_NAME_LENGTH: usize = 32;

/// The longest symbol of a collection, in bytes.
pub const MAX_SYMBOL_LENGTH: usize = 10;

/// The longest URI of an item, in bytes.
pub const MAX_URI_LENGTH: usize = 200;

/// How many creators an item can have, the candy machine itself among them.
pub const MAX_CREATOR_LIMIT: usize = 5;

/// The number of bytes of an encoded creator.
pub const MAX_CREATOR_LEN: usize = 32 + 1 + 1;

/// How many bytes are set aside for the state of the candy machine.
#[verifier::nonlinear]
pub const CONFIG_ARRAY_START: usize = 8 + // key
32 + // authority
32 + // wallet
33 + // token mint
4 + 6 + // uuid
8 + // price
8 + // items available
9 + // go live
10 + // end settings
4 + MAX_SYMBOL_LENGTH + // u32 len + symbol
2 + // seller fee basis points
1 + 4 + MAX_CREATOR_LIMIT * MAX_CREATOR_LEN + // optional + u32 len + actual vec
8 + // max supply
1 + // is mutable
1 + // retain authority
1 + // option for hidden setting
4 + MAX_NAME_LENGTH + // name length
4 + MAX_URI_LENGTH + // uri length
32 + // hash
4 + // max number of lines
8 + // items redeemed
1 + // whitelist option
1 + // whitelist mint mode
1 + // allow presale
1 + // use captcha
9 + // discount price
32; // mint key for whitelist

/// The number of bytes of a config line.
pub const CONFIG_LINE_SIZE: usize = 4 + MAX_NAME_LENGTH + 4 + MAX_URI_LENGTH;

/// Where config line `i` stands.
pub open spec fn line_start(i: int) -> int {
    CONFIG_ARRAY_START + 4 + i * CONFIG_LINE_SIZE
}

/// Where config line `i` stands, in numbers.
pub broadcast proof fn lemma_line_start(i: int)
    ensures
        #[trigger] line_start(i) == 685 + 240 * i,
{
    assert(i * CONFIG_LINE_SIZE == 240 * i) by (nonlinear_arith);
}

/// Where config line `i` stands.
pub(crate) fn line_position(i: usize) -> (r: usize)
    requires
        line_start(i as int) <= usize::MAX,
    ensures
        r == line_start(i as int),
{
    proof {
        lemma_line_start(i as int);
        assert(i * CONFIG_LINE_SIZE == 240 * i) by (nonlinear_arith);
    }
    CONFIG_ARRAY_START + 4 + i * CONFIG_LINE_SIZE
}

/// Tests whether config line `i` stands within the first `len` bytes.
pub(crate) fn starts_within(i: u64, len: usize) -> (r: bool)
    ensures
        r == (line_start(i as int) <= len),
{
    proof {
        lemma_line_start(i as int);
    }
    len >= CONFIG_ARRAY_START + 4 && i <= ((len - CONFIG_ARRAY_START - 4) / CONFIG_LINE_SIZE) as u64
}

/// Where the bit mask of a machine with room for `items` config lines stands. Its length
/// stands in the four bytes before it.
pub open spec fn mask_start(items: int) -> int {
    line_start(items) + 4
}

/// The number of bytes of the bit mask: an eighth of the number of config lines, rounded up.
pub open spec fn mask_len(items: int) -> int {
    (items + 7) / 8
}

/// The number of bytes that an account needs for a candy machine with these settings. One
/// with a hidden setting has no config lines.
pub open spec fn account_space(d: CandyMachineDataView) -> int {
    if d.hidden_setting is Some {
        CONFIG_ARRAY_START as int
    } else {
        mask_start(d.items_available as int) + mask_len(d.items_available as int)
    }
}

/// `s` with the bytes from `pos` on replaced by `b`.
pub open spec fn write_at(s: Seq<u8>, pos: int, b: Seq<u8>) -> Seq<u8> {
    Seq::new(
        s.len(),
        |i: int|
            if pos <= i < pos + b.len() {
                b[i - pos]
            } else {
                s[i]
            },
    )
}

/// The bit of config line `p` within its byte of the bit mask: the first line has the highest
/// bit.
pub open spec fn line_bit(p: int) -> u8 {
    if p % 8 == 0 {
        128
    } else if p % 8 == 1 {
        64
    } else if p % 8 == 2 {
        32
    } else if p % 8 == 3 {
        16
    } else if p % 8 == 4 {
        8
    } else if p % 8 == 5 {
        4
    } else if p % 8 == 6 {
        2
    } else {
        1
    }
}

/// Whether the bit of config line `p` is set in the bit mask that starts at `start`.
pub open spec fn is_marked(s: Seq<u8>, start: int, p: int) -> bool {
    s[start + p / 8] & line_bit(p) != 0
}

/// `s` with the bits of `n` config lines from `index` on set in the bit mask at `start`.
pub open spec fn mark_lines(s: Seq<u8>, start: int, index: int, n: nat) -> Seq<u8>
    decreases n,
{
    if n == 0 {
        s
    } else {
        let before = mark_lines(s, start, index, (n - 1) as nat);
        let p = index + n - 1;
        before.update(start + p / 8, before[start + p / 8] | line_bit(p))
    }
}

/// How many of `n` config lines from `index` on are not marked yet.
pub open spec fn count_unmarked(s: Seq<u8>, start: int, index: int, n: nat) -> nat
    decreases n,
{
    if n == 0 {
        0
    } else {
        count_unmarked(s, start, index, (n - 1) as nat) + if is_marked(
            s,
            start,
            index + n - 1,
        ) {
            0nat
        } else {
            1nat
        }
    }
}

/// Replaces the bytes of `data` from `pos` on by `bytes`.
pub(crate) fn write_bytes(data: &mut [u8], pos: usize, bytes: &[u8])
    requires
        pos + bytes@.len() <= old(data)@.len(),
    ensures
        final(data)@ == write_at(old(data)@, pos as int, bytes@),
{
    let size: usize = data.len();
    let n: usize = bytes.len();
    let mut i: usize = 0;
    while i < n
        invariant
            n == bytes@.len(),
            0 <= i <= n,
            size == old(data)@.len(),
            data@.len() == size,
            pos + n <= size,
            data@ =~= write_at(old(data)@, pos as int, bytes@.take(i as int)),
        decreases n - i,
    {
        data[pos + i] = bytes[i];
        i = i + 1;
    }
    assert(bytes@.take(n as int) =~= bytes@);
}

/// The number of bytes that an account needs for a candy machine with these settings.
pub fn get_space_for_candy(data: &CandyMachineData) -> (r: Result<usize, ProgramError>)
    requires
        account_space(data@) <= usize::MAX,
    ensures
        r matches Ok(space) && space == account_space(data@),
{
    if data.hidden_setting.is_some() {
        Ok(CONFIG_ARRAY_START)
    } else {
        proof {
            lemma_line_start(data.items_available as int);
        }
        let items: usize = data.items_available as usize;
        let mask: usize = items / 8 + if items % 8 == 0 {
            0
        } else {
            1
        };
        Ok(line_position(items) + 4 + mask)
    }
}

/// Tests whether the number of bytes that an account needs can be held in a `usize`.
pub(crate) fn has_space(data: &CandyMachineData) -> (r: bool)
    ensures
        r == (account_space(data@) <= usize::MAX),
{
    if data.hidden_setting.is_some() {
        return true;
    }
    let items: u64 = data.items_available;
    proof {
        lemma_line_start(items as int);
    }
    if !starts_within(items, usize::MAX - 4) {
        return false;
    }
    let mask: usize = items as usize / 8 + if items % 8 == 0 {
        0
    } else {
        1
    };
    mask <= usize::MAX - (line_position(items as usize) + 4)
}

/// How many config lines of the account are filled in.
pub fn get_config_count(data: &[u8]) -> (r: Result<usize, ProgramError>)
    requires
        CONFIG_ARRAY_START + 4 <= data@.len(),
    ensures
        r matches Ok(count) && count == u32_at(data@, CONFIG_ARRAY_START as int),
{
    Ok(read_u32(data, CONFIG_ARRAY_START) as usize)
}

/// Setting the bit of a line leaves it set, leaves the bits of other lines alone, and changes
/// the byte exactly if the bit was not set.
pub proof fn lemma_bit_or(b: u8, p: int, q: int)
    ensures
        (b | line_bit(p)) & line_bit(p) != 0,
        p % 8 != q % 8 ==> (b | line_bit(p)) & line_bit(q) == b & line_bit(q),
        b | line_bit(p) == b <==> b & line_bit(p) != 0,
{
    let m = line_bit(p);
    let k = line_bit(q);
    assert((b | m) & m != 0 && (b | m == b <==> b & m != 0)) by (bit_vector)
        requires
            m == 1 || m == 2 || m == 4 || m == 8 || m == 16 || m == 32 || m == 64 || m == 128,
    ;
    if p % 8 != q % 8 {
        assert(m != k);
        assert((b | m) & k == b & k) by (bit_vector)
            requires
                m == 1 || m == 2 || m == 4 || m == 8 || m == 16 || m == 32 || m == 64 || m == 128,
                k == 1 || k == 2 || k == 4 || k == 8 || k == 16 || k == 32 || k == 64 || k == 128,
                m != k,
        ;
    }
}

/// Marking lines changes the bits of those lines and no other byte or bit.
pub proof fn lemma_mark_lines(s: Seq<u8>, start: int, index: int, n: nat)
    requires
        0 <= start,
        0 <= index,
        n > 0 ==> start + (index + n - 1) / 8 < s.len(),
    ensures
        mark_lines(s, start, index, n).len() == s.len(),
        forall|p: int|
            0 <= p && start + p / 8 < s.len() ==> (#[trigger] is_marked(
                mark_lines(s, start, index, n),
                start,
                p,
            ) <==> index <= p < index + n || is_marked(s, start, p)),
        forall|i: int|
            0 <= i < s.len() && !(n > 0 && start + index / 8 <= i <= start + (index + n - 1) / 8)
                ==> #[trigger] mark_lines(s, start, index, n)[i] == s[i],
    decreases n,
{
    if n > 0 {
        let m = (n - 1) as nat;
        lemma_mark_lines(s, start, index, m);
        let before = mark_lines(s, start, index, m);
        let after = mark_lines(s, start, index, n);
        let q = index + n - 1;
        assert forall|p: int| 0 <= p && start + p / 8 < s.len() implies (#[trigger] is_marked(
            after,
            start,
            p,
        ) <==> index <= p < index + n || is_marked(s, start, p)) by {
            assert(is_marked(before, start, p) <==> index <= p < index + m || is_marked(
                s,
                start,
                p,
            ));
            lemma_bit_or(before[start + q / 8], q, p);
            if p / 8 == q / 8 && p != q {
                assert(p % 8 != q % 8);
            }
        }
    }
}

/// The number of lines that are still to be marked is that of the marks that are missing, and
/// marking other lines does not change it.
pub proof fn lemma_count_unmarked_same(s: Seq<u8>, t: Seq<u8>, start: int, index: int, n: nat)
    requires
        forall|p: int|
            index <= p < index + n ==> (#[trigger] is_marked(s, start, p) <==> is_marked(
                t,
                start,
                p,
            )),
    ensures
        count_unmarked(s, start, index, n) == count_unmarked(t, start, index, n),
    decreases n,
{
    if n > 0 {
        lemma_count_unmarked_same(s, t, start, index, (n - 1) as nat);
        assert(is_marked(s, start, index + n - 1) <==> is_marked(t, start, index + n - 1));
    }
}

/// There are no more unmarked lines than lines.
pub proof fn lemma_count_unmarked_bound(s: Seq<u8>, start: int, index: int, n: nat)
    ensures
        count_unmarked(s, start, index, n) <= n,
    decreases n,
{
    if n > 0 {
        lemma_count_unmarked_bound(s, start, index, (n - 1) as nat);
    }
}

} // verus!
