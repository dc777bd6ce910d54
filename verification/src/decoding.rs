//! Reading a candy machine account, byte by byte from the front, and what that gives back of
//! what was stored.
use crate::codec::{borsh_str, fits_borsh, i64_bits, u16_le, u32_at, u32_le, u64_at, u64_le};
use crate::pubkey::Pubkey;
use crate::state::{
    bool_bytes, creators_bytes, data_bytes, date_option_bytes, end_option_bytes, fixed_bytes,
    header_bytes, hidden_option_bytes, key_option_bytes, price_bytes, whitelist_bytes,
    whitelist_option_bytes, CandyMachineDataView, CandyMachineView, Creator, EndSettings,
    HiddenSettingView, WhitelistMintMode, WhitelistMintSettings, DISCRIMINATOR,
};
use crate::state_laws::{is_storable, lemma_header_parts, lemma_regroup, lemma_regroup_four};
use vstd::prelude::*;
use vstd::utf8::*;

verus! {

/// The number that bytes stand for, the lowest first.
pub open spec fn le_value(b: Seq<u8>) -> int
    decreases b.len(),
{
    if b.len() == 0 {
        0
    } else {
        b[0] + 256 * le_value(b.skip(1))
    }
}

proof fn lemma_value_2(b: Seq<u8>)
    requires
        b.len() == 2,
    ensures
        le_value(b) == b[0] + 256 * b[1],
{
    reveal_with_fuel(le_value, 3);
    assert(b.skip(1).len() == 1 && b.skip(1)[0] == b[1]);
}

pub(crate) proof fn lemma_value_4(b: Seq<u8>)
    requires
        b.len() == 4,
    ensures
        le_value(b) == b[0] + 256 * b[1] + 65536 * b[2] + 16777216 * b[3],
{
    let c = b.skip(2);
    lemma_value_2(c);
    assert(b.skip(1).skip(1) =~= c);
    assert(le_value(b.skip(1)) == b[1] + 256 * le_value(c));
    assert(c[0] == b[2] && c[1] == b[3]);
}

pub(crate) proof fn lemma_value_8(b: Seq<u8>)
    requires
        b.len() == 8,
    ensures
        le_value(b) == b[0] + 256 * b[1] + 65536 * b[2] + 16777216 * b[3] + 4294967296 * b[4]
            + 1099511627776 * b[5] + 281474976710656 * b[6] + 72057594037927936 * b[7],
{
    let c = b.skip(4);
    lemma_value_4(c);
    assert(b.skip(3).skip(1) =~= c);
    assert(b.skip(2).skip(1) =~= b.skip(3));
    assert(b.skip(1).skip(1) =~= b.skip(2));
    assert(le_value(b.skip(3)) == b[3] + 256 * le_value(c));
    assert(le_value(b.skip(2)) == b[2] + 256 * le_value(b.skip(3)));
    assert(le_value(b.skip(1)) == b[1] + 256 * le_value(b.skip(2)));
    assert(c[0] == b[4] && c[1] == b[5] && c[2] == b[6] && c[3] == b[7]);
}

/// The bytes of a number stand for that number, the lowest byte first.
pub proof fn law_number_bytes(n: int)
    ensures
        0 <= n < 65536 ==> u16_le(n).len() == 2 && le_value(u16_le(n)) == n,
        0 <= n < 4294967296 ==> u32_le(n).len() == 4 && le_value(u32_le(n)) == n,
        0 <= n < 18446744073709551616 ==> u64_le(n).len() == 8 && le_value(u64_le(n)) == n,
{
    lemma_u16_value(n);
    lemma_u32_value(n);
    if 0 <= n < 18446744073709551616 {
        let low = n % 4294967296;
        let high = n / 4294967296;
        lemma_u32_value(low);
        lemma_u32_value(high);
        let b = u64_le(n);
        let l = u32_le(low);
        let h = u32_le(high);
        lemma_value_8(b);
        lemma_value_4(l);
        lemma_value_4(h);
        assert(b[0] == l[0] && b[1] == l[1] && b[2] == l[2] && b[3] == l[3]);
        assert(b[4] == h[0] && b[5] == h[1] && b[6] == h[2] && b[7] == h[3]);
    }
}

proof fn lemma_u16_value(n: int)
    ensures
        0 <= n < 65536 ==> u16_le(n).len() == 2 && le_value(u16_le(n)) == n,
{
    lemma_value_2(u16_le(n));
}

proof fn lemma_u32_value(n: int)
    ensures
        0 <= n < 4294967296 ==> u32_le(n).len() == 4 && le_value(u32_le(n)) == n,
{
    lemma_value_4(u32_le(n));
}

/// The number read at a place is the one that the bytes there stand for.
pub proof fn law_number_read(s: Seq<u8>, at: int)
    requires
        0 <= at,
    ensures
        at + 4 <= s.len() ==> u32_at(s, at) == le_value(s.subrange(at, at + 4)),
        at + 8 <= s.len() ==> u64_at(s, at) == le_value(s.subrange(at, at + 8)),
{
    if at + 4 <= s.len() {
        lemma_value_4(s.subrange(at, at + 4));
    }
    if at + 8 <= s.len() {
        lemma_value_8(s.subrange(at, at + 8));
    }
}

/// The bits of a signed number are those of the number itself, or, if it is negative, of what is
/// missing to two to the power of 64.
pub proof fn law_signed_bits(n: i64)
    ensures
        0 <= i64_bits(n) < 18446744073709551616,
        i64_bits(n) == n || i64_bits(n) == n + 18446744073709551616,
        signed(i64_bits(n)) == n,
{
}

/// The signed number that 64 bits stand for.
pub open spec fn signed(v: int) -> int {
    if v < 9223372036854775808 {
        v
    } else {
        v - 18446744073709551616
    }
}

/// An encoded text is the number of its UTF-8 bytes, in four bytes, and those bytes.
pub proof fn law_text_bytes(s: Seq<char>)
    requires
        fits_borsh(s),
    ensures
        le_value(borsh_str(s).take(4)) == encode_utf8(s).len(),
        borsh_str(s).skip(4) == encode_utf8(s),
{
    let n = encode_utf8(s).len() as int;
    law_number_bytes(n);
    assert(borsh_str(s).take(4) =~= u32_le(n));
    assert(borsh_str(s).skip(4) =~= encode_utf8(s));
}

/// A number of `n` bytes at the front, and what stands behind it.
pub open spec fn read_number(b: Seq<u8>, n: int) -> Option<(int, Seq<u8>)> {
    if b.len() < n {
        None
    } else {
        Some((le_value(b.take(n)), b.skip(n)))
    }
}

/// `n` bytes at the front, and what stands behind them.
pub open spec fn read_bytes(b: Seq<u8>, n: int) -> Option<(Seq<u8>, Seq<u8>)> {
    if b.len() < n {
        None
    } else {
        Some((b.take(n), b.skip(n)))
    }
}

/// A truth value at the front, and what stands behind it.
pub open spec fn read_flag(b: Seq<u8>) -> Option<(bool, Seq<u8>)> {
    if b.len() == 0 || b[0] > 1 {
        None
    } else {
        Some((b[0] == 1, b.skip(1)))
    }
}

/// A text at the front, and what stands behind it.
pub open spec fn read_text(b: Seq<u8>) -> Option<(Seq<char>, Seq<u8>)> {
    match read_number(b, 4) {
        None => None,
        Some((n, r)) => if r.len() < n || !valid_utf8(r.take(n)) {
            None
        } else {
            Some((decode_utf8(r.take(n)), r.skip(n)))
        },
    }
}

/// An optional number of eight bytes at the front, and what stands behind it.
pub open spec fn read_maybe_number(b: Seq<u8>) -> Option<(Option<int>, Seq<u8>)> {
    match read_flag(b) {
        None => None,
        Some((there, r)) => if !there {
            Some((None, r))
        } else {
            match read_number(r, 8) {
                None => None,
                Some((n, q)) => Some((Some(n), q)),
            }
        },
    }
}

/// An optional address at the front, and what stands behind it.
pub open spec fn read_maybe_key(b: Seq<u8>) -> Option<(Option<Seq<u8>>, Seq<u8>)> {
    match read_flag(b) {
        None => None,
        Some((there, r)) => if !there {
            Some((None, r))
        } else {
            match read_bytes(r, 32) {
                None => None,
                Some((k, q)) => Some((Some(k), q)),
            }
        },
    }
}

/// An optional end of the sale at the front, and what stands behind it: which kind it is, 0 for
/// a date and 1 for an amount, and its number.
pub open spec fn read_maybe_end(b: Seq<u8>) -> Option<(Option<(int, int)>, Seq<u8>)> {
    match read_flag(b) {
        None => None,
        Some((there, r)) => if !there {
            Some((None, r))
        } else {
            match read_number(r, 1) {
                None => None,
                Some((kind, q)) => match read_number(q, 8) {
                    None => None,
                    Some((n, p)) => Some((Some((kind, n)), p)),
                },
            }
        },
    }
}

/// What is stored of a creator.
pub struct StoredCreator {
    pub address: Seq<u8>,
    pub verified: bool,
    pub share: int,
}

/// A creator at the front, and what stands behind it.
pub open spec fn read_creator(b: Seq<u8>) -> Option<(StoredCreator, Seq<u8>)> {
    match read_bytes(b, 32) {
        None => None,
        Some((address, r)) => match read_flag(r) {
            None => None,
            Some((verified, q)) => match read_number(q, 1) {
                None => None,
                Some((share, p)) => Some((StoredCreator { address, verified, share }, p)),
            },
        },
    }
}

/// `n` creators at the front, and what stands behind them.
pub open spec fn read_creators(b: Seq<u8>, n: nat) -> Option<(Seq<StoredCreator>, Seq<u8>)>
    decreases n,
{
    if n == 0 {
        Some((seq![], b))
    } else {
        match read_creator(b) {
            None => None,
            Some((c, r)) => match read_creators(r, (n - 1) as nat) {
                None => None,
                Some((cs, q)) => Some((seq![c] + cs, q)),
            },
        }
    }
}

/// What is stored of a hidden setting.
pub struct StoredHidden {
    pub name: Seq<char>,
    pub uri: Seq<char>,
    pub hash: Seq<u8>,
}

/// An optional hidden setting at the front, and what stands behind it.
pub open spec fn read_maybe_hidden(b: Seq<u8>) -> Option<(Option<StoredHidden>, Seq<u8>)> {
    match read_flag(b) {
        None => None,
        Some((there, r)) => if !there {
            Some((None, r))
        } else {
            match read_text(r) {
                None => None,
                Some((name, q)) => match read_text(q) {
                    None => None,
                    Some((uri, p)) => match read_bytes(p, 32) {
                        None => None,
                        Some((hash, o)) => Some((Some(StoredHidden { name, uri, hash }), o)),
                    },
                },
            }
        },
    }
}

/// What is stored of whitelist settings. The mode is 0 where the token is burned, and 1 where it
/// is not.
pub struct StoredWhitelist {
    pub mode: int,
    pub mint: Seq<u8>,
    pub presale: bool,
    pub discount_price: Option<int>,
}

/// Optional whitelist settings at the front, and what stands behind them.
pub open spec fn read_maybe_whitelist(b: Seq<u8>) -> Option<(Option<StoredWhitelist>, Seq<u8>)> {
    match read_flag(b) {
        None => None,
        Some((there, r)) => if !there {
            Some((None, r))
        } else {
            match read_number(r, 1) {
                None => None,
                Some((mode, q)) => match read_bytes(q, 32) {
                    None => None,
                    Some((mint, p)) => match read_flag(p) {
                        None => None,
                        Some((presale, o)) => match read_maybe_number(o) {
                            None => None,
                            Some((discount_price, n)) => Some(
                                (Some(StoredWhitelist { mode, mint, presale, discount_price }), n),
                            ),
                        },
                    },
                },
            }
        },
    }
}

/// What is stored of those settings that are always there.
pub struct StoredFixed {
    pub uuid: Seq<char>,
    pub price: int,
    pub symbol: Seq<char>,
    pub seller_fee_basis_points: int,
    pub max_supply: int,
    pub is_mutable: bool,
    pub retain_authority: bool,
    pub use_captcha: bool,
}

/// The settings that are always there at the front, and what stands behind them.
pub open spec fn read_fixed(b: Seq<u8>) -> Option<(StoredFixed, Seq<u8>)> {
    match read_text(b) {
        None => None,
        Some((uuid, r1)) => match read_number(r1, 8) {
            None => None,
            Some((price, r2)) => match read_text(r2) {
                None => None,
                Some((symbol, r3)) => match read_number(r3, 2) {
                    None => None,
                    Some((seller_fee_basis_points, r4)) => match read_number(r4, 8) {
                        None => None,
                        Some((max_supply, r5)) => match read_flag(r5) {
                            None => None,
                            Some((is_mutable, r6)) => match read_flag(r6) {
                                None => None,
                                Some((retain_authority, r7)) => match read_flag(r7) {
                                    None => None,
                                    Some((use_captcha, r8)) => Some(
                                        (
                                            StoredFixed {
                                                uuid,
                                                price,
                                                symbol,
                                                seller_fee_basis_points,
                                                max_supply,
                                                is_mutable,
                                                retain_authority,
                                                use_captcha,
                                            },
                                            r8,
                                        ),
                                    ),
                                },
                            },
                        },
                    },
                },
            },
        },
    }
}

/// What is stored of the settings of a candy machine.
pub struct StoredSettings {
    pub fixed: StoredFixed,
    pub go_live_date: Option<int>,
    pub end_settings: Option<(int, int)>,
    pub creators: Seq<StoredCreator>,
    pub hidden_setting: Option<StoredHidden>,
    pub whitelist_mint_settings: Option<StoredWhitelist>,
    pub items_available: int,
}

/// Settings at the front, and what stands behind them.
pub open spec fn read_settings(b: Seq<u8>) -> Option<(StoredSettings, Seq<u8>)> {
    match read_fixed(b) {
        None => None,
        Some((fixed, r1)) => match read_maybe_number(r1) {
            None => None,
            Some((go_live_date, r2)) => match read_maybe_end(r2) {
                None => None,
                Some((end_settings, r3)) => match read_number(r3, 4) {
                    None => None,
                    Some((n, r4)) => match read_creators(r4, n as nat) {
                        None => None,
                        Some((creators, r5)) => match read_maybe_hidden(r5) {
                            None => None,
                            Some((hidden_setting, r6)) => match read_maybe_whitelist(r6) {
                                None => None,
                                Some((whitelist_mint_settings, r7)) => match read_number(r7, 8) {
                                    None => None,
                                    Some((items_available, r8)) => Some(
                                        (
                                            StoredSettings {
                                                fixed,
                                                go_live_date,
                                                end_settings,
                                                creators,
                                                hidden_setting,
                                                whitelist_mint_settings,
                                                items_available,
                                            },
                                            r8,
                                        ),
                                    ),
                                },
                            },
                        },
                    },
                },
            },
        },
    }
}

/// What is stored of a candy machine.
pub struct StoredMachine {
    pub discriminator: Seq<u8>,
    pub authority: Seq<u8>,
    pub wallet: Seq<u8>,
    pub token_mint: Option<Seq<u8>>,
    pub items_redeemed: int,
    pub settings: StoredSettings,
}

/// A candy machine at the front of an account, and what stands behind it.
pub open spec fn read_machine(b: Seq<u8>) -> Option<(StoredMachine, Seq<u8>)> {
    match read_bytes(b, 8) {
        None => None,
        Some((discriminator, r1)) => match read_bytes(r1, 32) {
            None => None,
            Some((authority, r2)) => match read_bytes(r2, 32) {
                None => None,
                Some((wallet, r3)) => match read_maybe_key(r3) {
                    None => None,
                    Some((token_mint, r4)) => match read_number(r4, 8) {
                        None => None,
                        Some((items_redeemed, r5)) => match read_settings(r5) {
                            None => None,
                            Some((settings, r6)) => Some(
                                (
                                    StoredMachine {
                                        discriminator,
                                        authority,
                                        wallet,
                                        token_mint,
                                        items_redeemed,
                                        settings,
                                    },
                                    r6,
                                ),
                            ),
                        },
                    },
                },
            },
        },
    }
}

/// Whether what was read of a creator is that creator.
pub open spec fn is_creator(s: StoredCreator, c: Creator) -> bool {
    s.address == c.address@ && s.verified == c.verified && s.share == c.share
}

/// Whether what was read of the creators are these creators, in this order.
pub open spec fn are_creators(s: Seq<StoredCreator>, c: Seq<Creator>) -> bool {
    s.len() == c.len() && forall|i: int| 0 <= i < c.len() ==> is_creator(#[trigger] s[i], c[i])
}

/// Whether what was read of the end of the sale is that end.
pub open spec fn is_end(s: Option<(int, int)>, e: Option<EndSettings>) -> bool {
    match e {
        None => s is None,
        Some(EndSettings::Date(date)) => s matches Some((kind, n)) && kind == 0 && signed(n)
            == date,
        Some(EndSettings::Amount(amount)) => s matches Some((kind, n)) && kind == 1 && n == amount,
    }
}

/// Whether what was read of a hidden setting is that hidden setting.
pub open spec fn is_hidden(s: Option<StoredHidden>, h: Option<HiddenSettingView>) -> bool {
    match h {
        None => s is None,
        Some(h) => s matches Some(s) && s.name == h.name && s.uri == h.uri && s.hash == h.hash,
    }
}

/// Whether what was read of whitelist settings are those settings.
pub open spec fn is_whitelist(
    s: Option<StoredWhitelist>,
    w: Option<WhitelistMintSettings>,
) -> bool {
    match w {
        None => s is None,
        Some(w) => {
            &&& s matches Some(s)
            &&& s.mode == 0 <==> w.mode == WhitelistMintMode::BurnEveryTime
            &&& s.mode == 1 <==> w.mode == WhitelistMintMode::NeverBurn
            &&& s.mint == w.mint@
            &&& s.presale == w.presale
            &&& match w.discount_price {
                None => s.discount_price is None,
                Some(price) => s.discount_price == Some(price as int),
            }
        },
    }
}

/// Whether what was read of the date from which the sale is open is that date.
pub open spec fn is_date(s: Option<int>, date: Option<i64>) -> bool {
    match date {
        None => s is None,
        Some(date) => s matches Some(n) && signed(n) == date,
    }
}

proof fn lemma_read_number(n: int, enc: Seq<u8>, r: Seq<u8>)
    requires
        le_value(enc) == n,
    ensures
        read_number(enc + r, enc.len() as int) == Some((n, r)),
{
    assert((enc + r).take(enc.len() as int) =~= enc);
    assert((enc + r).skip(enc.len() as int) =~= r);
}

proof fn lemma_read_u64(n: u64, r: Seq<u8>)
    ensures
        read_number(u64_le(n as int) + r, 8) == Some((n as int, r)),
{
    law_number_bytes(n as int);
    lemma_read_number(n as int, u64_le(n as int), r);
}

proof fn lemma_read_byte(x: u8, r: Seq<u8>)
    ensures
        read_number(seq![x] + r, 1) == Some((x as int, r)),
{
    reveal_with_fuel(le_value, 2);
    lemma_read_number(x as int, seq![x], r);
}

proof fn lemma_read_bytes(enc: Seq<u8>, r: Seq<u8>)
    ensures
        read_bytes(enc + r, enc.len() as int) == Some((enc, r)),
{
    assert((enc + r).take(enc.len() as int) =~= enc);
    assert((enc + r).skip(enc.len() as int) =~= r);
}

proof fn lemma_read_flag(x: bool, r: Seq<u8>)
    ensures
        read_flag(bool_bytes(x) + r) == Some((x, r)),
        read_flag(seq![if x {
            1u8
        } else {
            0u8
        }] + r) == Some((x, r)),
{
    assert((bool_bytes(x) + r).skip(1) =~= r);
}

pub(crate) proof fn lemma_read_text(s: Seq<char>, r: Seq<u8>)
    requires
        fits_borsh(s),
    ensures
        read_text(borsh_str(s) + r) == Some((s, r)),
{
    let body = encode_utf8(s);
    let n = body.len() as int;
    law_number_bytes(n);
    assert(borsh_str(s) + r =~= u32_le(n) + (body + r));
    lemma_read_number(n, u32_le(n), body + r);
    assert((body + r).take(n) =~= body);
    assert((body + r).skip(n) =~= r);
    encode_utf8_valid_utf8(s);
    encode_utf8_decode_utf8(s);
}

proof fn lemma_read_date(date: Option<i64>, r: Seq<u8>)
    ensures
        read_maybe_number(date_option_bytes(date) + r) matches Some((s, q)) && is_date(s, date)
            && q == r,
{
    match date {
        None => {
            assert(date_option_bytes(date) + r =~= seq![0u8] + r);
            lemma_read_flag(false, r);
        },
        Some(n) => {
            let enc = u64_le(i64_bits(n));
            assert(date_option_bytes(date) + r =~= seq![1u8] + (enc + r));
            lemma_read_flag(true, enc + r);
            law_number_bytes(i64_bits(n));
            lemma_read_number(i64_bits(n), enc, r);
        },
    }
}

proof fn lemma_read_price(price: Option<u64>, r: Seq<u8>)
    ensures
        read_maybe_number(price_bytes(price) + r) == Some(
            (
                match price {
                    None => None,
                    Some(n) => Some(n as int),
                },
                r,
            ),
        ),
{
    match price {
        None => {
            assert(price_bytes(price) + r =~= seq![0u8] + r);
            lemma_read_flag(false, r);
        },
        Some(n) => {
            assert(price_bytes(price) + r =~= seq![1u8] + (u64_le(n as int) + r));
            lemma_read_flag(true, u64_le(n as int) + r);
            lemma_read_u64(n, r);
        },
    }
}

proof fn lemma_read_key(key: Option<Pubkey>, r: Seq<u8>)
    ensures
        read_maybe_key(key_option_bytes(key) + r) == Some(
            (
                match key {
                    None => None,
                    Some(k) => Some(k@),
                },
                r,
            ),
        ),
{
    match key {
        None => {
            assert(key_option_bytes(key) + r =~= seq![0u8] + r);
            lemma_read_flag(false, r);
        },
        Some(k) => {
            assert(key_option_bytes(key) + r =~= seq![1u8] + (k@ + r));
            lemma_read_flag(true, k@ + r);
            lemma_read_bytes(k@, r);
        },
    }
}

proof fn lemma_read_end(end: Option<EndSettings>, r: Seq<u8>)
    ensures
        read_maybe_end(end_option_bytes(end) + r) matches Some((s, q)) && is_end(s, end) && q == r,
{
    match end {
        None => {
            assert(end_option_bytes(end) + r =~= seq![0u8] + r);
            lemma_read_flag(false, r);
        },
        Some(EndSettings::Date(date)) => {
            let enc = u64_le(i64_bits(date));
            assert(end_option_bytes(end) + r =~= seq![1u8] + (seq![0u8] + (enc + r)));
            lemma_read_flag(true, seq![0u8] + (enc + r));
            lemma_read_byte(0, enc + r);
            law_number_bytes(i64_bits(date));
            lemma_read_number(i64_bits(date), enc, r);
        },
        Some(EndSettings::Amount(amount)) => {
            let enc = u64_le(amount as int);
            assert(end_option_bytes(end) + r =~= seq![1u8] + (seq![1u8] + (enc + r)));
            lemma_read_flag(true, seq![1u8] + (enc + r));
            lemma_read_byte(1, enc + r);
            lemma_read_u64(amount, r);
        },
    }
}

proof fn lemma_read_hidden(hidden: Option<HiddenSettingView>, r: Seq<u8>)
    requires
        hidden matches Some(h) ==> fits_borsh(h.name) && fits_borsh(h.uri) && h.hash.len() == 32,
    ensures
        read_maybe_hidden(hidden_option_bytes(hidden) + r) matches Some((s, q)) && is_hidden(
            s,
            hidden,
        ) && q == r,
{
    match hidden {
        None => {
            assert(hidden_option_bytes(hidden) + r =~= seq![0u8] + r);
            lemma_read_flag(false, r);
        },
        Some(h) => {
            let r2 = h.hash + r;
            let r1 = borsh_str(h.uri) + r2;
            assert(hidden_option_bytes(hidden) + r =~= seq![1u8] + (borsh_str(h.name) + r1));
            lemma_read_flag(true, borsh_str(h.name) + r1);
            lemma_read_text(h.name, r1);
            lemma_read_text(h.uri, r2);
            lemma_read_bytes(h.hash, r);
        },
    }
}

proof fn lemma_read_whitelist(whitelist: Option<WhitelistMintSettings>, r: Seq<u8>)
    ensures
        read_maybe_whitelist(whitelist_option_bytes(whitelist) + r) matches Some((s, q))
            && is_whitelist(s, whitelist) && q == r,
{
    match whitelist {
        None => {
            assert(whitelist_option_bytes(whitelist) + r =~= seq![0u8] + r);
            lemma_read_flag(false, r);
        },
        Some(w) => {
            let mode: u8 = if w.mode == WhitelistMintMode::BurnEveryTime {
                0
            } else {
                1
            };
            let r3 = price_bytes(w.discount_price) + r;
            let r2 = bool_bytes(w.presale) + r3;
            let r1 = w.mint@ + r2;
            assert(whitelist_option_bytes(whitelist) + r =~= seq![1u8] + (whitelist_bytes(w) + r));
            lemma_regroup_four(
                seq![mode],
                w.mint@,
                bool_bytes(w.presale),
                price_bytes(w.discount_price),
                r,
            );
            lemma_read_flag(true, whitelist_bytes(w) + r);
            lemma_read_byte(mode, r1);
            lemma_read_bytes(w.mint@, r2);
            lemma_read_flag(w.presale, r3);
            lemma_read_price(w.discount_price, r);
        },
    }
}

/// Creators are encoded one behind the other, from the first on.
proof fn lemma_creators_front(c: Seq<Creator>)
    requires
        c.len() > 0,
    ensures
        creators_bytes(c) == (c[0].address@ + bool_bytes(c[0].verified) + seq![c[0].share])
            + creators_bytes(c.skip(1)),
    decreases c.len(),
{
    let front = c[0].address@ + bool_bytes(c[0].verified) + seq![c[0].share];
    if c.len() == 1 {
        assert(c.drop_last() =~= Seq::<Creator>::empty());
        assert(c.skip(1) =~= Seq::<Creator>::empty());
        assert(creators_bytes(c.drop_last()) =~= Seq::<u8>::empty());
        assert(creators_bytes(c.skip(1)) =~= Seq::<u8>::empty());
        assert(creators_bytes(c) =~= front + creators_bytes(c.skip(1)));
    } else {
        lemma_creators_front(c.drop_last());
        assert(c.drop_last().skip(1) =~= c.skip(1).drop_last());
        assert(c.skip(1).last() == c.last());
        assert(c.drop_last()[0] == c[0]);
        assert(creators_bytes(c) =~= front + creators_bytes(c.skip(1)));
    }
}

pub(crate) proof fn lemma_read_creators(c: Seq<Creator>, r: Seq<u8>)
    ensures
        read_creators(creators_bytes(c) + r, c.len()) matches Some((s, q)) && are_creators(s, c)
            && q == r,
    decreases c.len(),
{
    if c.len() == 0 {
        assert(creators_bytes(c) + r =~= r);
    } else {
        let first = c[0];
        let rest = creators_bytes(c.skip(1)) + r;
        lemma_creators_front(c);
        assert(creators_bytes(c) + r =~= first.address@ + (bool_bytes(first.verified) + (
        seq![first.share] + rest)));
        lemma_read_bytes(first.address@, bool_bytes(first.verified) + (seq![first.share] + rest));
        lemma_read_flag(first.verified, seq![first.share] + rest);
        lemma_read_byte(first.share, rest);
        lemma_read_creators(c.skip(1), r);
        let (s, q) = read_creators(creators_bytes(c) + r, c.len())->0;
        let (t, p) = read_creators(rest, (c.len() - 1) as nat)->0;
        assert(s.len() == t.len() + 1);
        assert forall|i: int| 0 <= i < c.len() implies is_creator(#[trigger] s[i], c[i]) by {
            if i > 0 {
                assert(s[i] == t[i - 1]);
                assert(is_creator(t[i - 1], c.skip(1)[i - 1]));
            }
        }
    }
}

/// Whether what was read of the settings that are always there is what was stored of them.
pub open spec fn is_fixed(s: StoredFixed, d: CandyMachineDataView) -> bool {
    &&& s.uuid == d.uuid
    &&& s.price == d.price
    &&& s.symbol == d.symbol
    &&& s.seller_fee_basis_points == d.seller_fee_basis_points
    &&& s.max_supply == d.max_supply
    &&& s.is_mutable == d.is_mutable
    &&& s.retain_authority == d.retain_authority
    &&& s.use_captcha == d.use_captcha
}

proof fn lemma_read_fixed(d: CandyMachineDataView, r: Seq<u8>)
    requires
        fits_borsh(d.uuid),
        fits_borsh(d.symbol),
    ensures
        read_fixed(fixed_bytes(d) + r) matches Some((s, q)) && is_fixed(s, d) && q == r,
{
    lemma_regroup(
        borsh_str(d.uuid),
        u64_le(d.price as int),
        borsh_str(d.symbol),
        u16_le(d.seller_fee_basis_points as int),
        u64_le(d.max_supply as int),
        bool_bytes(d.is_mutable),
        bool_bytes(d.retain_authority),
        bool_bytes(d.use_captcha),
        r,
    );
    let r7 = bool_bytes(d.use_captcha) + r;
    let r6 = bool_bytes(d.retain_authority) + r7;
    let r5 = bool_bytes(d.is_mutable) + r6;
    let r4 = u64_le(d.max_supply as int) + r5;
    let r3 = u16_le(d.seller_fee_basis_points as int) + r4;
    let r2 = borsh_str(d.symbol) + r3;
    let r1 = u64_le(d.price as int) + r2;
    lemma_read_text(d.uuid, r1);
    lemma_read_u64(d.price, r2);
    lemma_read_text(d.symbol, r3);
    law_number_bytes(d.seller_fee_basis_points as int);
    lemma_read_number(
        d.seller_fee_basis_points as int,
        u16_le(d.seller_fee_basis_points as int),
        r4,
    );
    lemma_read_u64(d.max_supply, r5);
    lemma_read_flag(d.is_mutable, r6);
    lemma_read_flag(d.retain_authority, r7);
    lemma_read_flag(d.use_captcha, r);
}

/// Whether what was read of settings is what was stored of them.
pub open spec fn are_settings(s: StoredSettings, d: CandyMachineDataView) -> bool {
    &&& is_fixed(s.fixed, d)
    &&& is_date(s.go_live_date, d.go_live_date)
    &&& is_end(s.end_settings, d.end_settings)
    &&& are_creators(s.creators, d.creators)
    &&& is_hidden(s.hidden_setting, d.hidden_setting)
    &&& is_whitelist(s.whitelist_mint_settings, d.whitelist_mint_settings)
    &&& s.items_available == d.items_available
}

/// Settings are read back from their encoding as they were, whatever stands behind it.
pub proof fn law_settings_are_read_back(d: CandyMachineDataView, r: Seq<u8>)
    requires
        is_storable(d),
    ensures
        read_settings(data_bytes(d) + r) matches Some((s, q)) && are_settings(s, d) && q == r,
{
    lemma_regroup(
        fixed_bytes(d),
        date_option_bytes(d.go_live_date),
        end_option_bytes(d.end_settings),
        u32_le(d.creators.len() as int),
        creators_bytes(d.creators),
        hidden_option_bytes(d.hidden_setting),
        whitelist_option_bytes(d.whitelist_mint_settings),
        u64_le(d.items_available as int),
        r,
    );
    let r7 = u64_le(d.items_available as int) + r;
    let r6 = whitelist_option_bytes(d.whitelist_mint_settings) + r7;
    let r5 = hidden_option_bytes(d.hidden_setting) + r6;
    let r4 = creators_bytes(d.creators) + r5;
    let r3 = u32_le(d.creators.len() as int) + r4;
    let r2 = end_option_bytes(d.end_settings) + r3;
    let r1 = date_option_bytes(d.go_live_date) + r2;
    lemma_read_fixed(d, r1);
    lemma_read_date(d.go_live_date, r2);
    lemma_read_end(d.end_settings, r3);
    law_number_bytes(d.creators.len() as int);
    lemma_read_number(d.creators.len() as int, u32_le(d.creators.len() as int), r4);
    lemma_read_creators(d.creators, r5);
    lemma_read_hidden(d.hidden_setting, r6);
    lemma_read_whitelist(d.whitelist_mint_settings, r7);
    lemma_read_u64(d.items_available, r);
}

/// A candy machine is read back from the head of its account as it was stored, whatever stands
/// behind it.
pub proof fn law_machine_is_read_back(m: CandyMachineView, r: Seq<u8>)
    requires
        is_storable(m.data),
    ensures
        read_machine(header_bytes(m) + r) matches Some((s, q)) && {
            &&& s.discriminator == DISCRIMINATOR@
            &&& s.authority == m.authority@
            &&& s.wallet == m.wallet@
            &&& match m.token_mint {
                None => s.token_mint is None,
                Some(key) => s.token_mint == Some(key@),
            }
            &&& s.items_redeemed == m.items_redeemed
            &&& are_settings(s.settings, m.data)
            &&& q == r
        },
{
    let r3 = data_bytes(m.data) + r;
    let r2 = u64_le(m.items_redeemed as int) + r3;
    let r1 = key_option_bytes(m.token_mint) + r2;
    lemma_header_parts(m, r);
    lemma_read_bytes(DISCRIMINATOR@, m.authority@ + (m.wallet@ + r1));
    lemma_read_bytes(m.authority@, m.wallet@ + r1);
    lemma_read_bytes(m.wallet@, r1);
    lemma_read_key(m.token_mint, r2);
    lemma_read_u64(m.items_redeemed, r3);
    law_settings_are_read_back(m.data, r);
}

} // verus!
