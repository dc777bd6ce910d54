//! The bytes that a candy machine is stored as determine the candy machine.
use crate::codec::{
    borsh_str, fits_borsh, i64_bits, lemma_u32_round_trip, lemma_u64_round_trip, u16_le, u32_le,
    u64_le,
};
use crate::pubkey::{lemma_same_bytes, Pubkey};
use crate::state::{
    bool_bytes, creators_bytes, data_bytes, date_option_bytes, encodable,
    end_option_bytes, fixed_bytes, header_bytes, hidden_option_bytes, key_option_bytes,
    price_bytes, whitelist_bytes, whitelist_option_bytes, CandyMachineDataView,
    CandyMachineView, Creator, EndSettings, HiddenSettingView, WhitelistMintMode,
    WhitelistMintSettings, DISCRIMINATOR,
};
use vstd::prelude::*;
use vstd::utf8::*;

verus! {

/// Two equal texts that start with pieces of the same length have the same piece there, and the
/// same rest.
proof fn lemma_same_start(a: Seq<u8>, r: Seq<u8>, b: Seq<u8>, s: Seq<u8>)
    requires
        a + r == b + s,
        a.len() == b.len(),
    ensures
        a == b,
        r == s,
{
    assert(a =~= (a + r).take(a.len() as int));
    assert(b =~= (b + s).take(b.len() as int));
    assert(r =~= (a + r).skip(a.len() as int));
    assert(s =~= (b + s).skip(b.len() as int));
}

// Of each kind of value: where an encoded value stands in front of something else, the bytes
// determine both the value and what stands behind it.

proof fn lemma_u32_start(m: int, r: Seq<u8>, n: int, s: Seq<u8>)
    requires
        0 <= m < 4294967296,
        0 <= n < 4294967296,
        u32_le(m) + r == u32_le(n) + s,
    ensures
        m == n,
        r == s,
{
    lemma_same_start(u32_le(m), r, u32_le(n), s);
    assert(u32_le(m).subrange(0, 4) =~= u32_le(m));
    lemma_u32_round_trip(m, u32_le(m), 0);
    lemma_u32_round_trip(n, u32_le(m), 0);
}

proof fn lemma_u64_start(m: int, r: Seq<u8>, n: int, s: Seq<u8>)
    requires
        0 <= m < 18446744073709551616,
        0 <= n < 18446744073709551616,
        u64_le(m) + r == u64_le(n) + s,
    ensures
        m == n,
        r == s,
{
    lemma_same_start(u64_le(m), r, u64_le(n), s);
    assert(u64_le(m).subrange(0, 8) =~= u64_le(m));
    lemma_u64_round_trip(m, u64_le(m), 0);
    lemma_u64_round_trip(n, u64_le(m), 0);
}

proof fn lemma_u16_start(m: u16, r: Seq<u8>, n: u16, s: Seq<u8>)
    requires
        u16_le(m as int) + r == u16_le(n as int) + s,
    ensures
        m == n,
        r == s,
{
    lemma_same_start(u16_le(m as int), r, u16_le(n as int), s);
    assert(u16_le(m as int)[0] == u16_le(n as int)[0]);
    assert(u16_le(m as int)[1] == u16_le(n as int)[1]);
}

proof fn lemma_bool_start(a: bool, r: Seq<u8>, b: bool, s: Seq<u8>)
    requires
        bool_bytes(a) + r == bool_bytes(b) + s,
    ensures
        a == b,
        r == s,
{
    lemma_same_start(bool_bytes(a), r, bool_bytes(b), s);
    assert(bool_bytes(a)[0] == bool_bytes(b)[0]);
}

proof fn lemma_key_start(a: Pubkey, r: Seq<u8>, b: Pubkey, s: Seq<u8>)
    requires
        a@ + r == b@ + s,
    ensures
        a == b,
        r == s,
{
    lemma_same_start(a@, r, b@, s);
    lemma_same_bytes(a, b);
}

proof fn lemma_str_start(a: Seq<char>, r: Seq<u8>, b: Seq<char>, s: Seq<u8>)
    requires
        fits_borsh(a),
        fits_borsh(b),
        borsh_str(a) + r == borsh_str(b) + s,
    ensures
        a == b,
        r == s,
{
    let m = encode_utf8(a);
    let n = encode_utf8(b);
    assert(borsh_str(a) + r =~= u32_le(m.len() as int) + (m + r));
    assert(borsh_str(b) + s =~= u32_le(n.len() as int) + (n + s));
    lemma_u32_start(m.len() as int, m + r, n.len() as int, n + s);
    lemma_same_start(m, r, n, s);
    encode_utf8_decode_utf8(a);
    encode_utf8_decode_utf8(b);
}

/// A byte in front tells whether an optional value is there.
proof fn lemma_tag(x: Seq<u8>, y: Seq<u8>, p: u8, q: u8, r: Seq<u8>, s: Seq<u8>)
    requires
        x == seq![p] + r,
        y == seq![q] + s,
        x == y,
    ensures
        p == q,
        r == s,
{
    lemma_same_start(seq![p], r, seq![q], s);
    assert(seq![p][0] == seq![q][0]);
}

proof fn lemma_date_start(a: Option<i64>, r: Seq<u8>, b: Option<i64>, s: Seq<u8>)
    requires
        date_option_bytes(a) + r == date_option_bytes(b) + s,
    ensures
        a == b,
        r == s,
{
    let x = date_option_bytes(a) + r;
    let y = date_option_bytes(b) + s;
    let (p, r1) = match a {
        None => (0u8, r),
        Some(m) => (1u8, u64_le(i64_bits(m)) + r),
    };
    let (q, s1) = match b {
        None => (0u8, s),
        Some(n) => (1u8, u64_le(i64_bits(n)) + s),
    };
    assert(x =~= seq![p] + r1);
    assert(y =~= seq![q] + s1);
    lemma_tag(x, y, p, q, r1, s1);
    if let (Some(m), Some(n)) = (a, b) {
        lemma_u64_start(i64_bits(m), r, i64_bits(n), s);
    }
}

proof fn lemma_price_start(a: Option<u64>, r: Seq<u8>, b: Option<u64>, s: Seq<u8>)
    requires
        price_bytes(a) + r == price_bytes(b) + s,
    ensures
        a == b,
        r == s,
{
    let x = price_bytes(a) + r;
    let y = price_bytes(b) + s;
    let (p, r1) = match a {
        None => (0u8, r),
        Some(m) => (1u8, u64_le(m as int) + r),
    };
    let (q, s1) = match b {
        None => (0u8, s),
        Some(n) => (1u8, u64_le(n as int) + s),
    };
    assert(x =~= seq![p] + r1);
    assert(y =~= seq![q] + s1);
    lemma_tag(x, y, p, q, r1, s1);
    if let (Some(m), Some(n)) = (a, b) {
        lemma_u64_start(m as int, r, n as int, s);
    }
}

proof fn lemma_key_option_start(a: Option<Pubkey>, r: Seq<u8>, b: Option<Pubkey>, s: Seq<u8>)
    requires
        key_option_bytes(a) + r == key_option_bytes(b) + s,
    ensures
        a == b,
        r == s,
{
    let x = key_option_bytes(a) + r;
    let y = key_option_bytes(b) + s;
    let (p, r1) = match a {
        None => (0u8, r),
        Some(m) => (1u8, m@ + r),
    };
    let (q, s1) = match b {
        None => (0u8, s),
        Some(n) => (1u8, n@ + s),
    };
    assert(x =~= seq![p] + r1);
    assert(y =~= seq![q] + s1);
    lemma_tag(x, y, p, q, r1, s1);
    if let (Some(m), Some(n)) = (a, b) {
        lemma_key_start(m, r, n, s);
    }
}

/// The byte that tells an end date from an end amount, and the number behind it.
spec fn end_parts(e: EndSettings) -> (u8, int) {
    match e {
        EndSettings::Date(date) => (0, i64_bits(date)),
        EndSettings::Amount(amount) => (1, amount as int),
    }
}

proof fn lemma_end_start(a: Option<EndSettings>, r: Seq<u8>, b: Option<EndSettings>, s: Seq<u8>)
    requires
        end_option_bytes(a) + r == end_option_bytes(b) + s,
    ensures
        a == b,
        r == s,
{
    let x = end_option_bytes(a) + r;
    let y = end_option_bytes(b) + s;
    let (p, r1) = match a {
        None => (0u8, r),
        Some(m) => (1u8, seq![end_parts(m).0] + (u64_le(end_parts(m).1) + r)),
    };
    let (q, s1) = match b {
        None => (0u8, s),
        Some(n) => (1u8, seq![end_parts(n).0] + (u64_le(end_parts(n).1) + s)),
    };
    assert(x =~= seq![p] + r1);
    assert(y =~= seq![q] + s1);
    lemma_tag(x, y, p, q, r1, s1);
    if let (Some(m), Some(n)) = (a, b) {
        let (d, k) = end_parts(m);
        let (e, l) = end_parts(n);
        lemma_tag(r1, s1, d, e, u64_le(k) + r, u64_le(l) + s);
        lemma_u64_start(k, r, l, s);
    }
}

proof fn lemma_hidden_start(
    a: Option<HiddenSettingView>,
    r: Seq<u8>,
    b: Option<HiddenSettingView>,
    s: Seq<u8>,
)
    requires
        hidden_option_bytes(a) + r == hidden_option_bytes(b) + s,
        a matches Some(h) ==> fits_borsh(h.name) && fits_borsh(h.uri) && h.hash.len() == 32,
        b matches Some(h) ==> fits_borsh(h.name) && fits_borsh(h.uri) && h.hash.len() == 32,
    ensures
        a == b,
        r == s,
{
    let x = hidden_option_bytes(a) + r;
    let y = hidden_option_bytes(b) + s;
    let (p, r1) = match a {
        None => (0u8, r),
        Some(m) => (1u8, borsh_str(m.name) + (borsh_str(m.uri) + (m.hash + r))),
    };
    let (q, s1) = match b {
        None => (0u8, s),
        Some(n) => (1u8, borsh_str(n.name) + (borsh_str(n.uri) + (n.hash + s))),
    };
    assert(x =~= seq![p] + r1);
    assert(y =~= seq![q] + s1);
    lemma_tag(x, y, p, q, r1, s1);
    if let (Some(m), Some(n)) = (a, b) {
        lemma_str_start(
            m.name,
            borsh_str(m.uri) + (m.hash + r),
            n.name,
            borsh_str(n.uri) + (n.hash + s),
        );
        lemma_str_start(m.uri, m.hash + r, n.uri, n.hash + s);
        lemma_same_start(m.hash, r, n.hash, s);
    }
}

proof fn lemma_whitelist_start(
    a: Option<WhitelistMintSettings>,
    r: Seq<u8>,
    b: Option<WhitelistMintSettings>,
    s: Seq<u8>,
)
    requires
        whitelist_option_bytes(a) + r == whitelist_option_bytes(b) + s,
    ensures
        a == b,
        r == s,
{
    let x = whitelist_option_bytes(a) + r;
    let y = whitelist_option_bytes(b) + s;
    let (p, r1) = match a {
        None => (0u8, r),
        Some(m) => (1u8, whitelist_bytes(m) + r),
    };
    let (q, s1) = match b {
        None => (0u8, s),
        Some(n) => (1u8, whitelist_bytes(n) + s),
    };
    assert(x =~= seq![p] + r1);
    assert(y =~= seq![q] + s1);
    lemma_tag(x, y, p, q, r1, s1);
    if let (Some(m), Some(n)) = (a, b) {
        lemma_whitelist_settings_start(m, r, n, s);
    }
}

proof fn lemma_whitelist_settings_start(
    m: WhitelistMintSettings,
    r: Seq<u8>,
    n: WhitelistMintSettings,
    s: Seq<u8>,
)
    requires
        whitelist_bytes(m) + r == whitelist_bytes(n) + s,
    ensures
        m == n,
        r == s,
{
    let r3 = price_bytes(m.discount_price) + r;
    let s3 = price_bytes(n.discount_price) + s;
    let r2 = bool_bytes(m.presale) + r3;
    let s2 = bool_bytes(n.presale) + s3;
    let r1 = m.mint@ + r2;
    let s1 = n.mint@ + s2;
    lemma_regroup_four(
        seq![mode_byte(m)],
        m.mint@,
        bool_bytes(m.presale),
        price_bytes(m.discount_price),
        r,
    );
    lemma_regroup_four(
        seq![mode_byte(n)],
        n.mint@,
        bool_bytes(n.presale),
        price_bytes(n.discount_price),
        s,
    );
    lemma_tag(
        seq![mode_byte(m)] + r1,
        seq![mode_byte(n)] + s1,
        mode_byte(m),
        mode_byte(n),
        r1,
        s1,
    );
    lemma_key_start(m.mint, r2, n.mint, s2);
    lemma_bool_start(m.presale, r3, n.presale, s3);
    lemma_price_start(m.discount_price, r, n.discount_price, s);
}

/// Four pieces one behind the other, put together from the front or from the back.
pub(crate) proof fn lemma_regroup_four(a: Seq<u8>, b: Seq<u8>, c: Seq<u8>, d: Seq<u8>, r: Seq<u8>)
    ensures
        (a + b + c + d) + r == a + (b + (c + (d + r))),
{
    assert((a + b + c + d) + r =~= a + (b + (c + (d + r))));
}

/// The byte that tells what becomes of the whitelist token.
spec fn mode_byte(w: WhitelistMintSettings) -> u8 {
    if w.mode == WhitelistMintMode::BurnEveryTime {
        0
    } else {
        1
    }
}

proof fn lemma_creators_start(a: Seq<Creator>, r: Seq<u8>, b: Seq<Creator>, s: Seq<u8>)
    requires
        a.len() == b.len(),
        creators_bytes(a) + r == creators_bytes(b) + s,
    ensures
        a == b,
        r == s,
    decreases a.len(),
{
    if a.len() == 0 {
        assert(a =~= b);
        lemma_same_start(creators_bytes(a), r, creators_bytes(b), s);
    } else {
        let c = a.last();
        let d = b.last();
        let r1 = c.address@ + (bool_bytes(c.verified) + (seq![c.share] + r));
        let s1 = d.address@ + (bool_bytes(d.verified) + (seq![d.share] + s));
        assert(creators_bytes(a) + r =~= creators_bytes(a.drop_last()) + r1);
        assert(creators_bytes(b) + s =~= creators_bytes(b.drop_last()) + s1);
        lemma_creators_start(a.drop_last(), r1, b.drop_last(), s1);
        lemma_key_start(
            c.address,
            bool_bytes(c.verified) + (seq![c.share] + r),
            d.address,
            bool_bytes(d.verified) + (seq![d.share] + s),
        );
        lemma_bool_start(c.verified, seq![c.share] + r, d.verified, seq![d.share] + s);
        lemma_tag(seq![c.share] + r, seq![d.share] + s, c.share, d.share, r, s);
        assert(a =~= a.drop_last().push(c));
        assert(b =~= b.drop_last().push(d));
    }
}

/// Eight pieces one behind the other, put together from the front or from the back.
pub(crate) proof fn lemma_regroup(
    a: Seq<u8>,
    b: Seq<u8>,
    c: Seq<u8>,
    d: Seq<u8>,
    e: Seq<u8>,
    f: Seq<u8>,
    g: Seq<u8>,
    h: Seq<u8>,
    r: Seq<u8>,
)
    ensures
        (a + b + c + d + e + f + g + h) + r == a + (b + (c + (d + (e + (f + (g + (h + r))))))),
{
    let t6 = g + (h + r);
    let t5 = f + t6;
    let t4 = e + t5;
    let t3 = d + t4;
    let t2 = c + t3;
    let t1 = b + t2;
    assert((a + b + c + d + e + f + g + h) + r =~= (a + b + c + d + e + f) + t6);
    assert((a + b + c + d + e + f) + t6 =~= (a + b + c + d) + t4);
    assert((a + b + c + d) + t4 =~= (a + b) + t2);
    assert((a + b) + t2 =~= a + t1);
}

proof fn lemma_fixed_start(
    a: CandyMachineDataView,
    r: Seq<u8>,
    b: CandyMachineDataView,
    s: Seq<u8>,
)
    requires
        fits_borsh(a.uuid) && fits_borsh(a.symbol),
        fits_borsh(b.uuid) && fits_borsh(b.symbol),
        fixed_bytes(a) + r == fixed_bytes(b) + s,
    ensures
        a.uuid == b.uuid,
        a.price == b.price,
        a.symbol == b.symbol,
        a.seller_fee_basis_points == b.seller_fee_basis_points,
        a.max_supply == b.max_supply,
        a.is_mutable == b.is_mutable,
        a.retain_authority == b.retain_authority,
        a.use_captcha == b.use_captcha,
        r == s,
{
    lemma_regroup(
        borsh_str(a.uuid),
        u64_le(a.price as int),
        borsh_str(a.symbol),
        u16_le(a.seller_fee_basis_points as int),
        u64_le(a.max_supply as int),
        bool_bytes(a.is_mutable),
        bool_bytes(a.retain_authority),
        bool_bytes(a.use_captcha),
        r,
    );
    lemma_regroup(
        borsh_str(b.uuid),
        u64_le(b.price as int),
        borsh_str(b.symbol),
        u16_le(b.seller_fee_basis_points as int),
        u64_le(b.max_supply as int),
        bool_bytes(b.is_mutable),
        bool_bytes(b.retain_authority),
        bool_bytes(b.use_captcha),
        s,
    );
    let r7 = bool_bytes(a.use_captcha) + r;
    let s7 = bool_bytes(b.use_captcha) + s;
    let r6 = bool_bytes(a.retain_authority) + r7;
    let s6 = bool_bytes(b.retain_authority) + s7;
    let r5 = bool_bytes(a.is_mutable) + r6;
    let s5 = bool_bytes(b.is_mutable) + s6;
    let r4 = u64_le(a.max_supply as int) + r5;
    let s4 = u64_le(b.max_supply as int) + s5;
    let r3 = u16_le(a.seller_fee_basis_points as int) + r4;
    let s3 = u16_le(b.seller_fee_basis_points as int) + s4;
    let r2 = borsh_str(a.symbol) + r3;
    let s2 = borsh_str(b.symbol) + s3;
    let r1 = u64_le(a.price as int) + r2;
    let s1 = u64_le(b.price as int) + s2;
    lemma_str_start(a.uuid, r1, b.uuid, s1);
    lemma_u64_start(a.price as int, r2, b.price as int, s2);
    lemma_str_start(a.symbol, r3, b.symbol, s3);
    lemma_u16_start(a.seller_fee_basis_points, r4, b.seller_fee_basis_points, s4);
    lemma_u64_start(a.max_supply as int, r5, b.max_supply as int, s5);
    lemma_bool_start(a.is_mutable, r6, b.is_mutable, s6);
    lemma_bool_start(a.retain_authority, r7, b.retain_authority, s7);
    lemma_bool_start(a.use_captcha, r, b.use_captcha, s);
}

/// Whether the settings can be encoded, and the hash of a hidden setting has its length.
pub open spec fn is_storable(d: CandyMachineDataView) -> bool {
    encodable(d) && (d.hidden_setting matches Some(h) ==> h.hash.len() == 32)
}

/// Settings are read back from their encoding, whatever stands behind it: no two settings have
/// encodings of which one could be taken for the other.
pub proof fn law_encoding_determines_settings(
    a: CandyMachineDataView,
    r: Seq<u8>,
    b: CandyMachineDataView,
    s: Seq<u8>,
)
    requires
        is_storable(a),
        is_storable(b),
        data_bytes(a) + r == data_bytes(b) + s,
    ensures
        a == b,
        r == s,
{
    lemma_regroup(
        fixed_bytes(a),
        date_option_bytes(a.go_live_date),
        end_option_bytes(a.end_settings),
        u32_le(a.creators.len() as int),
        creators_bytes(a.creators),
        hidden_option_bytes(a.hidden_setting),
        whitelist_option_bytes(a.whitelist_mint_settings),
        u64_le(a.items_available as int),
        r,
    );
    lemma_regroup(
        fixed_bytes(b),
        date_option_bytes(b.go_live_date),
        end_option_bytes(b.end_settings),
        u32_le(b.creators.len() as int),
        creators_bytes(b.creators),
        hidden_option_bytes(b.hidden_setting),
        whitelist_option_bytes(b.whitelist_mint_settings),
        u64_le(b.items_available as int),
        s,
    );
    let r7 = u64_le(a.items_available as int) + r;
    let s7 = u64_le(b.items_available as int) + s;
    let r6 = whitelist_option_bytes(a.whitelist_mint_settings) + r7;
    let s6 = whitelist_option_bytes(b.whitelist_mint_settings) + s7;
    let r5 = hidden_option_bytes(a.hidden_setting) + r6;
    let s5 = hidden_option_bytes(b.hidden_setting) + s6;
    let r4 = creators_bytes(a.creators) + r5;
    let s4 = creators_bytes(b.creators) + s5;
    let r3 = u32_le(a.creators.len() as int) + r4;
    let s3 = u32_le(b.creators.len() as int) + s4;
    let r2 = end_option_bytes(a.end_settings) + r3;
    let s2 = end_option_bytes(b.end_settings) + s3;
    let r1 = date_option_bytes(a.go_live_date) + r2;
    let s1 = date_option_bytes(b.go_live_date) + s2;
    lemma_fixed_start(a, r1, b, s1);
    lemma_date_start(a.go_live_date, r2, b.go_live_date, s2);
    lemma_end_start(a.end_settings, r3, b.end_settings, s3);
    lemma_u32_start(a.creators.len() as int, r4, b.creators.len() as int, s4);
    lemma_creators_start(a.creators, r5, b.creators, s5);
    lemma_hidden_start(a.hidden_setting, r6, b.hidden_setting, s6);
    lemma_whitelist_start(a.whitelist_mint_settings, r7, b.whitelist_mint_settings, s7);
    lemma_u64_start(a.items_available as int, r, b.items_available as int, s);
}

/// The pieces of the head of an account.
pub(crate) proof fn lemma_header_parts(m: CandyMachineView, r: Seq<u8>)
    ensures
        header_bytes(m) + r == DISCRIMINATOR@ + (m.authority@ + (m.wallet@ + (key_option_bytes(
            m.token_mint,
        ) + (u64_le(m.items_redeemed as int) + (data_bytes(m.data) + r))))),
{
    let data = data_bytes(m.data);
    let redeemed = u64_le(m.items_redeemed as int);
    let mint = key_option_bytes(m.token_mint);
    lemma_regroup_four(m.authority@, m.wallet@, mint, redeemed, data + r);
    assert(header_bytes(m) + r =~= DISCRIMINATOR@ + ((m.authority@ + m.wallet@ + mint + redeemed)
        + (data + r)));
}

/// The head of an account determines the candy machine that it holds: no two candy machines
/// are stored as the same bytes, whatever stands behind them.
pub proof fn law_header_determines_machine(
    m: CandyMachineView,
    r: Seq<u8>,
    n: CandyMachineView,
    s: Seq<u8>,
)
    requires
        is_storable(m.data),
        is_storable(n.data),
        header_bytes(m) + r == header_bytes(n) + s,
    ensures
        m == n,
        r == s,
{
    let r3 = data_bytes(m.data) + r;
    let s3 = data_bytes(n.data) + s;
    let r2 = u64_le(m.items_redeemed as int) + r3;
    let s2 = u64_le(n.items_redeemed as int) + s3;
    let r1 = key_option_bytes(m.token_mint) + r2;
    let s1 = key_option_bytes(n.token_mint) + s2;
    let r0 = m.wallet@ + r1;
    let s0 = n.wallet@ + s1;
    lemma_header_parts(m, r);
    lemma_header_parts(n, s);
    lemma_same_start(
        DISCRIMINATOR@,
        m.authority@ + r0,
        DISCRIMINATOR@,
        n.authority@ + s0,
    );
    lemma_key_start(m.authority, r0, n.authority, s0);
    lemma_key_start(m.wallet, r1, n.wallet, s1);
    lemma_key_option_start(m.token_mint, r2, n.token_mint, s2);
    lemma_u64_start(m.items_redeemed as int, r3, n.items_redeemed as int, s3);
    law_encoding_determines_settings(m.data, r, n.data, s);
}

} // verus!
