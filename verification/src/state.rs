//! The state of a candy machine and the bytes that it is stored as.
use crate::codec::{
    borsh_str, borsh_string, fits_borsh, i64_bits, i64_bytes, u16_bytes, u16_le, u32_bytes, u32_le,
    u64_bytes, u64_le,
};
use crate::pubkey::Pubkey;
use vstd::prelude::*;
use vstd::utf8::*;

verus! {

/// What becomes of the whitelist token when an item is sold for it.
#[derive(Clone, Copy, Debug, PartialEq, Eq, Structural)]
pub enum WhitelistMintMode {
    BurnEveryTime,
    NeverBurn,
}

/// What the holders of a whitelist token may do.
#[derive(Clone, Copy, Debug)]
pub struct WhitelistMintSettings {
    pub mode: WhitelistMintMode,
    /// The mint of the whitelist token.
    pub mint: Pubkey,
    /// Whether the holders may buy before the sale is open to all.
    pub presale: bool,
    /// What the holders pay in place of the price, where it differs.
    pub discount_price: Option<u64>,
}

/// When the sale ends.
#[derive(Clone, Copy, Debug)]
pub enum EndSettings {
    Date(i64),
    Amount(u64),
}

/// A creator of the collection.
#[derive(Clone, Copy, Debug)]
pub struct Creator {
    pub address: Pubkey,
    pub verified: bool,
    /// In percent, not in basis points.
    pub share: u8,
}

/// What every item is called while its real name is kept back.
#[derive(Clone, Debug)]
pub struct HiddenSetting {
    pub name: String,
    pub uri: String,
    /// A hash of the order in which the items will be revealed.
    pub hash: [u8; 32],
}

impl Default for HiddenSetting {
    fn default() -> (r: Self)
        ensures
            r.name@ == Seq::<char>::empty(),
            r.uri@ == Seq::<char>::empty(),
            r.hash@ == Seq::new(32, |i: int| 0u8),
    {
        let r = HiddenSetting { name: String::new(), uri: String::new(), hash: [0u8; 32] };
        assert(r.hash@ =~= Seq::new(32, |i: int| 0u8));
        r
    }
}

/// How a candy machine is set up.
#[derive(Clone, Debug)]
pub struct CandyMachineData {
    pub uuid: String,
    pub price: u64,
    /// The symbol for the asset
    pub symbol: String,
    /// Royalty basis points that goes to creators in secondary sales (0-10000)
    pub seller_fee_basis_points: u16,
    pub max_supply: u64,
    pub is_mutable: bool,
    pub retain_authority: bool,
    pub use_captcha: bool,
    pub go_live_date: Option<i64>,
    pub end_settings: Option<EndSettings>,
    pub creators: Vec<Creator>,
    pub hidden_setting: Option<HiddenSetting>,
    pub whitelist_mint_settings: Option<WhitelistMintSettings>,
    pub items_available: u64,
}

/// The head of a candy machine account. Behind it the account holds the number of config lines
/// that are filled in, the config lines, the number of bytes of a bit mask, and the bit mask
/// that records which config lines have ever been filled in.
#[derive(Clone, Debug)]
pub struct CandyMachine {
    pub authority: Pubkey,
    pub wallet: Pubkey,
    pub token_mint: Option<Pubkey>,
    pub items_redeemed: u64,
    pub data: CandyMachineData,
}

/// What a [`HiddenSetting`] holds.
#[verifier::ext_equal]
pub struct HiddenSettingView {
    pub name: Seq<char>,
    pub uri: Seq<char>,
    pub hash: Seq<u8>,
}

impl View for HiddenSetting {
    type V = HiddenSettingView;

    open spec fn view(&self) -> HiddenSettingView {
        HiddenSettingView { name: self.name@, uri: self.uri@, hash: self.hash@ }
    }
}

/// What a [`CandyMachineData`] holds.
#[verifier::ext_equal]
pub struct CandyMachineDataView {
    pub uuid: Seq<char>,
    pub price: u64,
    pub symbol: Seq<char>,
    pub seller_fee_basis_points: u16,
    pub max_supply: u64,
    pub is_mutable: bool,
    pub retain_authority: bool,
    pub use_captcha: bool,
    pub go_live_date: Option<i64>,
    pub end_settings: Option<EndSettings>,
    pub creators: Seq<Creator>,
    pub hidden_setting: Option<HiddenSettingView>,
    pub whitelist_mint_settings: Option<WhitelistMintSettings>,
    pub items_available: u64,
}

impl View for CandyMachineData {
    type V = CandyMachineDataView;

    open spec fn view(&self) -> CandyMachineDataView {
        CandyMachineDataView {
            uuid: self.uuid@,
            price: self.price,
            symbol: self.symbol@,
            seller_fee_basis_points: self.seller_fee_basis_points,
            max_supply: self.max_supply,
            is_mutable: self.is_mutable,
            retain_authority: self.retain_authority,
            use_captcha: self.use_captcha,
            go_live_date: self.go_live_date,
            end_settings: self.end_settings,
            creators: self.creators@,
            hidden_setting: match self.hidden_setting {
                Some(h) => Some(h@),
                None => None,
            },
            whitelist_mint_settings: self.whitelist_mint_settings,
            items_available: self.items_available,
        }
    }
}

/// What a [`CandyMachine`] holds.
#[verifier::ext_equal]
pub struct CandyMachineView {
    pub authority: Pubkey,
    pub wallet: Pubkey,
    pub token_mint: Option<Pubkey>,
    pub items_redeemed: u64,
    pub data: CandyMachineDataView,
}

impl View for CandyMachine {
    type V = CandyMachineView;

    open spec fn view(&self) -> CandyMachineView {
        CandyMachineView {
            authority: self.authority,
            wallet: self.wallet,
            token_mint: self.token_mint,
            items_redeemed: self.items_redeemed,
            data: self.data@,
        }
    }
}

/// The first bytes of every candy machine account, which tell it from other accounts: the
/// first bytes of the SHA-256 hash of `account:CandyMachine`.
pub const DISCRIMINATOR: [u8; 8] = [51, 173, 177, 113, 25, 241, 109, 189];

/// One byte for a truth value.
pub open spec fn bool_bytes(b: bool) -> Seq<u8> {
    seq![if b { 1u8 } else { 0u8 }]
}

/// The encoding of an optional value: a byte that tells whether there is one, then the value.
pub open spec fn option_bytes(value: Option<Seq<u8>>) -> Seq<u8> {
    match value {
        None => seq![0u8],
        Some(b) => seq![1u8] + b,
    }
}

/// The encoding of an end setting.
pub open spec fn end_settings_bytes(e: EndSettings) -> Seq<u8> {
    match e {
        EndSettings::Date(date) => seq![0u8] + u64_le(i64_bits(date)),
        EndSettings::Amount(amount) => seq![1u8] + u64_le(amount as int),
    }
}

/// The encoding of a creator.
pub open spec fn creator_bytes(c: Creator) -> Seq<u8> {
    c.address@ + bool_bytes(c.verified) + seq![c.share]
}

/// The encodings of creators one behind the other.
pub open spec fn creators_bytes(creators: Seq<Creator>) -> Seq<u8>
    decreases creators.len(),
{
    if creators.len() == 0 {
        seq![]
    } else {
        creators_bytes(creators.drop_last()) + creator_bytes(creators.last())
    }
}

/// The encoding of a hidden setting.
pub open spec fn hidden_bytes(h: HiddenSettingView) -> Seq<u8> {
    borsh_str(h.name) + borsh_str(h.uri) + h.hash
}

/// The encoding of an optional price.
pub open spec fn price_bytes(price: Option<u64>) -> Seq<u8> {
    match price {
        None => option_bytes(None),
        Some(n) => option_bytes(Some(u64_le(n as int))),
    }
}

/// The encoding of whitelist settings.
pub open spec fn whitelist_bytes(w: WhitelistMintSettings) -> Seq<u8> {
    seq![if w.mode == WhitelistMintMode::BurnEveryTime { 0u8 } else { 1u8 }] + w.mint@
        + bool_bytes(w.presale) + price_bytes(w.discount_price)
}

/// The encoding of an optional date.
pub open spec fn date_option_bytes(date: Option<i64>) -> Seq<u8> {
    match date {
        None => option_bytes(None),
        Some(n) => option_bytes(Some(u64_le(i64_bits(n)))),
    }
}

/// The encoding of an optional end setting.
pub open spec fn end_option_bytes(end_settings: Option<EndSettings>) -> Seq<u8> {
    match end_settings {
        None => option_bytes(None),
        Some(e) => option_bytes(Some(end_settings_bytes(e))),
    }
}

/// The encoding of an optional hidden setting.
pub open spec fn hidden_option_bytes(hidden: Option<HiddenSettingView>) -> Seq<u8> {
    match hidden {
        None => option_bytes(None),
        Some(h) => option_bytes(Some(hidden_bytes(h))),
    }
}

/// The encoding of optional whitelist settings.
pub open spec fn whitelist_option_bytes(whitelist: Option<WhitelistMintSettings>) -> Seq<u8> {
    match whitelist {
        None => option_bytes(None),
        Some(w) => option_bytes(Some(whitelist_bytes(w))),
    }
}

/// The encoding of an optional address.
pub open spec fn key_option_bytes(key: Option<Pubkey>) -> Seq<u8> {
    match key {
        None => option_bytes(None),
        Some(k) => option_bytes(Some(k@)),
    }
}

/// The encoding of those settings that are always there.
pub open spec fn fixed_bytes(d: CandyMachineDataView) -> Seq<u8> {
    borsh_str(d.uuid) + u64_le(d.price as int) + borsh_str(d.symbol) + u16_le(
        d.seller_fee_basis_points as int,
    ) + u64_le(d.max_supply as int) + bool_bytes(d.is_mutable) + bool_bytes(d.retain_authority)
        + bool_bytes(d.use_captcha)
}

/// The encoding of the settings of a candy machine.
pub open spec fn data_bytes(d: CandyMachineDataView) -> Seq<u8> {
    fixed_bytes(d) + date_option_bytes(d.go_live_date) + end_option_bytes(d.end_settings) + u32_le(
        d.creators.len() as int,
    ) + creators_bytes(d.creators) + hidden_option_bytes(d.hidden_setting)
        + whitelist_option_bytes(d.whitelist_mint_settings) + u64_le(d.items_available as int)
}

/// The encoding of a candy machine, without the discriminator.
pub open spec fn machine_bytes(m: CandyMachineView) -> Seq<u8> {
    m.authority@ + m.wallet@ + key_option_bytes(m.token_mint) + u64_le(m.items_redeemed as int)
        + data_bytes(m.data)
}

/// The head of the account that holds a candy machine.
pub open spec fn header_bytes(m: CandyMachineView) -> Seq<u8> {
    DISCRIMINATOR@ + machine_bytes(m)
}

/// The number of bytes of the encoded creators.
pub proof fn lemma_creators_len(creators: Seq<Creator>)
    ensures
        creators_bytes(creators).len() == 34 * creators.len(),
    decreases creators.len(),
{
    if creators.len() > 0 {
        lemma_creators_len(creators.drop_last());
    }
}

/// The number of bytes of encoded settings.
pub open spec fn data_len(d: CandyMachineDataView) -> int {
    45 + encode_utf8(d.uuid).len() + encode_utf8(d.symbol).len() + 34 * d.creators.len()
        + if d.go_live_date is Some {
        8int
    } else {
        0
    } + if d.end_settings is Some {
        9int
    } else {
        0
    } + match d.hidden_setting {
        None => 0,
        Some(h) => 40 + encode_utf8(h.name).len() + encode_utf8(h.uri).len(),
    } + match d.whitelist_mint_settings {
        None => 0,
        Some(w) => 35 + if w.discount_price is Some {
            8int
        } else {
            0
        },
    }
}

/// The number of bytes of the encoding of those settings that are always there.
proof fn lemma_fixed_len(d: CandyMachineDataView)
    ensures
        fixed_bytes(d).len() == 29 + encode_utf8(d.uuid).len() + encode_utf8(d.symbol).len(),
{
}

/// The number of bytes of an encoded optional hidden setting.
proof fn lemma_hidden_len(hidden: Option<HiddenSettingView>)
    requires
        hidden matches Some(h) ==> h.hash.len() == 32,
    ensures
        hidden_option_bytes(hidden).len() == 1 + match hidden {
            None => 0,
            Some(h) => 40 + encode_utf8(h.name).len() + encode_utf8(h.uri).len(),
        },
{
}

/// The number of bytes of encoded optional whitelist settings.
proof fn lemma_whitelist_len(whitelist: Option<WhitelistMintSettings>)
    ensures
        whitelist_option_bytes(whitelist).len() == 1 + match whitelist {
            None => 0,
            Some(w) => 35 + if w.discount_price is Some {
                8int
            } else {
                0
            },
        },
{
}

/// The number of bytes of eight pieces one behind the other.
proof fn lemma_eight_pieces(
    a: Seq<u8>,
    b: Seq<u8>,
    c: Seq<u8>,
    d: Seq<u8>,
    e: Seq<u8>,
    f: Seq<u8>,
    g: Seq<u8>,
    h: Seq<u8>,
)
    ensures
        (a + b + c + d + e + f + g + h).len() == a.len() + b.len() + c.len() + d.len() + e.len()
            + f.len() + g.len() + h.len(),
{
}

/// The number of bytes of an encoded optional date and an encoded optional end setting.
proof fn lemma_times_len(date: Option<i64>, end_settings: Option<EndSettings>)
    ensures
        date_option_bytes(date).len() == 1 + if date is Some {
            8int
        } else {
            0
        },
        end_option_bytes(end_settings).len() == 1 + if end_settings is Some {
            9int
        } else {
            0
        },
{
}

/// The number of bytes of encoded settings.
pub proof fn lemma_data_len(d: CandyMachineDataView)
    requires
        d.hidden_setting matches Some(h) ==> h.hash.len() == 32,
    ensures
        data_bytes(d).len() == data_len(d),
{
    lemma_fixed_len(d);
    lemma_times_len(d.go_live_date, d.end_settings);
    lemma_creators_len(d.creators);
    lemma_hidden_len(d.hidden_setting);
    lemma_whitelist_len(d.whitelist_mint_settings);
    lemma_eight_pieces(
        fixed_bytes(d),
        date_option_bytes(d.go_live_date),
        end_option_bytes(d.end_settings),
        u32_le(d.creators.len() as int),
        creators_bytes(d.creators),
        hidden_option_bytes(d.hidden_setting),
        whitelist_option_bytes(d.whitelist_mint_settings),
        u64_le(d.items_available as int),
    );
}

/// The number of bytes of the head of the account.
pub proof fn lemma_header_len(m: CandyMachineView)
    requires
        m.data.hidden_setting matches Some(h) ==> h.hash.len() == 32,
    ensures
        header_bytes(m).len() == 81 + if m.token_mint is Some {
            32int
        } else {
            0
        } + data_len(m.data),
{
    lemma_data_len(m.data);
}

/// Whether every part of the settings is short enough to be encoded.
pub open spec fn encodable(d: CandyMachineDataView) -> bool {
    &&& fits_borsh(d.uuid)
    &&& fits_borsh(d.symbol)
    &&& d.creators.len() <= u32::MAX
    &&& d.hidden_setting matches Some(h) ==> fits_borsh(h.name) && fits_borsh(h.uri)
}

/// Adds a copy of `bytes` at the end of `out`.
pub(crate) fn push_bytes(out: &mut Vec<u8>, bytes: &[u8])
    ensures
        final(out)@ == old(out)@ + bytes@,
{
    let ghost before = out@;
    out.extend_from_slice(bytes);
    assert(out@ =~= before + bytes@);
}

/// The byte of a truth value.
fn bool_byte(b: bool) -> (r: u8)
    ensures
        seq![r] == bool_bytes(b),
{
    if b {
        1
    } else {
        0
    }
}

/// The encoding of creators, with their number in front.
fn encode_creators(creators: &Vec<Creator>) -> (r: Vec<u8>)
    requires
        creators@.len() <= u32::MAX,
    ensures
        r@ == u32_le(creators@.len() as int) + creators_bytes(creators@),
{
    let mut out = u32_bytes(creators.len() as u32);
    let ghost head = out@;
    let mut i: usize = 0;
    while i < creators.len()
        invariant
            0 <= i <= creators@.len(),
            out@ == head + creators_bytes(creators@.take(i as int)),
        decreases creators@.len() - i,
    {
        let c = creators[i];
        let ghost before = out@;
        push_bytes(&mut out, c.address.bytes.as_slice());
        out.push(bool_byte(c.verified));
        out.push(c.share);
        proof {
            let next = creators@.take(i + 1);
            assert(next.drop_last() =~= creators@.take(i as int));
            assert(out@ =~= before + creator_bytes(c));
            assert(out@ =~= head + creators_bytes(next));
        }
        i = i + 1;
    }
    assert(creators@.take(creators@.len() as int) =~= creators@);
    out
}

/// The encoding of an optional end setting.
fn encode_end_settings(end_settings: &Option<EndSettings>) -> (r: Vec<u8>)
    ensures
        r@ == end_option_bytes(*end_settings),
{
    match end_settings {
        None => vec![0u8],
        Some(EndSettings::Date(date)) => {
            let mut out = vec![1u8, 0u8];
            let bytes = i64_bytes(*date);
            push_bytes(&mut out, bytes.as_slice());
            assert(out@ =~= seq![1u8] + (seq![0u8] + bytes@));
            out
        },
        Some(EndSettings::Amount(amount)) => {
            let mut out = vec![1u8, 1u8];
            let bytes = u64_bytes(*amount);
            push_bytes(&mut out, bytes.as_slice());
            assert(out@ =~= seq![1u8] + (seq![1u8] + bytes@));
            out
        },
    }
}

/// The encoding of an optional hidden setting.
fn encode_hidden(hidden: &Option<HiddenSetting>) -> (r: Vec<u8>)
    requires
        *hidden matches Some(h) ==> fits_borsh(h.name@) && fits_borsh(h.uri@),
    ensures
        r@ == hidden_option_bytes(
            match *hidden {
                Some(h) => Some(h@),
                None => None,
            },
        ),
{
    match hidden {
        None => vec![0u8],
        Some(h) => {
            let mut out = vec![1u8];
            push_bytes(&mut out, borsh_string(&h.name).as_slice());
            push_bytes(&mut out, borsh_string(&h.uri).as_slice());
            push_bytes(&mut out, h.hash.as_slice());
            assert(out@ =~= seq![1u8] + hidden_bytes(h@));
            out
        },
    }
}

/// The encoding of optional whitelist settings.
fn encode_whitelist(whitelist: &Option<WhitelistMintSettings>) -> (r: Vec<u8>)
    ensures
        r@ == whitelist_option_bytes(*whitelist),
{
    match whitelist {
        None => vec![0u8],
        Some(w) => {
            let mut out = vec![1u8, match w.mode {
                WhitelistMintMode::BurnEveryTime => 0u8,
                WhitelistMintMode::NeverBurn => 1u8,
            }];
            push_bytes(&mut out, w.mint.bytes.as_slice());
            out.push(bool_byte(w.presale));
            match w.discount_price {
                None => {
                    out.push(0u8);
                },
                Some(price) => {
                    out.push(1u8);
                    push_bytes(&mut out, u64_bytes(price).as_slice());
                },
            }
            assert(out@ =~= seq![1u8] + whitelist_bytes(*w));
            out
        },
    }
}

impl CandyMachineData {
    /// The encoding of the settings.
    pub fn to_bytes(&self) -> (r: Vec<u8>)
        requires
            encodable(self@),
        ensures
            r@ == data_bytes(self@),
    {
        let mut out = borsh_string(&self.uuid);
        push_bytes(&mut out, u64_bytes(self.price).as_slice());
        push_bytes(&mut out, borsh_string(&self.symbol).as_slice());
        push_bytes(&mut out, u16_bytes(self.seller_fee_basis_points).as_slice());
        push_bytes(&mut out, u64_bytes(self.max_supply).as_slice());
        out.push(bool_byte(self.is_mutable));
        out.push(bool_byte(self.retain_authority));
        out.push(bool_byte(self.use_captcha));
        let ghost before = out@;
        assert(before =~= fixed_bytes(self@));
        match self.go_live_date {
            None => {
                out.push(0u8);
                assert(out@ =~= before + date_option_bytes(None));
            },
            Some(date) => {
                out.push(1u8);
                push_bytes(&mut out, i64_bytes(date).as_slice());
                assert(out@ =~= before + date_option_bytes(Some(date)));
            },
        }
        push_bytes(&mut out, encode_end_settings(&self.end_settings).as_slice());
        let ghost middle = out@;
        push_bytes(&mut out, encode_creators(&self.creators).as_slice());
        assert(out@ =~= middle + u32_le(self.creators@.len() as int) + creators_bytes(
            self.creators@,
        ));
        push_bytes(&mut out, encode_hidden(&self.hidden_setting).as_slice());
        push_bytes(&mut out, encode_whitelist(&self.whitelist_mint_settings).as_slice());
        push_bytes(&mut out, u64_bytes(self.items_available).as_slice());
        out
    }
}

impl CandyMachine {
    /// The head of the account that holds this candy machine: the discriminator and the state.
    pub fn to_account_bytes(&self) -> (r: Vec<u8>)
        requires
            encodable(self.data@),
        ensures
            r@ == header_bytes(self@),
    {
        let mut out: Vec<u8> = Vec::new();
        push_bytes(&mut out, DISCRIMINATOR.as_slice());
        push_bytes(&mut out, self.authority.bytes.as_slice());
        push_bytes(&mut out, self.wallet.bytes.as_slice());
        match self.token_mint {
            None => {
                out.push(0u8);
            },
            Some(key) => {
                out.push(1u8);
                push_bytes(&mut out, key.bytes.as_slice());
            },
        }
        push_bytes(&mut out, u64_bytes(self.items_redeemed).as_slice());
        push_bytes(&mut out, self.data.to_bytes().as_slice());
        assert(out@ =~= header_bytes(self@));
        out
    }
}

} // verus!
