//! The config lines of a candy machine: the names and URIs of the items that are for sale.
use crate::accounts::AddConfigLines;
use crate::codec::{
    borsh_str, borsh_string, borsh_string_pair, parse_str_pair, read_u32, u32_at, u32_bytes, u32_le,
};
use crate::error::{ErrorCode, ProgramError};
use crate::layout::{
    count_unmarked, get_config_count, lemma_bit_or, lemma_count_unmarked_bound, lemma_line_start,
    lemma_mark_lines, line_bit, line_position, line_start, mark_lines, mask_start, starts_within,
    write_at, write_bytes, CONFIG_ARRAY_START, CONFIG_LINE_SIZE, MAX_NAME_LENGTH, MAX_URI_LENGTH,
};
use crate::state::{push_bytes, CandyMachine, HiddenSetting};
use vstd::prelude::*;
use vstd::slice::slice_subrange;
use vstd::string::*;
use vstd::utf8::*;

verus! {

/// What the metadata of an item says.
#[derive(Clone, Debug)]
pub struct ConfigLine {
    /// The name of the asset
    pub name: String,
    /// URI pointing to JSON representing the asset
    pub uri: String,
}

/// What a [`ConfigLine`] holds.
#[verifier::ext_equal]
pub struct ConfigLineView {
    pub name: Seq<char>,
    pub uri: Seq<char>,
}

impl View for ConfigLine {
    type V = ConfigLineView;

    open spec fn view(&self) -> ConfigLineView {
        ConfigLineView { name: self.name@, uri: self.uri@ }
    }
}

/// `n` null characters.
pub open spec fn nulls(n: int) -> Seq<char> {
    Seq::new(n as nat, |i: int| '\0')
}

/// `s` with null characters behind it, so that it takes up `len` bytes.
pub open spec fn padded(s: Seq<char>, len: int) -> Seq<char> {
    s + nulls(len - encode_utf8(s).len())
}

/// Whether a line is short enough to be stored.
pub open spec fn line_fits(line: ConfigLineView) -> bool {
    &&& encode_utf8(line.name).len() <= MAX_NAME_LENGTH
    &&& encode_utf8(line.uri).len() <= MAX_URI_LENGTH
}

/// A line as it is stored: with its name and its URI brought to their greatest lengths.
pub open spec fn padded_line(line: ConfigLineView) -> ConfigLineView {
    ConfigLineView {
        name: padded(line.name, MAX_NAME_LENGTH as int),
        uri: padded(line.uri, MAX_URI_LENGTH as int),
    }
}

/// The encoding of a line.
pub open spec fn line_bytes(line: ConfigLineView) -> Seq<u8> {
    borsh_str(line.name) + borsh_str(line.uri)
}

/// The bytes that a number of lines are stored as.
pub open spec fn stored_lines(lines: Seq<ConfigLine>) -> Seq<u8>
    decreases lines.len(),
{
    if lines.len() == 0 {
        seq![]
    } else {
        stored_lines(lines.drop_last()) + line_bytes(padded_line(lines.last()@))
    }
}

/// Null characters take up one byte each, which is zero.
pub proof fn lemma_nulls(n: int)
    requires
        0 <= n,
    ensures
        encode_utf8(nulls(n)) == Seq::new(n as nat, |i: int| 0u8),
{
    is_ascii_chars_encode_utf8(nulls(n));
    assert(encode_utf8(nulls(n)) =~= Seq::new(n as nat, |i: int| 0u8)) by {
        assert forall|i: int| 0 <= i < n implies encode_utf8(nulls(n))[i] == 0u8 by {
            assert(nulls(n)[i] as u8 == encode_utf8(nulls(n))[i]);
        }
    }
}

/// A padded text takes up exactly the number of bytes that it is padded to.
pub proof fn lemma_padded_len(s: Seq<char>, len: int)
    requires
        encode_utf8(s).len() <= len,
    ensures
        encode_utf8(padded(s, len)).len() == len,
{
    let n = len - encode_utf8(s).len();
    crate::codec::lemma_encode_concat(s, nulls(n));
    lemma_nulls(n);
}

/// Every stored line takes up [`CONFIG_LINE_SIZE`] bytes.
pub proof fn lemma_stored_line_len(line: ConfigLineView)
    requires
        line_fits(line),
    ensures
        line_bytes(padded_line(line)).len() == CONFIG_LINE_SIZE,
{
    lemma_padded_len(line.name, MAX_NAME_LENGTH as int);
    lemma_padded_len(line.uri, MAX_URI_LENGTH as int);
}

/// Stored lines stand one behind the other, each [`CONFIG_LINE_SIZE`] bytes long.
pub proof fn lemma_stored_lines(lines: Seq<ConfigLine>)
    requires
        forall|i: int| 0 <= i < lines.len() ==> line_fits(#[trigger] lines[i]@),
    ensures
        stored_lines(lines).len() == 240 * lines.len(),
        forall|i: int|
            0 <= i < lines.len() ==> stored_lines(lines).subrange(240 * i, 240 * i + 240)
                == line_bytes(padded_line(#[trigger] lines[i]@)),
    decreases lines.len(),
{
    if lines.len() > 0 {
        let front = lines.drop_last();
        let last = line_bytes(padded_line(lines.last()@));
        assert(line_fits(lines[lines.len() - 1]@));
        lemma_stored_line_len(lines.last()@);
        assert forall|i: int| 0 <= i < front.len() implies line_fits(#[trigger] front[i]@) by {
            assert(line_fits(lines[i]@));
        }
        lemma_stored_lines(front);
        assert forall|i: int| 0 <= i < lines.len() implies stored_lines(lines).subrange(
            240 * i,
            240 * i + 240,
        ) == line_bytes(padded_line(#[trigger] lines[i]@)) by {
            if i < lines.len() - 1 {
                assert(front[i] == lines[i]);
                assert(stored_lines(lines).subrange(240 * i, 240 * i + 240) =~= stored_lines(
                    front,
                ).subrange(240 * i, 240 * i + 240));
            } else {
                assert(stored_lines(lines).subrange(240 * i, 240 * i + 240) =~= last);
            }
        }
    }
}

/// `s` with null characters behind it, so that it takes up `len` bytes.
pub fn pad(s: &String, len: usize) -> (r: String)
    requires
        encode_utf8(s@).len() <= len,
    ensures
        r@ == padded(s@, len as int),
{
    let used: usize = s.as_str().as_bytes().len();
    let mut n: usize = used;
    let mut r = s.clone();
    assert(r@ =~= s@ + nulls(0));
    proof {
        reveal_strlit("\0");
    }
    while n < len
        invariant
            used == encode_utf8(s@).len(),
            used <= n <= len,
            r@ == s@ + nulls(n - used),
            "\0"@ =~= seq!['\0'],
        decreases len - n,
    {
        r.append("\0");
        assert(r@ =~= s@ + nulls(n + 1 - used));
        n = n + 1;
    }
    r
}

/// The number of items as the low four bytes of it give it, which is how the index of a config
/// line is compared with it.
pub open spec fn items_u32(m: CandyMachine) -> int {
    m.data.items_available as int % 4294967296
}

/// Whether config lines can be filled in at `index` at all: that is within the number of items,
/// and the items have config lines.
pub open spec fn takes_config_lines(m: CandyMachine, index: u32) -> bool {
    index < items_u32(m) && m.data.hidden_setting is None
}

/// Whether the account has room for what filling in `lines` at `index` reads and writes.
pub open spec fn has_room_for_lines(
    m: CandyMachine,
    data: Seq<u8>,
    index: u32,
    lines: Seq<ConfigLine>,
) -> bool {
    &&& CONFIG_ARRAY_START + 4 <= data.len()
    &&& items_u32(m) != 0
    &&& takes_config_lines(m, index) ==> {
        &&& forall|i: int| 0 <= i < lines.len() ==> line_fits(#[trigger] lines[i]@)
        &&& line_start(index + lines.len()) <= data.len()
        &&& mask_start(m.data.items_available as int) <= usize::MAX
        &&& lines.len() > 0 ==> mask_start(m.data.items_available as int) + (index + lines.len()
            - 1) / 8 < data.len()
    }
}

/// The account with `lines` in the place of the config lines from `index` on.
pub open spec fn with_lines(data: Seq<u8>, index: int, lines: Seq<ConfigLine>) -> Seq<u8> {
    write_at(data, line_start(index), stored_lines(lines))
}

/// The account after `lines` have been filled in at `index`: the lines stand in their places,
/// their bits are set, and the number of lines has grown by that of the bits that were not set
/// before.
pub open spec fn filled_in(data: Seq<u8>, items: int, index: int, lines: Seq<ConfigLine>) -> Seq<
    u8,
> {
    let start = mask_start(items);
    let written = with_lines(data, index, lines);
    let count = u32_at(data, CONFIG_ARRAY_START as int) + count_unmarked(
        written,
        start,
        index,
        lines.len(),
    );
    write_at(
        mark_lines(written, start, index, lines.len()),
        CONFIG_ARRAY_START as int,
        u32_le(count % 4294967296),
    )
}

/// What filling in `lines` at `index` returns, and the account after it.
pub open spec fn add_result(
    a: AddConfigLines,
    data: Seq<u8>,
    index: u32,
    lines: Seq<ConfigLine>,
) -> (Result<(), ProgramError>, Seq<u8>) {
    match a.violation() {
        Some(e) => (Err(e), data),
        None => if index >= items_u32(a.candy_machine) {
            (Err(ProgramError::Candy(ErrorCode::IndexGreaterThanLength)), data)
        } else if a.candy_machine.data.hidden_setting is Some {
            (Err(ProgramError::Candy(ErrorCode::HiddenSettingConfigsDoNotHaveConfigLines)), data)
        } else {
            (
                Ok(()),
                filled_in(
                    data,
                    a.candy_machine.data.items_available as int,
                    index as int,
                    lines,
                ),
            )
        },
    }
}

/// The bytes that `lines` are stored as.
fn store_lines(lines: &Vec<ConfigLine>) -> (r: Vec<u8>)
    requires
        forall|i: int| 0 <= i < lines@.len() ==> line_fits(#[trigger] lines@[i]@),
    ensures
        r@ == stored_lines(lines@),
{
    let mut out: Vec<u8> = Vec::new();
    let mut i: usize = 0;
    while i < lines.len()
        invariant
            0 <= i <= lines@.len(),
            forall|j: int| 0 <= j < lines@.len() ==> line_fits(#[trigger] lines@[j]@),
            out@ == stored_lines(lines@.take(i as int)),
        decreases lines@.len() - i,
    {
        let line = &lines[i];
        assert(line_fits(lines@[i as int]@));
        proof {
            lemma_padded_len(line.name@, MAX_NAME_LENGTH as int);
            lemma_padded_len(line.uri@, MAX_URI_LENGTH as int);
        }
        let ghost before = out@;
        let name = pad(&line.name, MAX_NAME_LENGTH);
        push_bytes(&mut out, borsh_string(&name).as_slice());
        let uri = pad(&line.uri, MAX_URI_LENGTH);
        push_bytes(&mut out, borsh_string(&uri).as_slice());
        proof {
            let next = lines@.take(i + 1);
            assert(next.drop_last() =~= lines@.take(i as int));
            assert(out@ =~= before + line_bytes(padded_line(line@)));
        }
        i = i + 1;
    }
    assert(lines@.take(lines@.len() as int) =~= lines@);
    out
}

/// The bit of config line `p` within its byte of the bit mask.
fn mask_bit(p: usize) -> (r: u8)
    ensures
        r == line_bit(p as int),
{
    let from_left: usize = p % 8;
    match from_left {
        0 => 128,
        1 => 64,
        2 => 32,
        3 => 16,
        4 => 8,
        5 => 4,
        6 => 2,
        _ => 1,
    }
}

/// Sets the bits of `n` config lines from `index` on in the bit mask at `start`, and returns
/// how many of them were not set.
fn mark(data: &mut [u8], start: usize, index: usize, n: usize) -> (fresh: usize)
    requires
        n > 0 ==> start + (index + n - 1) / 8 < old(data)@.len(),
        index + n <= usize::MAX,
    ensures
        final(data)@ == mark_lines(old(data)@, start as int, index as int, n as nat),
        fresh == count_unmarked(old(data)@, start as int, index as int, n as nat),
{
    let size: usize = data.len();
    let mut fresh: usize = 0;
    let mut i: usize = 0;
    while i < n
        invariant
            0 <= i <= n,
            size == old(data)@.len(),
            data@.len() == size,
            index + n <= usize::MAX,
            n > 0 ==> start + (index + n - 1) / 8 < size,
            data@ == mark_lines(old(data)@, start as int, index as int, i as nat),
            fresh == count_unmarked(old(data)@, start as int, index as int, i as nat),
            fresh <= i,
        decreases n - i,
    {
        let p: usize = index + i;
        let at: usize = start + p / 8;
        let old_value: u8 = data[at];
        let new_value: u8 = old_value | mask_bit(p);
        proof {
            lemma_mark_lines(old(data)@, start as int, index as int, i as nat);
            lemma_bit_or(old_value, p as int, p as int);
            assert(crate::layout::is_marked(data@, start as int, p as int)
                <==> crate::layout::is_marked(old(data)@, start as int, p as int));
            assert(mark_lines(old(data)@, start as int, index as int, (i + 1) as nat)
                == data@.update(at as int, new_value));
        }
        data[at] = new_value;
        if old_value != new_value {
            fresh = fresh + 1;
        }
        i = i + 1;
    }
    fresh
}

/// Writes config lines, the first of them at `index`, sets their bits and brings the number of
/// lines up to date.
fn fill_in(data: &mut [u8], count: usize, items: u64, index: u32, lines: &Vec<ConfigLine>)
    requires
        count == u32_at(old(data)@, CONFIG_ARRAY_START as int),
        CONFIG_ARRAY_START + 4 <= old(data)@.len(),
        forall|i: int| 0 <= i < lines@.len() ==> line_fits(#[trigger] lines@[i]@),
        line_start(index + lines@.len()) <= old(data)@.len(),
        mask_start(items as int) <= usize::MAX,
        lines@.len() > 0 ==> mask_start(items as int) + (index + lines@.len() - 1) / 8 < old(
            data,
        )@.len(),
    ensures
        final(data)@ == filled_in(old(data)@, items as int, index as int, lines@),
{
    let size: usize = data.len();
    proof {
        lemma_stored_lines(lines@);
        lemma_line_start(index as int);
        lemma_line_start(index + lines@.len());
        lemma_line_start(items as int);
    }
    let stored = store_lines(lines);
    write_bytes(data, line_position(index as usize), stored.as_slice());
    let ghost written = data@;
    let start: usize = line_position(items as usize) + 4;
    let fresh: usize = mark(data, start, index as usize, lines.len());
    proof {
        lemma_count_unmarked_bound(written, start as int, index as int, lines@.len());
        lemma_mark_lines(written, start as int, index as int, lines@.len());
    }
    let new_count: u64 = count as u64 + fresh as u64;
    let count_bytes = u32_bytes((new_count % 4294967296) as u32);
    write_bytes(data, CONFIG_ARRAY_START, count_bytes.as_slice());
}

/// Tests whether lines are short enough to be stored.
fn lines_fit(lines: &Vec<ConfigLine>) -> (r: bool)
    ensures
        r == forall|i: int| 0 <= i < lines@.len() ==> line_fits(#[trigger] lines@[i]@),
{
    let mut i: usize = 0;
    while i < lines.len()
        invariant
            0 <= i <= lines@.len(),
            forall|j: int| 0 <= j < i ==> line_fits(#[trigger] lines@[j]@),
        decreases lines@.len() - i,
    {
        let line = &lines[i];
        if line.name.as_str().as_bytes().len() > MAX_NAME_LENGTH
            || line.uri.as_str().as_bytes().len() > MAX_URI_LENGTH {
            assert(!line_fits(lines@[i as int]@));
            return false;
        }
        i = i + 1;
    }
    true
}

/// Tests whether the account has room for what filling in `lines` at `index` reads and writes.
pub fn can_add_config_lines(
    machine: &CandyMachine,
    data: &[u8],
    index: u32,
    lines: &Vec<ConfigLine>,
) -> (r: bool)
    ensures
        r == has_room_for_lines(*machine, data@, index, lines@),
{
    let size: usize = data.len();
    let items: u64 = machine.data.items_available;
    if size < CONFIG_ARRAY_START + 4 || items % 4294967296 == 0 {
        return false;
    }
    if index as u64 >= items % 4294967296 || machine.data.hidden_setting.is_some() {
        return true;
    }
    let n: usize = lines.len();
    proof {
        lemma_line_start(items as int);
        lemma_line_start(index + n);
    }
    if n > usize::MAX - index as usize {
        return false;
    }
    if !lines_fit(lines) || !starts_within((index as usize + n) as u64, size) || !starts_within(
        items,
        usize::MAX - 4,
    ) {
        return false;
    }
    if n == 0 {
        return true;
    }
    let start: usize = line_position(items as usize) + 4;
    start < size && (index as usize + n - 1) / 8 < size - start
}

/// Fills in config lines, the first of them at `index`.
pub fn add_config_lines(
    accounts: &AddConfigLines,
    data: &mut [u8],
    index: u32,
    config_lines: &Vec<ConfigLine>,
) -> (r: Result<(), ProgramError>)
    requires
        accounts.violation() is None ==> has_room_for_lines(
            accounts.candy_machine,
            old(data)@,
            index,
            config_lines@,
        ),
    ensures
        match accounts.violation() {
            Some(e) => r == Err::<(), ProgramError>(e) && final(data)@ == old(data)@,
            None => if index >= items_u32(accounts.candy_machine) {
                r == Err::<(), ProgramError>(
                    ProgramError::Candy(ErrorCode::IndexGreaterThanLength),
                ) && final(data)@ == old(data)@
            } else if accounts.candy_machine.data.hidden_setting is Some {
                r == Err::<(), ProgramError>(
                    ProgramError::Candy(ErrorCode::HiddenSettingConfigsDoNotHaveConfigLines),
                ) && final(data)@ == old(data)@
            } else {
                r is Ok && final(data)@ == filled_in(
                    old(data)@,
                    accounts.candy_machine.data.items_available as int,
                    index as int,
                    config_lines@,
                )
            },
        },
        r is Err ==> final(data)@ == old(data)@,
        r is Ok ==> accounts.authority == accounts.candy_machine.authority,
        r == add_result(*accounts, old(data)@, index, config_lines@).0,
        final(data)@ == add_result(*accounts, old(data)@, index, config_lines@).1,
{
    accounts.check()?;
    let machine = &accounts.candy_machine;
    let count: usize = get_config_count(data)?;
    let items: u32 = (machine.data.items_available % 4294967296) as u32;
    if index > items - 1 {
        return Err(ProgramError::Candy(ErrorCode::IndexGreaterThanLength));
    }
    if machine.data.hidden_setting.is_some() {
        return Err(ProgramError::Candy(ErrorCode::HiddenSettingConfigsDoNotHaveConfigLines));
    }
    fill_in(data, count, machine.data.items_available, index, config_lines);
    Ok(())
}

/// A decimal digit.
pub open spec fn digit(d: nat) -> char {
    if d == 0 {
        '0'
    } else if d == 1 {
        '1'
    } else if d == 2 {
        '2'
    } else if d == 3 {
        '3'
    } else if d == 4 {
        '4'
    } else if d == 5 {
        '5'
    } else if d == 6 {
        '6'
    } else if d == 7 {
        '7'
    } else if d == 8 {
        '8'
    } else {
        '9'
    }
}

/// A number in decimal digits, without leading zeros.
pub open spec fn decimal(n: nat) -> Seq<char>
    decreases n,
{
    if n < 10 {
        seq![digit(n)]
    } else {
        decimal(n / 10).push(digit(n % 10))
    }
}

/// A decimal digit as a text.
fn digit_text(d: u64) -> (r: &'static str)
    requires
        d < 10,
    ensures
        r@ == seq![digit(d as nat)],
{
    proof {
        reveal_strlit("0");
        reveal_strlit("1");
        reveal_strlit("2");
        reveal_strlit("3");
        reveal_strlit("4");
        reveal_strlit("5");
        reveal_strlit("6");
        reveal_strlit("7");
        reveal_strlit("8");
        reveal_strlit("9");
    }
    match d {
        0 => "0",
        1 => "1",
        2 => "2",
        3 => "3",
        4 => "4",
        5 => "5",
        6 => "6",
        7 => "7",
        8 => "8",
        _ => "9",
    }
}

/// Adds the decimal digits of `n` at the end of `out`.
fn append_decimal(out: &mut String, n: u64)
    ensures
        final(out)@ == old(out)@ + decimal(n as nat),
    decreases n,
{
    if n >= 10 {
        append_decimal(out, n / 10);
    }
    out.append(digit_text(n % 10));
    assert(out@ =~= old(out)@ + decimal(n as nat));
}

/// What an item of a machine with a hidden setting is called: the hidden name, a number sign
/// and how manieth item it is.
pub open spec fn hidden_name(name: Seq<char>, mint_number: u64) -> Seq<char> {
    name + seq!['#'] + decimal((mint_number + 1) as nat)
}

/// What the metadata of an item of a machine with a hidden setting says.
pub(crate) fn hidden_line(hidden: &HiddenSetting, mint_number: u64) -> (r: ConfigLine)
    requires
        mint_number < u64::MAX,
    ensures
        r.name@ == hidden_name(hidden.name@, mint_number),
        r.uri@ == hidden.uri@,
{
    let mut name = hidden.name.clone();
    proof {
        reveal_strlit("#");
    }
    name.append("#");
    assert(name@ =~= hidden.name@ + seq!['#']);
    append_decimal(&mut name, mint_number + 1);
    ConfigLine { name, uri: hidden.uri.clone() }
}

/// The line that the bytes of a config line stand for, if they stand for one.
pub open spec fn parse_line(b: Seq<u8>) -> Option<ConfigLineView> {
    match parse_str_pair(b) {
        Some((name, uri)) => Some(ConfigLineView { name, uri }),
        None => None,
    }
}

/// The config line that the account holds at `index`, if the bytes there stand for one.
pub open spec fn line_at(data: Seq<u8>, index: int) -> Option<ConfigLineView> {
    parse_line(data.subrange(line_start(index), line_start(index + 1)))
}

/// `s` without the `len` bytes from `pos` on: what stands behind them moves up, and zeros take
/// its place at the end.
pub open spec fn cut_out(s: Seq<u8>, pos: int, len: int) -> Seq<u8> {
    Seq::new(
        s.len(),
        |i: int|
            if i < pos {
                s[i]
            } else if i + len < s.len() {
                s[i + len]
            } else {
                0u8
            },
    )
}

/// The account after the config line at `index` has been taken out: what stands behind it has
/// moved up, and there is one line less.
pub open spec fn taken_out(data: Seq<u8>, index: int) -> Seq<u8> {
    write_at(
        cut_out(data, line_start(index), CONFIG_LINE_SIZE as int),
        CONFIG_ARRAY_START as int,
        u32_le(u32_at(data, CONFIG_ARRAY_START as int) - 1),
    )
}

/// Whether the config line at `index` can be read from the account and taken out of it. A
/// machine with a hidden setting reads nothing, but counts the item.
pub open spec fn has_line_to_take(
    m: CandyMachine,
    data: Seq<u8>,
    index: usize,
    mint_number: u64,
) -> bool {
    if m.data.hidden_setting is Some {
        mint_number < u64::MAX
    } else {
        let total = u32_at(data, CONFIG_ARRAY_START as int);
        &&& CONFIG_ARRAY_START + 4 <= data.len()
        &&& index <= total ==> {
            &&& line_start(index + 1) <= data.len()
            &&& line_at(data, index as int) is Some ==> total > 0
        }
    }
}

/// What taking out the config line at `index` gives, and the account after it.
pub open spec fn take_result(m: CandyMachine, data: Seq<u8>, index: int, mint_number: u64) -> (
    Result<ConfigLineView, ProgramError>,
    Seq<u8>,
) {
    match m.data.hidden_setting {
        Some(hidden) => (
            Ok(
                ConfigLineView {
                    name: hidden_name(hidden.name@, mint_number),
                    uri: hidden.uri@,
                },
            ),
            data,
        ),
        None => if index > u32_at(data, CONFIG_ARRAY_START as int) {
            (Err(ProgramError::Candy(ErrorCode::IndexGreaterThanLength)), data)
        } else {
            match line_at(data, index) {
                None => (Err(ProgramError::BorshIoError), data),
                Some(line) => (Ok(line), taken_out(data, index)),
            }
        },
    }
}

/// What a line that was read, or the reason why none was, holds.
pub open spec fn line_result(r: Result<ConfigLine, ProgramError>) -> Result<
    ConfigLineView,
    ProgramError,
> {
    match r {
        Ok(line) => Ok(line@),
        Err(e) => Err(e),
    }
}

/// Takes the `len` bytes from `pos` on out of `data`.
fn cut(data: &mut [u8], pos: usize, len: usize)
    requires
        pos + len <= old(data)@.len(),
    ensures
        final(data)@ == cut_out(old(data)@, pos as int, len as int),
{
    let size: usize = data.len();
    let mut i: usize = pos;
    while i < size
        invariant
            pos <= i <= size,
            size == old(data)@.len(),
            data@.len() == size,
            pos + len <= size,
            forall|j: int| 0 <= j < pos ==> data@[j] == old(data)@[j],
            forall|j: int|
                pos <= j < i ==> data@[j] == (if j + len < size {
                    old(data)@[j + len]
                } else {
                    0u8
                }),
            forall|j: int| i <= j < size ==> data@[j] == old(data)@[j],
        decreases size - i,
    {
        if i < size - len {
            data[i] = data[i + len];
        } else {
            data[i] = 0u8;
        }
        i = i + 1;
    }
    assert(data@ =~= cut_out(old(data)@, pos as int, len as int));
}

/// Reads the config line that the account holds at `index`.
pub(crate) fn read_line(data: &[u8], index: usize) -> (r: Result<ConfigLine, ProgramError>)
    requires
        line_start(index + 1) <= data@.len(),
    ensures
        match line_at(data@, index as int) {
            None => r == Err::<ConfigLine, ProgramError>(ProgramError::BorshIoError),
            Some(line) => r matches Ok(read) && read@ == line,
        },
{
    proof {
        lemma_line_start(index as int);
        lemma_line_start(index + 1);
    }
    let size: usize = data.len();
    let start: usize = line_position(index);
    match borsh_string_pair(slice_subrange(data, start, start + CONFIG_LINE_SIZE)) {
        Err(_) => Err(ProgramError::BorshIoError),
        Ok((name, uri)) => Ok(ConfigLine { name, uri }),
    }
}

/// Tests whether the config line at `index` can be read from the account and taken out of it.
pub fn can_take_config_line(a: &CandyMachine, data: &[u8], index: usize, mint_number: u64) -> (r:
    bool)
    ensures
        r == has_line_to_take(*a, data@, index, mint_number),
{
    if a.data.hidden_setting.is_some() {
        return mint_number < u64::MAX;
    }
    let size: usize = data.len();
    if size < CONFIG_ARRAY_START + 4 {
        return false;
    }
    let total: u32 = read_u32(data, CONFIG_ARRAY_START);
    if index as u64 > total as u64 {
        return true;
    }
    if !starts_within(index as u64 + 1, size) {
        return false;
    }
    total > 0 || read_line(data, index).is_err()
}

/// What the metadata of an item says: for a machine with a hidden setting the hidden name with
/// the number of the item, for any other the config line at `index`, which is taken out of the
/// account.
pub fn get_config_line(
    a: &CandyMachine,
    data: &mut [u8],
    index: usize,
    mint_number: u64,
) -> (r: Result<ConfigLine, ProgramError>)
    requires
        has_line_to_take(*a, old(data)@, index, mint_number),
    ensures
        match a.data.hidden_setting {
            Some(hidden) => {
                &&& r matches Ok(line)
                &&& line.name@ == hidden_name(hidden.name@, mint_number)
                &&& line.uri@ == hidden.uri@
                &&& final(data)@ == old(data)@
            },
            None => if index > u32_at(old(data)@, CONFIG_ARRAY_START as int) {
                r == Err::<ConfigLine, ProgramError>(
                    ProgramError::Candy(ErrorCode::IndexGreaterThanLength),
                ) && final(data)@ == old(data)@
            } else {
                match line_at(old(data)@, index as int) {
                    None => r == Err::<ConfigLine, ProgramError>(ProgramError::BorshIoError)
                        && final(data)@ == old(data)@,
                    Some(line) => {
                        &&& r matches Ok(taken) && taken@ == line
                        &&& final(data)@ == taken_out(old(data)@, index as int)
                    },
                }
            },
        },
        r is Err ==> final(data)@ == old(data)@,
        line_result(r) == take_result(*a, old(data)@, index as int, mint_number).0,
        final(data)@ == take_result(*a, old(data)@, index as int, mint_number).1,
{
    if let Some(hidden) = &a.data.hidden_setting {
        return Ok(hidden_line(hidden, mint_number));
    }
    let total: usize = get_config_count(data)?;
    if index > total {
        return Err(ProgramError::Candy(ErrorCode::IndexGreaterThanLength));
    }
    let size: usize = data.len();
    proof {
        lemma_line_start(index as int);
        lemma_line_start(index + 1);
    }
    let line = read_line(data, index)?;
    cut(data, line_position(index), CONFIG_LINE_SIZE);
    let count_bytes = u32_bytes((total - 1) as u32);
    write_bytes(data, CONFIG_ARRAY_START, count_bytes.as_slice());
    Ok(line)
}

} // verus!
