//! What filling in and taking out config lines comes to, told on the texts that are passed in and
//! the bytes of the account.
use crate::accounts::AddConfigLines;
use crate::codec::{lemma_encode_concat, parse_str_pair, u32_at, u32_le};
use crate::config_lines::{
    add_result, decimal, digit, has_line_to_take, has_room_for_lines, hidden_name, lemma_nulls,
    lemma_padded_len, lemma_stored_lines, line_at, line_bytes, line_fits, nulls, padded,
    padded_line, stored_lines, take_result, with_lines, ConfigLine, ConfigLineView,
};
use crate::decoding::{law_number_bytes, law_number_read, le_value};
use crate::error::{Constraint, ErrorCode, ProgramError};
use crate::laws::{law_filled_line_is_read_back, lies_within};
use crate::layout::{
    count_unmarked, is_marked, lemma_line_start, lemma_mark_lines, line_bit, mark_lines, mask_start,
};
use crate::state::CandyMachine;
use vstd::prelude::*;
use vstd::utf8::*;

verus! {

/// Whether `t` is the text `s` with nothing but null characters behind it.
pub open spec fn is_text_with_nulls(t: Seq<char>, s: Seq<char>) -> bool {
    &&& t.len() >= s.len()
    &&& forall|i: int|
        0 <= i < t.len() ==> #[trigger] t[i] == if i < s.len() {
            s[i]
        } else {
            '\0'
        }
}

/// A padded text starts with the text itself, and everything behind it is null characters, so
/// many that it takes up `len` bytes.
pub proof fn law_padded_text(s: Seq<char>, len: int)
    requires
        encode_utf8(s).len() <= len,
    ensures
        padded(s, len).len() == s.len() + len - encode_utf8(s).len(),
        is_text_with_nulls(padded(s, len), s),
        encode_utf8(padded(s, len)).len() == len,
{
    lemma_padded_len(s, len);
}

/// Config lines are filled in by the recorded authority of a writable candy machine that has
/// config lines, at an index below the low four bytes of the number of items; anything else is
/// refused, for the first of these that does not hold, and then the account stays as it is.
pub proof fn law_lines_refused(
    a: AddConfigLines,
    data: Seq<u8>,
    index: u32,
    lines: Seq<ConfigLine>,
)
    ensures
        ({
            let r = add_result(a, data, index, lines);
            let may = a.candy_machine_is_writable && a.candy_machine.authority == a.authority;
            let below = index < a.candy_machine.data.items_available % 4294967296;
            let hidden = a.candy_machine.data.hidden_setting is Some;
            &&& !a.candy_machine_is_writable ==> r.0 == Err::<(), ProgramError>(
                ProgramError::Constraint(Constraint::Mut),
            )
            &&& a.candy_machine_is_writable && !may ==> r.0 == Err::<(), ProgramError>(
                ProgramError::Constraint(Constraint::HasOne),
            )
            &&& may && !below ==> r.0 == Err::<(), ProgramError>(
                ProgramError::Candy(ErrorCode::IndexGreaterThanLength),
            )
            &&& may && below && hidden ==> r.0 == Err::<(), ProgramError>(
                ProgramError::Candy(ErrorCode::HiddenSettingConfigsDoNotHaveConfigLines),
            )
            &&& may && below && !hidden ==> r.0 == Ok::<(), ProgramError>(())
            &&& r.0 is Err ==> r.1 == data
        }),
{
}

/// Bit `k` of a byte, counted from the lowest.
pub open spec fn bit(b: u8, k: int) -> bool {
    (b as int / (if k == 0 {
        1
    } else if k == 1 {
        2
    } else if k == 2 {
        4
    } else if k == 3 {
        8
    } else if k == 4 {
        16
    } else if k == 5 {
        32
    } else if k == 6 {
        64
    } else {
        128int
    })) % 2 == 1
}

/// The bit of a config line is the one that many places from the highest.
proof fn lemma_bit(b: u8, p: int)
    ensures
        b & line_bit(p) != 0 <==> bit(b, 7 - p % 8),
{
    assert((b & 128u8 != 0) == ((b / 128) % 2 == 1)) by (bit_vector);
    assert((b & 64u8 != 0) == ((b / 64) % 2 == 1)) by (bit_vector);
    assert((b & 32u8 != 0) == ((b / 32) % 2 == 1)) by (bit_vector);
    assert((b & 16u8 != 0) == ((b / 16) % 2 == 1)) by (bit_vector);
    assert((b & 8u8 != 0) == ((b / 8) % 2 == 1)) by (bit_vector);
    assert((b & 4u8 != 0) == ((b / 4) % 2 == 1)) by (bit_vector);
    assert((b & 2u8 != 0) == ((b / 2) % 2 == 1)) by (bit_vector);
    assert((b & 1u8 != 0) == ((b / 1) % 2 == 1)) by (bit_vector);
}

/// Byte `o` of a config line in the account: the length of the name, 32, in four bytes, the bytes
/// of the name and zeros behind them, the length of the URI, 200, and the bytes of the URI and
/// zeros behind them.
pub open spec fn line_byte(line: ConfigLine, o: int) -> u8 {
    let name = encode_utf8(line.name@);
    let uri = encode_utf8(line.uri@);
    if o == 0 {
        32
    } else if 4 <= o < 4 + name.len() {
        name[o - 4]
    } else if o == 36 {
        200
    } else if 40 <= o < 40 + uri.len() {
        uri[o - 40]
    } else {
        0
    }
}

/// Byte `x` of the account once the texts of `lines` stand in it, the first of them at `index`.
pub open spec fn byte_with_lines(
    data: Seq<u8>,
    index: int,
    lines: Seq<ConfigLine>,
    x: int,
) -> u8 {
    let at = x - (685 + 240 * index);
    if 0 <= at < 240 * lines.len() {
        line_byte(lines[at / 240], at % 240)
    } else {
        data[x]
    }
}

/// Whether there is room in the account for `lines` at `index` of `items`, and for their bits.
pub open spec fn room_for(data: Seq<u8>, items: int, index: int, lines: Seq<ConfigLine>) -> bool {
    &&& 0 <= index < items
    &&& 685 + 240 * (index + lines.len()) <= data.len()
    &&& lines.len() > 0 ==> 689 + 240 * items + (index + lines.len() - 1) / 8 < data.len()
    &&& forall|i: int|
        0 <= i < lines.len() ==> encode_utf8((#[trigger] lines[i]).name@).len() <= 32
            && encode_utf8(lines[i].uri@).len() <= 200
}

proof fn lemma_room(data: Seq<u8>, items: int, index: int, lines: Seq<ConfigLine>)
    requires
        room_for(data, items, index, lines),
    ensures
        lies_within(data, items, index, lines),
{
    lemma_line_start(index + lines.len());
    lemma_line_start(items);
    assert forall|i: int| 0 <= i < lines.len() implies line_fits(#[trigger] lines[i]@) by {
        assert(encode_utf8(lines[i].name@).len() <= 32);
    }
}

/// The bytes of a stored line.
proof fn lemma_line_bytes(line: ConfigLine, o: int)
    requires
        line_fits(line@),
        0 <= o < 240,
    ensures
        line_bytes(padded_line(line@)).len() == 240,
        line_bytes(padded_line(line@))[o] == line_byte(line, o),
{
    let name = encode_utf8(line.name@);
    let uri = encode_utf8(line.uri@);
    lemma_encode_concat(line.name@, nulls(32 - name.len()));
    lemma_nulls(32 - name.len());
    lemma_encode_concat(line.uri@, nulls(200 - uri.len()));
    lemma_nulls(200 - uri.len());
    lemma_padded_len(line.name@, 32);
    lemma_padded_len(line.uri@, 200);
    let padded_name = encode_utf8(padded(line.name@, 32));
    let padded_uri = encode_utf8(padded(line.uri@, 200));
    let all = line_bytes(padded_line(line@));
    assert(all =~= (u32_le(32) + padded_name) + (u32_le(200) + padded_uri));
    if o < 4 {
        assert(all[o] == u32_le(32)[o]);
    } else if o < 36 {
        assert(all[o] == padded_name[o - 4]);
    } else if o < 40 {
        assert(all[o] == u32_le(200)[o - 36]);
    } else {
        assert(all[o] == padded_uri[o - 40]);
    }
}

/// The bytes of the account once lines have been written.
proof fn lemma_written(data: Seq<u8>, items: int, index: int, lines: Seq<ConfigLine>, x: int)
    requires
        lies_within(data, items, index, lines),
        0 <= x < data.len(),
    ensures
        with_lines(data, index, lines).len() == data.len(),
        with_lines(data, index, lines)[x] == byte_with_lines(data, index, lines, x),
{
    lemma_line_start(index);
    lemma_stored_lines(lines);
    let at = x - (685 + 240 * index);
    if 0 <= at < 240 * lines.len() {
        let i = at / 240;
        let o = at % 240;
        assert(line_fits(lines[i]@));
        lemma_line_bytes(lines[i], o);
        let piece = stored_lines(lines).subrange(240 * i, 240 * i + 240);
        assert(piece == line_bytes(padded_line(lines[i]@)));
        assert(piece[o] == stored_lines(lines)[at]);
    }
}

/// What the account holds after config lines have been filled in, bit by bit: the texts of the
/// lines stand in their places, the bit of each of them is set, and apart from the number of lines
/// nothing else has changed.
#[verifier::rlimit(40)]
pub proof fn law_filled_in_bits(
    a: AddConfigLines,
    data: Seq<u8>,
    index: u32,
    lines: Seq<ConfigLine>,
    x: int,
    k: int,
)
    requires
        add_result(a, data, index, lines).0 is Ok,
        room_for(data, a.candy_machine.data.items_available as int, index as int, lines),
        0 <= x < data.len(),
        x < 681 || 685 <= x,
        0 <= k < 8,
    ensures
        ({
            let after = add_result(a, data, index, lines).1;
            let mask = 689 + 240 * a.candy_machine.data.items_available;
            let line = 8 * (x - mask) + 7 - k;
            &&& after.len() == data.len()
            &&& bit(after[x], k) <==> bit(byte_with_lines(data, index as int, lines, x), k) || (
            mask <= x && index <= line < index + lines.len())
        }),
{
    let items = a.candy_machine.data.items_available as int;
    let n = lines.len();
    let start = mask_start(items);
    let after = add_result(a, data, index, lines).1;
    lemma_room(data, items, index as int, lines);
    lemma_line_start(items);
    lemma_written(data, items, index as int, lines, x);
    let written = with_lines(data, index as int, lines);
    let marked = mark_lines(written, start, index as int, n);
    lemma_mark_lines(written, start, index as int, n);
    assert(after[x] == marked[x]);
    if start <= x {
        let p = 8 * (x - start) + 7 - k;
        assert(p / 8 == x - start && p % 8 == 7 - k);
        assert(is_marked(marked, start, p) <==> index <= p < index + n || is_marked(
            written,
            start,
            p,
        ));
        lemma_bit(marked[x], p);
        lemma_bit(written[x], p);
    } else {
        assert(marked[x] == written[x]);
    }
}

/// The lines among `n` from `index` on whose bit is not set yet when their texts are written.
pub open spec fn fresh_lines(
    data: Seq<u8>,
    items: int,
    index: int,
    lines: Seq<ConfigLine>,
    n: nat,
) -> Seq<int> {
    Seq::new(n, |i: int| index + i).filter(
        |p: int|
            !bit(byte_with_lines(data, index, lines, 689 + 240 * items + p / 8), 7 - p % 8),
    )
}

proof fn lemma_fresh_lines(
    data: Seq<u8>,
    items: int,
    index: int,
    lines: Seq<ConfigLine>,
    n: nat,
)
    requires
        lies_within(data, items, index, lines),
        n <= lines.len(),
    ensures
        fresh_lines(data, items, index, lines, n).len() == count_unmarked(
            with_lines(data, index, lines),
            mask_start(items),
            index,
            n,
        ),
    decreases n,
{
    reveal(Seq::filter);
    lemma_line_start(items);
    let all = Seq::new(n, |i: int| index + i);
    if n > 0 {
        let m = (n - 1) as nat;
        let p = index + n - 1;
        lemma_fresh_lines(data, items, index, lines, m);
        assert(all.drop_last() =~= Seq::new(m, |i: int| index + i));
        assert(all.last() == p);
        let x = 689 + 240 * items + p / 8;
        lemma_written(data, items, index, lines, x);
        lemma_bit(with_lines(data, index, lines)[x], p);
    }
}

/// After config lines have been filled in, the number of lines has grown by that of the lines
/// whose bits were not set: a line counts once, however often it is filled in.
#[verifier::rlimit(40)]
pub proof fn law_filled_in_count(
    a: AddConfigLines,
    data: Seq<u8>,
    index: u32,
    lines: Seq<ConfigLine>,
)
    requires
        add_result(a, data, index, lines).0 is Ok,
        room_for(data, a.candy_machine.data.items_available as int, index as int, lines),
    ensures
        le_value(add_result(a, data, index, lines).1.subrange(681, 685)) == (le_value(
            data.subrange(681, 685),
        ) + fresh_lines(
            data,
            a.candy_machine.data.items_available as int,
            index as int,
            lines,
            lines.len(),
        ).len()) % 4294967296,
{
    let items = a.candy_machine.data.items_available as int;
    let after = add_result(a, data, index, lines).1;
    lemma_room(data, items, index as int, lines);
    lemma_fresh_lines(data, items, index as int, lines, lines.len());
    law_number_read(data, 681);
    let written = with_lines(data, index as int, lines);
    let fresh = count_unmarked(written, mask_start(items), index as int, lines.len());
    let count = (u32_at(data, 681) + fresh) % 4294967296;
    law_number_bytes(count);
    lemma_line_start(items);
    lemma_line_start(index as int);
    lemma_stored_lines(lines);
    lemma_mark_lines(written, mask_start(items), index as int, lines.len());
    assert(after.subrange(681, 685) =~= u32_le(count));
}

/// A config line that has been filled in is read back with the name and the URI that were given,
/// and nothing but null characters behind them.
#[verifier::rlimit(40)]
pub proof fn law_line_is_read_back_as_given(
    a: AddConfigLines,
    data: Seq<u8>,
    index: u32,
    lines: Seq<ConfigLine>,
    i: int,
    m: CandyMachine,
    mint_number: u64,
)
    requires
        add_result(a, data, index, lines).0 is Ok,
        room_for(data, a.candy_machine.data.items_available as int, index as int, lines),
        0 <= i < lines.len(),
        index + i < a.candy_machine.data.items_available,
        m.data.hidden_setting is None,
    ensures
        ({
            let after = add_result(a, data, index, lines).1;
            let at = 685 + 240 * (index + i);
            &&& parse_str_pair(after.subrange(at, at + 240)) matches Some((name, uri))
            &&& is_text_with_nulls(name, lines[i].name@)
            &&& is_text_with_nulls(uri, lines[i].uri@)
            &&& encode_utf8(name).len() == 32
            &&& encode_utf8(uri).len() == 200
            &&& index + i <= le_value(after.subrange(681, 685)) ==> take_result(
                m,
                after,
                index + i,
                mint_number,
            ).0 == Ok::<ConfigLineView, ProgramError>(ConfigLineView { name, uri })
        }),
{
    let items = a.candy_machine.data.items_available as int;
    let after = add_result(a, data, index, lines).1;
    lemma_room(data, items, index as int, lines);
    law_filled_line_is_read_back(data, items, index as int, lines, i);
    assert(encode_utf8(lines[i].name@).len() <= 32);
    law_padded_text(lines[i].name@, 32);
    law_padded_text(lines[i].uri@, 200);
    lemma_line_start(index + i);
    lemma_line_start(index + i + 1);
    let n = lines.len();
    lemma_line_start(items);
    lemma_mark_lines(with_lines(data, index as int, lines), mask_start(items), index as int, n);
    assert(after.len() == data.len());
    law_number_read(after, 681);
}

/// What is asked of the account and the lines for them to be filled in: there is a number of
/// lines, there are items, and where nothing is refused the lines are short enough and lie, with
/// their bits, within the account.
pub proof fn law_lines_can_be_filled_in(
    m: CandyMachine,
    data: Seq<u8>,
    index: u32,
    lines: Seq<ConfigLine>,
)
    ensures
        has_room_for_lines(m, data, index, lines) <==> {
            &&& 685 <= data.len()
            &&& m.data.items_available % 4294967296 != 0
            &&& index < m.data.items_available % 4294967296 && m.data.hidden_setting is None
                ==> room_for(data, m.data.items_available as int, index as int, lines) && 689 + 240
                * m.data.items_available <= usize::MAX
        },
{
    lemma_line_start(m.data.items_available as int);
    lemma_line_start(index + lines.len());
    if forall|i: int| 0 <= i < lines.len() ==> line_fits(#[trigger] lines[i]@) {
        assert forall|i: int| 0 <= i < lines.len() implies encode_utf8(
            (#[trigger] lines[i]).name@,
        ).len() <= 32 && encode_utf8(lines[i].uri@).len() <= 200 by {
            assert(line_fits(lines[i]@));
        }
    }
    if room_for(data, m.data.items_available as int, index as int, lines) {
        lemma_room(data, m.data.items_available as int, index as int, lines);
    }
}

/// The number that decimal digits stand for.
pub open spec fn decimal_value(s: Seq<char>) -> int
    decreases s.len(),
{
    if s.len() == 0 {
        0
    } else {
        10 * decimal_value(s.drop_last()) + (s.last() as int - 48)
    }
}

/// Whether all characters are decimal digits, of which the first is not zero.
pub open spec fn is_decimal(s: Seq<char>) -> bool {
    &&& s.len() > 0
    &&& s[0] != '0'
    &&& forall|i: int| 0 <= i < s.len() ==> 48 <= (#[trigger] s[i]) as int <= 57
}

proof fn lemma_decimal_value(n: nat)
    ensures
        decimal(n).len() > 0,
        decimal_value(decimal(n)) == n,
        n > 0 ==> decimal(n)[0] != '0',
        forall|i: int| 0 <= i < decimal(n).len() ==> 48 <= (#[trigger] decimal(n)[i]) as int <= 57,
    decreases n,
{
    reveal_with_fuel(decimal_value, 2);
    if n >= 10 {
        lemma_decimal_value(n / 10);
        assert(decimal(n).drop_last() =~= decimal(n / 10));
        assert(decimal(n).last() == digit(n % 10));
    } else {
        assert(decimal(n).drop_last() =~= Seq::<char>::empty());
    }
}

/// An item of a machine with a hidden setting has the hidden name, a number sign, and behind it
/// in decimal digits one more than the number of items that were sold before; it has the hidden
/// URI, and the account stays as it is.
pub proof fn law_hidden_line(m: CandyMachine, data: Seq<u8>, index: int, mint_number: u64)
    requires
        m.data.hidden_setting is Some,
    ensures
        ({
            let hidden = m.data.hidden_setting->0;
            let n = hidden.name@.len() as int;
            &&& take_result(m, data, index, mint_number).0 matches Ok(line)
            &&& line.uri == hidden.uri@
            &&& line.name.len() > n + 1
            &&& line.name.take(n) == hidden.name@
            &&& line.name[n] == '#'
            &&& is_decimal(line.name.skip(n + 1))
            &&& decimal_value(line.name.skip(n + 1)) == mint_number + 1
            &&& take_result(m, data, index, mint_number).1 == data
        }),
{
    let hidden = m.data.hidden_setting->0;
    let n = hidden.name@.len() as int;
    let digits = decimal((mint_number + 1) as nat);
    lemma_decimal_value((mint_number + 1) as nat);
    let name = hidden_name(hidden.name@, mint_number);
    assert(name.take(n) =~= hidden.name@);
    assert(name.skip(n + 1) =~= digits);
}

/// A config line can be taken out up to the index that is the number of lines, if its bytes stand
/// for two texts. They are what is returned; the bytes behind them move up by 240, zeros follow
/// at the end, the number of lines is one less, and all other bytes stay as they are.
#[verifier::rlimit(40)]
pub proof fn law_taken_line(m: CandyMachine, data: Seq<u8>, index: int, mint_number: u64)
    requires
        m.data.hidden_setting is None,
        0 <= index,
        685 <= data.len(),
        index <= le_value(data.subrange(681, 685)) ==> 925 + 240 * index <= data.len() && (
        le_value(data.subrange(681, 685)) > 0 || parse_str_pair(
            data.subrange(685 + 240 * index, 925 + 240 * index),
        ) is None),
    ensures
        ({
            let count = le_value(data.subrange(681, 685));
            let at = 685 + 240 * index;
            let r = take_result(m, data, index, mint_number);
            let texts = parse_str_pair(data.subrange(at, at + 240));
            &&& index > count ==> r == (
                Err::<ConfigLineView, ProgramError>(
                    ProgramError::Candy(ErrorCode::IndexGreaterThanLength),
                ),
                data,
            )
            &&& index <= count && texts is None ==> r == (
                Err::<ConfigLineView, ProgramError>(ProgramError::BorshIoError),
                data,
            )
            &&& index <= count && texts is Some ==> {
                &&& r.0 == Ok::<ConfigLineView, ProgramError>(
                    ConfigLineView { name: (texts->0).0, uri: (texts->0).1 },
                )
                &&& r.1.len() == data.len()
                &&& le_value(r.1.subrange(681, 685)) == count - 1
                &&& forall|x: int|
                    0 <= x < data.len() && (x < 681 || 685 <= x) ==> #[trigger] r.1[x] == if x
                        < at {
                        data[x]
                    } else if x + 240 < data.len() {
                        data[x + 240]
                    } else {
                        0
                    }
            }
        }),
{
    law_number_read(data, 681);
    lemma_line_start(index);
    lemma_line_start(index + 1);
    let count = u32_at(data, 681);
    let r = take_result(m, data, index, mint_number);
    if index <= count && line_at(data, index) is Some {
        law_number_bytes(count - 1);
        assert(r.1.subrange(681, 685) =~= u32_le(count - 1));
    }
}

/// What is asked of the account for a config line to be taken out: there is a number of lines,
/// and a line that is not refused lies within the account; where it can be read, there is at least
/// one line. Of a machine with a hidden setting nothing is asked but that the items can be counted.
pub proof fn law_line_can_be_taken(m: CandyMachine, data: Seq<u8>, index: usize, mint_number: u64)
    ensures
        m.data.hidden_setting is Some ==> (has_line_to_take(m, data, index, mint_number)
            <==> mint_number < u64::MAX),
        m.data.hidden_setting is None && data.len() < 685 ==> !has_line_to_take(
            m,
            data,
            index,
            mint_number,
        ),
        m.data.hidden_setting is None && data.len() >= 685 ==> {
            let count = le_value(data.subrange(681, 685));
            let at = 685 + 240 * index;
            has_line_to_take(m, data, index, mint_number) <==> index > count || at + 240
                <= data.len() && (count > 0 || parse_str_pair(data.subrange(at, at + 240)) is None)
        },
{
    if data.len() >= 685 {
        law_number_read(data, 681);
    }
    lemma_line_start(index as int);
    lemma_line_start(index + 1);
}

} // verus!
