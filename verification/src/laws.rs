//! What holds of a candy machine as a whole.
use crate::accounts::{InitializeCandyMachine, MintNFT};
use crate::codec::{lemma_parse_borsh_pair, lemma_u32_round_trip, u32_at, u32_le, u64_at};
use crate::config_lines::{
    cut_out, filled_in, has_line_to_take, has_room_for_lines, lemma_padded_len, lemma_stored_lines, line_at, line_bytes, line_fits,
    padded_line, stored_lines, taken_out, with_lines, ConfigLine, ConfigLineView,
};
use crate::layout::{
    account_space, count_unmarked, is_marked, lemma_bit_or, lemma_count_unmarked_bound, lemma_count_unmarked_same,
    lemma_line_start, lemma_mark_lines, line_bit, line_start, mark_lines, mask_len, mask_start, write_at,
    CONFIG_ARRAY_START, CONFIG_LINE_SIZE, MAX_CREATOR_LIMIT, MAX_NAME_LENGTH, MAX_SYMBOL_LENGTH,
    MAX_URI_LENGTH,
};
use crate::mint::{drawn_index, issue_result, issued_data, one_more_sold};
use crate::manage::{has_room_for_setup, initial_machine, set_up_account, setup_fault};
use crate::pubkey::Pubkey;
use crate::state::{
    header_bytes, lemma_header_len, CandyMachine, CandyMachineDataView, CandyMachineView,
};
use crate::utils::AccountSnapshot;
use vstd::prelude::*;
use vstd::utf8::*;

verus! {

/// The bytes of config line `p`.
pub open spec fn line_slot(data: Seq<u8>, p: int) -> Seq<u8> {
    data.subrange(line_start(p), line_start(p + 1))
}

/// Whether what filling in `lines` at `index` writes lies within the account.
pub open spec fn lies_within(data: Seq<u8>, items: int, index: int, lines: Seq<ConfigLine>) -> bool {
    &&& 0 <= index < items
    &&& forall|i: int| 0 <= i < lines.len() ==> line_fits(#[trigger] lines[i]@)
    &&& line_start(index + lines.len()) <= data.len()
    &&& lines.len() > 0 ==> mask_start(items) + (index + lines.len() - 1) / 8 < data.len()
}

/// The bytes of the config lines after lines have been filled in.
proof fn lemma_filled_slots(data: Seq<u8>, items: int, index: int, lines: Seq<ConfigLine>)
    requires
        lies_within(data, items, index, lines),
        lines.len() > 0,
    ensures
        filled_in(data, items, index, lines).len() == data.len(),
        forall|p: int|
            index <= p < index + lines.len() && p < items ==> #[trigger] line_slot(
                filled_in(data, items, index, lines),
                p,
            ) == line_bytes(padded_line(lines[p - index]@)),
        forall|p: int|
            0 <= p < items && !(index <= p < index + lines.len()) ==> #[trigger] line_slot(
                filled_in(data, items, index, lines),
                p,
            ) == line_slot(data, p),
{
    let n = lines.len();
    let start = mask_start(items);
    let written = with_lines(data, index, lines);
    let marked = mark_lines(written, start, index, n);
    let after = filled_in(data, items, index, lines);
    lemma_stored_lines(lines);
    lemma_line_start(index);
    lemma_line_start(index + n);
    lemma_line_start(items);
    lemma_mark_lines(written, start, index, n);
    assert forall|p: int| index <= p < index + n && p < items implies #[trigger] line_slot(
        after,
        p,
    ) == line_bytes(padded_line(lines[p - index]@)) by {
        lemma_line_start(p);
        lemma_line_start(p + 1);
        let stored = stored_lines(lines);
        let i = p - index;
        assert(line_slot(after, p) =~= stored.subrange(240 * i, 240 * i + 240));
        assert(stored.subrange(240 * i, 240 * i + 240) == line_bytes(padded_line(lines[i]@)));
    }
    assert forall|p: int| 0 <= p < items && !(index <= p < index + n) implies #[trigger] line_slot(
        after,
        p,
    ) == line_slot(data, p) by {
        lemma_line_start(p);
        lemma_line_start(p + 1);
        assert(line_slot(after, p) =~= line_slot(data, p));
    }
}

/// A config line that has been filled in is read back as it was stored.
pub proof fn law_filled_line_is_read_back(
    data: Seq<u8>,
    items: int,
    index: int,
    lines: Seq<ConfigLine>,
    i: int,
)
    requires
        lies_within(data, items, index, lines),
        0 <= i < lines.len(),
        index + i < items,
    ensures
        line_at(filled_in(data, items, index, lines), index + i) == Some(padded_line(lines[i]@)),
{
    lemma_filled_slots(data, items, index, lines);
    let line = padded_line(lines[i]@);
    assert(line_fits(lines[i]@));
    lemma_padded_len(lines[i]@.name, MAX_NAME_LENGTH as int);
    lemma_padded_len(lines[i]@.uri, MAX_URI_LENGTH as int);
    lemma_parse_borsh_pair(line.name, line.uri);
    assert(line_slot(filled_in(data, items, index, lines), index + i) == line_bytes(line));
    assert(line_at(filled_in(data, items, index, lines), index + i) =~= Some(line));
}

/// Filling in config lines leaves the other config lines as they are.
pub proof fn law_other_lines_stay(
    data: Seq<u8>,
    items: int,
    index: int,
    lines: Seq<ConfigLine>,
    p: int,
)
    requires
        lies_within(data, items, index, lines),
        0 <= p < items,
        !(index <= p < index + lines.len()),
        line_start(items) <= data.len(),
    ensures
        line_at(filled_in(data, items, index, lines), p) == line_at(data, p),
{
    if lines.len() > 0 {
        lemma_filled_slots(data, items, index, lines);
        assert(line_slot(filled_in(data, items, index, lines), p) == line_slot(data, p));
    } else {
        lemma_line_start(p);
        lemma_line_start(p + 1);
        lemma_line_start(index);
        lemma_line_start(items);
        assert(line_slot(filled_in(data, items, index, lines), p) =~= line_slot(data, p));
    }
}

/// Whether the account has room for `items` config lines and the bit mask behind them.
pub open spec fn has_all_room(data: Seq<u8>, items: int) -> bool {
    0 <= items < 4294967296 && mask_start(items) + mask_len(items) <= data.len()
}

/// Whether the number of filled-in lines that the account states is that of the marked lines.
pub open spec fn is_counted(data: Seq<u8>, items: int) -> bool {
    u32_at(data, CONFIG_ARRAY_START as int) == items - count_unmarked(
        data,
        mask_start(items),
        0,
        items as nat,
    )
}

/// Whether the account is filled in properly: the lines that are marked can be read, and their
/// number is right.
pub open spec fn is_filled_properly(data: Seq<u8>, items: int) -> bool {
    &&& has_all_room(data, items)
    &&& is_counted(data, items)
    &&& forall|p: int|
        0 <= p < items && #[trigger] is_marked(data, mask_start(items), p) ==> line_at(
            data,
            p,
        ) is Some
}

/// What filling in lines does to the marks and the number of lines.
proof fn lemma_filled_marks(data: Seq<u8>, items: int, index: int, lines: Seq<ConfigLine>)
    requires
        has_all_room(data, items),
        lies_within(data, items, index, lines),
        index + lines.len() <= items,
    ensures
        filled_in(data, items, index, lines).len() == data.len(),
        forall|p: int|
            0 <= p < items ==> (#[trigger] is_marked(
                filled_in(data, items, index, lines),
                mask_start(items),
                p,
            ) <==> is_marked(data, mask_start(items), p) || index <= p < index + lines.len()),
        u32_at(filled_in(data, items, index, lines), CONFIG_ARRAY_START as int) == (u32_at(
            data,
            CONFIG_ARRAY_START as int,
        ) + count_unmarked(data, mask_start(items), index, lines.len())) % 4294967296,
{
    let n = lines.len();
    let start = mask_start(items);
    let written = with_lines(data, index, lines);
    let marked = mark_lines(written, start, index, n);
    let after = filled_in(data, items, index, lines);
    lemma_stored_lines(lines);
    lemma_line_start(index);
    lemma_line_start(index + n);
    lemma_line_start(items);
    lemma_mark_lines(written, start, index, n);
    assert forall|p: int| 0 <= p < items implies (#[trigger] is_marked(written, start, p)
        <==> is_marked(data, start, p)) by {
        assert(written[start + p / 8] == data[start + p / 8]);
    }
    lemma_count_unmarked_same(written, data, start, index, n);
    assert forall|p: int| 0 <= p < items implies (#[trigger] is_marked(after, start, p)
        <==> is_marked(data, start, p) || index <= p < index + n) by {
        assert(after[start + p / 8] == marked[start + p / 8]);
        assert(is_marked(marked, start, p) <==> index <= p < index + n || is_marked(
            written,
            start,
            p,
        ));
        assert(is_marked(written, start, p) <==> is_marked(data, start, p));
    }
    let count = (u32_at(data, CONFIG_ARRAY_START as int) + count_unmarked(data, start, index, n))
        % 4294967296;
    assert(after.subrange(CONFIG_ARRAY_START as int, CONFIG_ARRAY_START + 4) =~= u32_le(count));
    lemma_u32_round_trip(count, after, CONFIG_ARRAY_START as int);
}

/// Where the lines from `index` on are marked in addition, the number of unmarked lines among
/// the first `k` drops by that of the unmarked ones among them.
proof fn lemma_unmarked_drop(s: Seq<u8>, t: Seq<u8>, start: int, index: int, n: nat, k: nat)
    requires
        0 <= index,
        index + n <= k,
        forall|p: int|
            0 <= p < k ==> (#[trigger] is_marked(t, start, p) <==> is_marked(s, start, p) || index
                <= p < index + n),
    ensures
        count_unmarked(t, start, 0, k) == count_unmarked(s, start, 0, k) - count_unmarked(
            s,
            start,
            index,
            n,
        ),
    decreases k,
{
    if k > 0 {
        let q = k - 1;
        assert(is_marked(t, start, q) <==> is_marked(s, start, q) || index <= q < index + n);
        assert(0 + k - 1 == q);
        if index + n <= q {
            lemma_unmarked_drop(s, t, start, index, n, (k - 1) as nat);
        } else if n > 0 {
            assert(index + n - 1 == q);
            lemma_unmarked_drop(s, t, start, index, (n - 1) as nat, (k - 1) as nat);
        } else {
            lemma_count_unmarked_same(s, t, start, 0, k);
        }
    }
}

/// The number of lines stays right when lines are filled in.
proof fn lemma_filled_count(data: Seq<u8>, items: int, index: int, lines: Seq<ConfigLine>)
    requires
        has_all_room(data, items),
        is_counted(data, items),
        lies_within(data, items, index, lines),
        index + lines.len() <= items,
    ensures
        is_counted(filled_in(data, items, index, lines), items),
        u32_at(filled_in(data, items, index, lines), CONFIG_ARRAY_START as int) == u32_at(
            data,
            CONFIG_ARRAY_START as int,
        ) + count_unmarked(data, mask_start(items), index, lines.len()),
{
    let start = mask_start(items);
    let after = filled_in(data, items, index, lines);
    lemma_filled_marks(data, items, index, lines);
    lemma_unmarked_drop(data, after, start, index, lines.len(), items as nat);
    lemma_count_unmarked_bound(after, start, 0, items as nat);
}

/// The marked lines can still be read when lines are filled in.
proof fn lemma_filled_readable(data: Seq<u8>, items: int, index: int, lines: Seq<ConfigLine>)
    requires
        is_filled_properly(data, items),
        lies_within(data, items, index, lines),
        index + lines.len() <= items,
    ensures
        forall|p: int|
            0 <= p < items && #[trigger] is_marked(
                filled_in(data, items, index, lines),
                mask_start(items),
                p,
            ) ==> line_at(filled_in(data, items, index, lines), p) is Some,
{
    let start = mask_start(items);
    let after = filled_in(data, items, index, lines);
    lemma_line_start(items);
    lemma_filled_marks(data, items, index, lines);
    assert forall|p: int| 0 <= p < items && #[trigger] is_marked(after, start, p) implies line_at(
        after,
        p,
    ) is Some by {
        if index <= p < index + lines.len() {
            law_filled_line_is_read_back(data, items, index, lines, p - index);
        } else {
            assert(is_marked(data, start, p));
            law_other_lines_stay(data, items, index, lines, p);
        }
    }
}

/// Filling in config lines within the number of items keeps the account filled in properly:
/// however often and in whatever order lines are filled in, the lines that are marked can be
/// read, and the number of lines that the account states is that of the lines that have been
/// filled in.
pub proof fn law_filling_in_keeps_account_proper(
    data: Seq<u8>,
    items: int,
    index: int,
    lines: Seq<ConfigLine>,
)
    requires
        is_filled_properly(data, items),
        lies_within(data, items, index, lines),
        index + lines.len() <= items,
    ensures
        is_filled_properly(filled_in(data, items, index, lines), items),
        u32_at(filled_in(data, items, index, lines), CONFIG_ARRAY_START as int) == u32_at(
            data,
            CONFIG_ARRAY_START as int,
        ) + count_unmarked(data, mask_start(items), index, lines.len()),
{
    lemma_filled_marks(data, items, index, lines);
    lemma_filled_count(data, items, index, lines);
    lemma_filled_readable(data, items, index, lines);
}

/// Filling in the same config lines once more changes nothing: in particular they are not
/// counted twice.
pub proof fn law_filling_in_again_changes_nothing(
    data: Seq<u8>,
    items: int,
    index: int,
    lines: Seq<ConfigLine>,
)
    requires
        has_all_room(data, items),
        lies_within(data, items, index, lines),
        index + lines.len() <= items,
    ensures
        filled_in(filled_in(data, items, index, lines), items, index, lines) == filled_in(
            data,
            items,
            index,
            lines,
        ),
{
    let once = filled_in(data, items, index, lines);
    lemma_line_start(items);
    lemma_filled_marks(data, items, index, lines);
    lemma_lines_again(data, items, index, lines);
    lemma_all_marked(once, mask_start(items), index, lines.len());
    lemma_marking_again(once, mask_start(items), index, lines.len());
    lemma_count_again(once);
}

/// Writing the same config lines once more changes nothing.
proof fn lemma_lines_again(data: Seq<u8>, items: int, index: int, lines: Seq<ConfigLine>)
    requires
        has_all_room(data, items),
        lies_within(data, items, index, lines),
        index + lines.len() <= items,
    ensures
        with_lines(filled_in(data, items, index, lines), index, lines) == filled_in(
            data,
            items,
            index,
            lines,
        ),
{
    let once = filled_in(data, items, index, lines);
    let written = with_lines(data, index, lines);
    lemma_line_start(index);
    lemma_line_start(index + lines.len());
    lemma_line_start(items);
    lemma_stored_lines(lines);
    lemma_mark_lines(written, mask_start(items), index, lines.len());
    assert forall|i: int|
        line_start(index) <= i < line_start(index + lines.len()) implies #[trigger] once[i]
        == stored_lines(lines)[i - line_start(index)] by {
        assert(mark_lines(written, mask_start(items), index, lines.len())[i] == written[i]);
    }
    assert(with_lines(once, index, lines) =~= once);
}

/// Writing the number of lines once more changes nothing.
proof fn lemma_count_again(data: Seq<u8>)
    requires
        CONFIG_ARRAY_START + 4 <= data.len(),
    ensures
        write_at(
            data,
            CONFIG_ARRAY_START as int,
            u32_le(u32_at(data, CONFIG_ARRAY_START as int) % 4294967296),
        ) == data,
{
    let at = CONFIG_ARRAY_START as int;
    lemma_u32_bytes(data, at);
    let bytes = u32_le(u32_at(data, at));
    assert forall|i: int| at <= i < at + 4 implies #[trigger] data[i] == bytes[i - at] by {
        assert(data.subrange(at, at + 4)[i - at] == data[i]);
    }
    assert(write_at(data, at, bytes) =~= data);
}

/// No line is counted of lines that are all marked.
proof fn lemma_all_marked(s: Seq<u8>, start: int, index: int, n: nat)
    requires
        forall|p: int| index <= p < index + n ==> #[trigger] is_marked(s, start, p),
    ensures
        count_unmarked(s, start, index, n) == 0,
    decreases n,
{
    if n > 0 {
        lemma_all_marked(s, start, index, (n - 1) as nat);
        assert(is_marked(s, start, index + n - 1));
    }
}

/// Marking lines that are marked changes nothing.
proof fn lemma_marking_again(s: Seq<u8>, start: int, index: int, n: nat)
    requires
        0 <= start,
        0 <= index,
        n > 0 ==> start + (index + n - 1) / 8 < s.len(),
        forall|p: int| index <= p < index + n ==> #[trigger] is_marked(s, start, p),
    ensures
        mark_lines(s, start, index, n) == s,
    decreases n,
{
    if n > 0 {
        lemma_marking_again(s, start, index, (n - 1) as nat);
        let q = index + n - 1;
        assert(is_marked(s, start, q));
        lemma_bit_or(s[start + q / 8], q, q);
        assert(mark_lines(s, start, index, n) =~= s);
    }
}

/// Four bytes are those of the number that they stand for.
proof fn lemma_u32_bytes(s: Seq<u8>, at: int)
    requires
        0 <= at,
        at + 4 <= s.len(),
    ensures
        u32_le(u32_at(s, at)) == s.subrange(at, at + 4),
        0 <= u32_at(s, at) < 4294967296,
{
    let n = u32_at(s, at);
    assert(n % 256 == s[at] && n / 256 % 256 == s[at + 1] && n / 65536 % 256 == s[at + 2] && n
        / 16777216 % 256 == s[at + 3]);
    assert(u32_le(n) =~= s.subrange(at, at + 4));
}

/// An account in which the number of lines and the bit mask are zero is filled in properly.
pub proof fn law_fresh_account_is_proper(data: Seq<u8>, items: int)
    requires
        has_all_room(data, items),
        forall|i: int| CONFIG_ARRAY_START <= i < CONFIG_ARRAY_START + 4 ==> data[i] == 0,
        forall|i: int|
            mask_start(items) <= i < mask_start(items) + mask_len(items) ==> data[i] == 0,
    ensures
        is_filled_properly(data, items),
{
    let start = mask_start(items);
    lemma_line_start(items);
    assert forall|p: int| 0 <= p < items implies !#[trigger] is_marked(data, start, p) by {
        let bit = line_bit(p);
        assert(data[start + p / 8] == 0);
        assert(0u8 & bit == 0) by (bit_vector);
    }
    lemma_none_marked(data, start, items as nat);
}

/// Every line is counted of lines none of which is marked.
proof fn lemma_none_marked(s: Seq<u8>, start: int, n: nat)
    requires
        forall|p: int| 0 <= p < n ==> !#[trigger] is_marked(s, start, p),
    ensures
        count_unmarked(s, start, 0, n) == n,
    decreases n,
{
    if n > 0 {
        lemma_none_marked(s, start, (n - 1) as nat);
        assert(!is_marked(s, start, n - 1));
    }
}

/// Once every line has been filled in, the number of lines is the number of items.
pub proof fn law_all_filled_in(data: Seq<u8>, items: int)
    requires
        is_filled_properly(data, items),
        forall|p: int| 0 <= p < items ==> #[trigger] is_marked(data, mask_start(items), p),
    ensures
        u32_at(data, CONFIG_ARRAY_START as int) == items,
{
    lemma_all_marked(data, mask_start(items), 0, items as nat);
}

/// The first `n` config lines of the account, as far as they can be read.
pub open spec fn first_lines(data: Seq<u8>, n: int) -> Seq<Option<ConfigLineView>> {
    Seq::new(n as nat, |i: int| line_at(data, i))
}

/// Taking out a config line removes it from the lines, keeps all the others in their order, and
/// counts one line less.
#[verifier::rlimit(40)]
pub proof fn law_taking_out_removes_one_line(data: Seq<u8>, n: int, index: int)
    requires
        0 <= index < n,
        line_start(n) <= data.len(),
        u32_at(data, CONFIG_ARRAY_START as int) > 0,
    ensures
        taken_out(data, index).len() == data.len(),
        first_lines(taken_out(data, index), n - 1) == first_lines(data, n).remove(index),
        u32_at(taken_out(data, index), CONFIG_ARRAY_START as int) == u32_at(
            data,
            CONFIG_ARRAY_START as int,
        ) - 1,
{
    let after = taken_out(data, index);
    let cut = cut_out(data, line_start(index), CONFIG_LINE_SIZE as int);
    lemma_line_start(index);
    lemma_line_start(n);
    let total = u32_at(data, CONFIG_ARRAY_START as int);
    lemma_u32_bytes(data, CONFIG_ARRAY_START as int);
    assert(after.subrange(CONFIG_ARRAY_START as int, CONFIG_ARRAY_START + 4) =~= u32_le(total - 1));
    lemma_u32_round_trip(total - 1, after, CONFIG_ARRAY_START as int);
    assert forall|j: int| 0 <= j < n - 1 implies #[trigger] line_at(after, j) == if j < index {
        line_at(data, j)
    } else {
        line_at(data, j + 1)
    } by {
        lemma_line_start(j);
        lemma_line_start(j + 1);
        lemma_line_start(j + 2);
        if j < index {
            assert(line_slot(after, j) =~= line_slot(data, j));
        } else {
            assert(line_slot(after, j) =~= line_slot(data, j + 1));
        }
    }
    assert(first_lines(after, n - 1) =~= first_lines(data, n).remove(index));
}

/// Whether a machine that has config lines has one that can be read for every item that is left.
pub open spec fn is_stocked(m: CandyMachine, data: Seq<u8>) -> bool {
    let left = m.data.items_available - m.items_redeemed;
    &&& 0 <= left
    &&& m.data.hidden_setting is None ==> {
        &&& u32_at(data, CONFIG_ARRAY_START as int) == left
        &&& line_start(left) <= data.len()
        &&& forall|i: int| 0 <= i < left ==> #[trigger] line_at(data, i) is Some
    }
}

/// A machine of which nothing is sold is stocked once every config line has been filled in.
pub proof fn law_all_filled_in_is_stocked(m: CandyMachine, data: Seq<u8>)
    requires
        m.items_redeemed == 0,
        is_filled_properly(data, m.data.items_available as int),
        forall|p: int|
            0 <= p < m.data.items_available ==> #[trigger] is_marked(
                data,
                mask_start(m.data.items_available as int),
                p,
            ),
    ensures
        is_stocked(m, data),
{
    let items = m.data.items_available as int;
    law_all_filled_in(data, items);
    assert forall|i: int| 0 <= i < items implies #[trigger] line_at(data, i) is Some by {
        assert(is_marked(data, mask_start(items), i));
    }
}

/// The item that is drawn is one of those that are left.
pub proof fn law_drawn_item_is_left(a: MintNFT)
    requires
        a.candy_machine.items_redeemed < a.candy_machine.data.items_available,
    ensures
        0 <= drawn_index(a) < a.candy_machine.data.items_available
            - a.candy_machine.items_redeemed,
{
    let left = a.candy_machine.data.items_available - a.candy_machine.items_redeemed;
    let number = u64_at(a.recent_blockhashes@[0]@, 0);
    assert(0 <= number % left < left) by (nonlinear_arith)
        requires
            left > 0,
    ;
}

/// From a stocked machine an item can always be drawn as long as one is left, and drawing it
/// leaves the machine stocked: the line that was drawn is gone, and all others are still there.
#[verifier::rlimit(40)]
pub proof fn law_stocked_machine_sells(a: MintNFT, data: Seq<u8>, creator_bump: u8)
    requires
        is_stocked(a.candy_machine, data),
        a.candy_machine.items_redeemed < a.candy_machine.data.items_available,
    ensures
        has_line_to_take(
            a.candy_machine,
            data,
            drawn_index(a) as usize,
            a.candy_machine.items_redeemed,
        ),
        issue_result(a, data, creator_bump) is Ok,
        is_stocked(one_more_sold(a).candy_machine, issued_data(a, data)),
        a.candy_machine.data.hidden_setting is None ==> {
            let left = a.candy_machine.data.items_available - a.candy_machine.items_redeemed;
            first_lines(issued_data(a, data), left - 1) == first_lines(data, left).remove(
                drawn_index(a),
            )
        },
{
    let m = a.candy_machine;
    let left = m.data.items_available - m.items_redeemed;
    law_drawn_item_is_left(a);
    if m.data.hidden_setting is None {
        let index = drawn_index(a);
        lemma_line_start(left);
        lemma_line_start(left - 1);
        lemma_u32_bytes(data, CONFIG_ARRAY_START as int);
        assert((index as usize) as int == index);
        assert(line_at(data, index) is Some);
        law_taking_out_removes_one_line(data, left, index);
        let after = issued_data(a, data);
        assert forall|i: int| 0 <= i < left - 1 implies #[trigger] line_at(after, i) is Some by {
            let before = first_lines(data, left);
            assert(first_lines(after, left - 1)[i] == before.remove(index)[i]);
            if i < index {
                assert(before.remove(index)[i] == line_at(data, i));
            } else {
                assert(before.remove(index)[i] == line_at(data, i + 1));
            }
        }
    }
}

/// An account of the size that the settings ask for has room for all config lines, wherever
/// within the number of items they are filled in.
pub proof fn law_space_suffices_for_lines(
    m: CandyMachine,
    data: Seq<u8>,
    index: u32,
    lines: Seq<ConfigLine>,
)
    requires
        m.data.hidden_setting is None,
        account_space(m.data@) <= data.len() <= usize::MAX,
        0 < m.data.items_available < 4294967296,
        index + lines.len() <= m.data.items_available,
        forall|i: int| 0 <= i < lines.len() ==> line_fits(#[trigger] lines[i]@),
    ensures
        has_room_for_lines(m, data, index, lines),
        has_all_room(data, m.data.items_available as int),
{
    lemma_line_start(m.data.items_available as int);
    lemma_line_start(index + lines.len());
}

/// The head of an account stays within the bytes that are set aside for it, if the texts and
/// the number of creators keep within their limits.
pub proof fn law_header_fits(m: CandyMachineView)
    requires
        encode_utf8(m.data.uuid).len() == 6,
        encode_utf8(m.data.symbol).len() <= MAX_SYMBOL_LENGTH,
        m.data.creators.len() <= MAX_CREATOR_LIMIT,
        m.data.hidden_setting matches Some(h) ==> encode_utf8(h.name).len() <= MAX_NAME_LENGTH
            && encode_utf8(h.uri).len() <= MAX_URI_LENGTH && h.hash.len() == 32,
    ensures
        header_bytes(m).len() <= CONFIG_ARRAY_START,
{
    lemma_header_len(m);
}

/// A machine with config lines whose settings are not refused can be set up: an account of the
/// size that the settings ask for has room for all that is written.
pub proof fn law_space_suffices_for_setup(
    accounts: InitializeCandyMachine,
    remaining: Seq<AccountSnapshot>,
    d: CandyMachineDataView,
    data: Seq<u8>,
    program_id: Pubkey,
)
    requires
        d.hidden_setting is None,
        setup_fault(accounts, remaining, d, data.len() as int, program_id) is None,
        data.len() <= usize::MAX,
        encode_utf8(d.symbol).len() <= MAX_SYMBOL_LENGTH,
    ensures
        has_room_for_setup(accounts, remaining, d, data, program_id),
{
    lemma_line_start(d.items_available as int);
    lemma_padded_len(d.symbol, MAX_SYMBOL_LENGTH as int);
    if d.creators.len() <= MAX_CREATOR_LIMIT - 1 {
        law_header_fits(initial_machine(accounts, remaining, d));
    }
}

/// Setting up a machine writes the head of the account and the length of the bit mask, and
/// nothing else.
pub proof fn law_setup_leaves_lines(data: Seq<u8>, m: CandyMachineView, i: int)
    requires
        header_bytes(m).len() <= CONFIG_ARRAY_START <= i < data.len(),
        !(line_start(m.data.items_available as int) <= i < mask_start(
            m.data.items_available as int,
        )),
    ensures
        set_up_account(data, m)[i] == data[i],
{
    let items = m.data.items_available as int;
    assert(u32_le(mask_len(items) % 4294967296).len() == 4);
    let once = write_at(data, 0, header_bytes(m));
    assert(once[i] == data[i]);
}

/// A machine that has been set up in an account full of zeros is ready to be filled in.
pub proof fn law_set_up_account_is_proper(data: Seq<u8>, m: CandyMachineView)
    requires
        header_bytes(m).len() <= CONFIG_ARRAY_START,
        has_all_room(data, m.data.items_available as int),
        forall|i: int| CONFIG_ARRAY_START <= i < data.len() ==> data[i] == 0,
    ensures
        is_filled_properly(set_up_account(data, m), m.data.items_available as int),
{
    let items = m.data.items_available as int;
    let after = set_up_account(data, m);
    lemma_line_start(items);
    assert(after.len() == data.len());
    assert forall|i: int| CONFIG_ARRAY_START <= i < CONFIG_ARRAY_START + 4 implies after[i]
        == 0 by {
        law_setup_leaves_lines(data, m, i);
    }
    assert forall|i: int|
        mask_start(items) <= i < mask_start(items) + mask_len(items) implies after[i] == 0 by {
        law_setup_leaves_lines(data, m, i);
    }
    law_fresh_account_is_proper(after, items);
}

} // verus!
