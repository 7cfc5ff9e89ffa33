//! H.264 byte streams: NAL units separated by start codes.
use vstd::prelude::*;

verus! {

/// The byte sequences that a list of slices refers to.
pub open spec fn slice_views(slices: Seq<&[u8]>) -> Seq<Seq<u8>> {
    Seq::new(slices.len(), |i: int| slices[i]@)
}

/// The length of the start code at position `i`: 4 for `00 00 00 01`, 3 for `00 00 01`, and 0
/// where there is none.
pub open spec fn start_code_len(data: Seq<u8>, i: int) -> int {
    if 0 <= i && i + 4 <= data.len() && data[i] == 0 && data[i + 1] == 0 && data[i + 2] == 0
        && data[i + 3] == 1 {
        4
    } else if 0 <= i && i + 3 <= data.len() && data[i] == 0 && data[i + 1] == 0 && data[i + 2]
        == 1 {
        3
    } else {
        0
    }
}

/// The position of the first start code at or after `i`, or the length where there is none.
pub open spec fn first_start_code(data: Seq<u8>, i: int) -> int
    decreases data.len() - i,
{
    if i >= data.len() {
        data.len() as int
    } else if start_code_len(data, i) > 0 {
        i
    } else {
        first_start_code(data, i + 1)
    }
}

/// What lies between the start codes of `data`, in order, the empty pieces left out.
pub open spec fn pieces(data: Seq<u8>) -> Seq<Seq<u8>>
    decreases data.len(),
{
    let p = first_start_code(data, 0);
    let head = if p > 0 {
        seq![data.take(p)]
    } else {
        seq![]
    };
    if p < data.len() {
        proof {
            lemma_first_start_code_is_first(data, 0);
        }
        head + pieces(data.skip(p + start_code_len(data, p)))
    } else {
        head
    }
}

/// The NAL units of an encoded picture: what lies between its start codes, or all of it where
/// that leaves nothing.
pub open spec fn nal_units(data: Seq<u8>) -> Seq<Seq<u8>> {
    if pieces(data).len() == 0 && data.len() > 0 {
        seq![data]
    } else {
        pieces(data)
    }
}

/// `first_start_code` is the first position that holds a start code.
pub proof fn lemma_first_start_code(data: Seq<u8>, i: int, p: int)
    requires
        0 <= i <= p <= data.len(),
        forall|j: int| i <= j < p ==> start_code_len(data, j) == 0,
        p < data.len() ==> start_code_len(data, p) > 0,
    ensures
        first_start_code(data, i) == p,
    decreases p - i,
{
    if i < p {
        lemma_first_start_code(data, i + 1, p);
    }
}

/// The converse: what precedes `first_start_code` holds no start code, and it holds one itself
/// unless it is the end.
pub proof fn lemma_first_start_code_is_first(data: Seq<u8>, i: int)
    requires
        0 <= i <= data.len(),
    ensures
        i <= first_start_code(data, i) <= data.len(),
        forall|j: int|
            i <= j < first_start_code(data, i) ==> #[trigger] start_code_len(data, j) == 0,
        first_start_code(data, i) < data.len() ==> start_code_len(
            data,
            first_start_code(data, i),
        ) > 0,
    decreases data.len() - i,
{
    if i < data.len() && start_code_len(data, i) == 0 {
        lemma_first_start_code_is_first(data, i + 1);
    }
}

/// Start codes of a suffix are those of the whole, shifted.
proof fn lemma_skip_start_code(data: Seq<u8>, start: int, i: int)
    requires
        0 <= start <= data.len(),
        0 <= i,
    ensures
        start_code_len(data.skip(start), i) == start_code_len(data, start + i),
{
}

/// The start code at position `i` of `data`, as its length.
fn code_len_at(data: &[u8], i: usize) -> (n: usize)
    requires
        i <= data@.len(),
    ensures
        n == start_code_len(data@, i as int),
{
    let rest: usize = data.len() - i;
    if rest >= 4 && data[i] == 0 && data[i + 1] == 0 && data[i + 2] == 0 && data[i + 3] == 1 {
        4
    } else if rest >= 3 && data[i] == 0 && data[i + 1] == 0 && data[i + 2] == 1 {
        3
    } else {
        0
    }
}

/// Splits an encoded picture into its NAL units, without their start codes.
pub fn split_nals(data: &[u8]) -> (nals: Vec<&[u8]>)
    ensures
        slice_views(nals@) == nal_units(data@),
{
    let mut nals: Vec<&[u8]> = Vec::new();
    let len: usize = data.len();
    let mut i: usize = 0;
    let mut start: usize = 0;
    assert(data@.skip(0) =~= data@);
    while i < len
        invariant
            len == data@.len(),
            0 <= start <= i <= len,
            slice_views(nals@) + pieces(data@.skip(start as int)) =~= pieces(data@),
            forall|j: int| start <= j < i ==> #[trigger] start_code_len(data@, j) == 0,
        decreases len - i,
    {
        let code: usize = code_len_at(data, i);
        if code > 0 {
            let ghost rest = data@.skip(start as int);
            let ghost before = nals@;
            proof {
                assert forall|j: int| 0 <= j < i - start implies start_code_len(rest, j) == 0 by {
                    lemma_skip_start_code(data@, start as int, j);
                }
                lemma_skip_start_code(data@, start as int, i - start);
                lemma_first_start_code(rest, 0, i - start);
                assert(rest.skip(i - start + code) =~= data@.skip(i + code));
                assert(rest.take(i - start) =~= data@.subrange(start as int, i as int));
            }
            if i > start {
                nals.push(&data[start..i]);
                assert(slice_views(nals@) =~= slice_views(before).push(rest.take(i - start)));
            }
            start = i + code;
            i = start;
        } else {
            i = i + 1;
        }
    }
    proof {
        let rest = data@.skip(start as int);
        assert forall|j: int| 0 <= j < len - start implies start_code_len(rest, j) == 0 by {
            lemma_skip_start_code(data@, start as int, j);
        }
        lemma_first_start_code(rest, 0, len - start);
        assert(rest.take(len - start) =~= rest);
    }
    let ghost before = nals@;
    if start < len {
        nals.push(&data[start..len]);
        assert(slice_views(nals@) =~= slice_views(before).push(data@.skip(start as int)));
    }
    assert(slice_views(nals@) =~= pieces(data@));
    assert(slice_views(nals@).len() == nals@.len());
    if nals.len() == 0 && len > 0 {
        nals.push(data);
        assert(slice_views(nals@) =~= seq![data@]);
    }
    nals
}

/// A start code, in its four-byte or its three-byte form.
pub open spec fn start_code(long: bool) -> Seq<u8> {
    if long {
        seq![0u8, 0u8, 0u8, 1u8]
    } else {
        seq![0u8, 0u8, 1u8]
    }
}

/// A byte stream made of NAL units, each behind a start code of the form that `long` picks.
pub open spec fn byte_stream(units: Seq<Seq<u8>>, long: Seq<bool>) -> Seq<u8>
    decreases units.len(),
{
    if units.len() == 0 {
        seq![]
    } else {
        start_code(long[0]) + units[0] + byte_stream(units.drop_first(), long.drop_first())
    }
}

/// A start code is four bytes just where they are `00 00 00 01`, three bytes just where they are
/// `00 00 01` and those four do not begin there, and nothing else is one.
pub proof fn law_start_codes(data: Seq<u8>, i: int)
    requires
        0 <= i <= data.len(),
    ensures
        start_code_len(data, i) == 4 <==> i + 4 <= data.len() && data.subrange(i, i + 4) == seq![
            0u8,
            0u8,
            0u8,
            1u8,
        ],
        start_code_len(data, i) == 3 <==> i + 3 <= data.len() && data.subrange(i, i + 3) == seq![
            0u8,
            0u8,
            1u8,
        ],
        start_code_len(data, i) == 4 || start_code_len(data, i) == 3 || start_code_len(data, i)
            == 0,
{
    if i + 4 <= data.len() {
        let four = data.subrange(i, i + 4);
        assert(four[0] == data[i] && four[1] == data[i + 1] && four[2] == data[i + 2] && four[3]
            == data[i + 3]);
        if start_code_len(data, i) == 4 {
            assert(four =~= seq![0u8, 0u8, 0u8, 1u8]);
        }
    }
    if i + 3 <= data.len() {
        let three = data.subrange(i, i + 3);
        assert(three[0] == data[i] && three[1] == data[i + 1] && three[2] == data[i + 2]);
        if start_code_len(data, i) == 3 {
            assert(three =~= seq![0u8, 0u8, 1u8]);
        }
    }
}

/// Whether a NAL unit has any bytes, and nowhere the bytes `00 00 01` that end a start code.
pub open spec fn well_formed_unit(unit: Seq<u8>) -> bool {
    &&& unit.len() > 0
    &&& forall|j: int|
        0 <= j && j + 3 <= unit.len() ==> !(#[trigger] unit[j] == 0 && unit[j + 1] == 0 && unit[j
            + 2] == 1)
}

/// A NAL unit is well-formed just where no start code stands in it.
proof fn lemma_well_formed(unit: Seq<u8>)
    requires
        unit.len() > 0,
    ensures
        well_formed_unit(unit) <==> forall|j: int|
            0 <= j < unit.len() ==> #[trigger] start_code_len(unit, j) == 0,
{
    if well_formed_unit(unit) {
        assert forall|j: int| 0 <= j < unit.len() implies #[trigger] start_code_len(unit, j)
            == 0 by {
            if start_code_len(unit, j) == 4 {
                assert(unit[j + 1] == 0);
            } else if start_code_len(unit, j) == 3 {
                assert(unit[j] == 0);
            }
        }
    } else {
        let j = choose|j: int|
            0 <= j && j + 3 <= unit.len() && (#[trigger] unit[j] == 0 && unit[j + 1] == 0 && unit[j
                + 2] == 1);
        assert(start_code_len(unit, j) > 0);
    }
}

/// Whether NAL units can be told apart in a byte stream: each is well-formed, and none that a
/// three-byte start code follows ends in a zero, which would be read as part of that code.
pub open spec fn separable(units: Seq<Seq<u8>>, long: Seq<bool>) -> bool {
    &&& units.len() == long.len()
    &&& forall|k: int| 0 <= k < units.len() ==> #[trigger] well_formed_unit(units[k])
    &&& forall|k: int|
        0 <= k < units.len() - 1 && !long[k + 1] ==> (#[trigger] units[k]).last() != 0
}

/// A start code in front adds no piece.
proof fn lemma_pieces_behind_code(long: bool, data: Seq<u8>)
    ensures
        pieces(start_code(long) + data) == pieces(data),
{
    let whole = start_code(long) + data;
    let n = start_code(long).len() as int;
    assert(start_code_len(whole, 0) == n);
    lemma_first_start_code(whole, 0, 0);
    assert(whole.skip(n) =~= data);
    assert(pieces(whole) =~= pieces(data));
}

/// Whether bytes can be told apart from a start code behind them: a zero at their end would be read
/// as part of a three-byte start code.
pub open spec fn ends_before(data: Seq<u8>, long: bool) -> bool {
    long || data.len() == 0 || data.last() != 0
}

/// The start codes of bytes are not changed by a start code behind them, and that one is one.
proof fn lemma_codes_before_code(a: Seq<u8>, long: bool, b: Seq<u8>)
    requires
        ends_before(a, long),
    ensures
        forall|i: int|
            0 <= i < a.len() ==> #[trigger] start_code_len(a + start_code(long) + b, i)
                == start_code_len(a, i),
        start_code_len(a + start_code(long) + b, a.len() as int) == start_code(long).len(),
{
    let whole = a + start_code(long) + b;
    let n = a.len() as int;
    assert(forall|m: int| 0 <= m < n ==> #[trigger] whole[m] == a[m]);
    assert(whole[n] == 0 && whole[n + 1] == 0);
    assert(whole[n + 2] == if long {
        0u8
    } else {
        1u8
    });
    assert(long ==> whole[n + 3] == 1);
    assert forall|i: int| 0 <= i < n implies #[trigger] start_code_len(whole, i)
        == start_code_len(a, i) by {
        assert(n > 0 && !long ==> whole[n - 1] != 0);
    }
}

/// Pieces before and behind a start code are those of the whole.
proof fn lemma_pieces_around_code(a: Seq<u8>, long: bool, b: Seq<u8>)
    requires
        ends_before(a, long),
    ensures
        pieces(a + start_code(long) + b) == pieces(a) + pieces(b),
    decreases a.len(),
{
    let whole = a + start_code(long) + b;
    let p = first_start_code(a, 0);
    lemma_codes_before_code(a, long, b);
    lemma_first_start_code_is_first(a, 0);
    assert forall|i: int| 0 <= i < p implies start_code_len(whole, i) == 0 by {
        assert(start_code_len(a, i) == 0);
    }
    lemma_first_start_code(whole, 0, p);
    assert(whole.take(p) =~= a.take(p));
    if p < a.len() {
        let n = start_code_len(a, p);
        let rest = a.skip(p + n);
        assert(start_code_len(whole, p) == n);
        assert(whole.skip(p + n) =~= rest + start_code(long) + b);
        assert(rest.len() > 0 ==> rest.last() == a.last());
        lemma_pieces_around_code(rest, long, b);
        assert(pieces(whole) =~= pieces(a) + pieces(b));
    } else {
        assert(whole.skip(p + start_code(long).len()) =~= b);
        assert(pieces(whole) =~= pieces(a) + pieces(b));
    }
}

/// A well-formed NAL unit is one piece.
proof fn lemma_pieces_of_unit(unit: Seq<u8>)
    requires
        well_formed_unit(unit),
    ensures
        pieces(unit) == seq![unit],
{
    lemma_well_formed(unit);
    lemma_first_start_code(unit, 0, unit.len() as int);
    assert(unit.take(unit.len() as int) =~= unit);
}

/// What follows the first of some NAL units that can be told apart can be told apart.
proof fn lemma_separable_tail(units: Seq<Seq<u8>>, long: Seq<bool>)
    requires
        separable(units, long),
        units.len() > 0,
    ensures
        separable(units.drop_first(), long.drop_first()),
{
    let tail = units.drop_first();
    assert forall|k: int| 0 <= k < tail.len() implies #[trigger] well_formed_unit(tail[k]) by {
        assert(well_formed_unit(units[k + 1]));
    }
    assert forall|k: int| 0 <= k < tail.len() - 1 && !long.drop_first()[k + 1] implies (
    #[trigger] tail[k]).last() != 0 by {
        assert(units[k + 1].last() != 0);
    }
}

/// The pieces of a byte stream are the NAL units that it was made of.
proof fn lemma_pieces_of_stream(units: Seq<Seq<u8>>, long: Seq<bool>)
    requires
        separable(units, long),
    ensures
        pieces(byte_stream(units, long)) == units,
    decreases units.len(),
{
    if units.len() == 0 {
        assert(pieces(byte_stream(units, long)) =~= units);
    } else {
        let unit = units[0];
        let rest = byte_stream(units.drop_first(), long.drop_first());
        assert(well_formed_unit(units[0]));
        lemma_pieces_of_unit(unit);
        lemma_separable_tail(units, long);
        lemma_pieces_of_stream(units.drop_first(), long.drop_first());
        assert(byte_stream(units, long) =~= start_code(long[0]) + (unit + rest));
        lemma_pieces_behind_code(long[0], unit + rest);
        if units.len() == 1 {
            assert(unit + rest =~= unit);
        } else {
            let next = units.drop_first()[0] + byte_stream(
                units.drop_first().drop_first(),
                long.drop_first().drop_first(),
            );
            assert(rest =~= start_code(long[1]) + next);
            assert(!long[1] ==> units[0].last() != 0);
            lemma_pieces_behind_code(long[1], next);
            assert(unit + rest =~= unit + start_code(long[1]) + next);
            lemma_pieces_around_code(unit, long[1], next);
        }
        assert(units =~= seq![unit] + units.drop_first());
    }
}

/// Splitting undoes joining: a byte stream of NAL units that can be told apart, whichever form of
/// start code stands before each, is split into those units.
pub proof fn law_split_undoes_join(units: Seq<Seq<u8>>, long: Seq<bool>)
    requires
        separable(units, long),
    ensures
        nal_units(byte_stream(units, long)) == units,
{
    lemma_pieces_of_stream(units, long);
}

/// A start code in front changes nothing, unless the data is made of start codes alone.
pub proof fn law_leading_start_code(long: bool, data: Seq<u8>)
    requires
        pieces(data).len() > 0,
    ensures
        nal_units(start_code(long) + data) == nal_units(data),
{
    lemma_pieces_behind_code(long, data);
}

/// Two streams with a start code between them are split into the NAL units of the first and those
/// of the second. Neither may be made of start codes alone, and not both may be empty.
pub proof fn law_streams_join(a: Seq<u8>, long: bool, b: Seq<u8>)
    requires
        ends_before(a, long),
        a.len() > 0 ==> pieces(a).len() > 0,
        b.len() > 0 ==> pieces(b).len() > 0,
        a.len() > 0 || b.len() > 0,
    ensures
        nal_units(a + start_code(long) + b) == nal_units(a) + nal_units(b),
{
    lemma_pieces_around_code(a, long, b);
}

/// A NAL unit is not split again.
pub proof fn law_units_are_not_split_again(data: Seq<u8>, k: int)
    requires
        0 <= k < nal_units(data).len(),
    ensures
        nal_units(nal_units(data)[k]) == seq![nal_units(data)[k]],
{
    if pieces(data).len() > 0 {
        let unit = nal_units(data)[k];
        law_units_are_not_empty(data);
        law_units_hold_no_start_code(data);
        lemma_pieces_of_unit(unit);
    }
}

/// No NAL unit is empty, and only an empty picture has none.
pub proof fn law_units_are_not_empty(data: Seq<u8>)
    ensures
        forall|k: int| 0 <= k < nal_units(data).len() ==> #[trigger] nal_units(data)[k].len() > 0,
        nal_units(data).len() == 0 <==> data.len() == 0,
{
    lemma_pieces(data);
}

/// Nowhere in a NAL unit are the bytes `00 00 01` left that end a start code, unless the data is made of start codes alone and is
/// handed on whole.
pub proof fn law_units_hold_no_start_code(data: Seq<u8>)
    requires
        pieces(data).len() > 0,
    ensures
        forall|k: int| 0 <= k < nal_units(data).len() ==> #[trigger] well_formed_unit(
            nal_units(data)[k],
        ),
{
    lemma_pieces(data);
    assert forall|k: int| 0 <= k < nal_units(data).len() implies #[trigger] well_formed_unit(
        nal_units(data)[k],
    ) by {
        assert(pieces(data)[k].len() > 0);
        lemma_well_formed(pieces(data)[k]);
    }
}

proof fn lemma_pieces(data: Seq<u8>)
    ensures
        forall|k: int| 0 <= k < pieces(data).len() ==> #[trigger] pieces(data)[k].len() > 0,
        forall|k: int, j: int|
            0 <= k < pieces(data).len() && 0 <= j < pieces(data)[k].len()
                ==> #[trigger] start_code_len(pieces(data)[k], j) == 0,
    decreases data.len(),
{
    lemma_first_start_code_is_first(data, 0);
    let p = first_start_code(data, 0);
    let unit = data.take(p);
    assert forall|j: int| 0 <= j < p implies #[trigger] start_code_len(unit, j) == 0 by {
        assert(start_code_len(data, j) == 0);
    }
    if p < data.len() {
        let rest = data.skip(p + start_code_len(data, p));
        lemma_pieces(rest);
        let n: int = if p > 0 {
            1
        } else {
            0
        };
        assert(forall|k: int|
            n <= k < pieces(data).len() ==> #[trigger] pieces(data)[k] == pieces(rest)[k - n]);
    }
}

/// Bytes that are start codes and nothing else.
pub open spec fn only_start_codes(data: Seq<u8>) -> bool
    decreases data.len(),
{
    ||| data.len() == 0
    ||| data.len() >= 4 && data.take(4) == seq![0u8, 0u8, 0u8, 1u8] && only_start_codes(
        data.skip(4),
    )
    ||| data.len() >= 3 && data.take(3) == seq![0u8, 0u8, 1u8] && only_start_codes(data.skip(3))
}

/// Bytes are start codes and nothing else just where a start code stands first, and start codes and
/// nothing else behind it.
proof fn lemma_only_start_codes(data: Seq<u8>)
    requires
        data.len() > 0,
    ensures
        only_start_codes(data) <==> start_code_len(data, 0) > 0 && only_start_codes(
            data.skip(start_code_len(data, 0)),
        ),
{
    law_start_codes(data, 0);
    if data.len() >= 4 {
        assert(data.take(4) =~= data.subrange(0, 4));
        assert(data.take(4)[2] == data[2]);
    }
    if data.len() >= 3 {
        assert(data.take(3) =~= data.subrange(0, 3));
        assert(data.take(3)[2] == data[2]);
    }
}

/// Nothing lies between start codes just where there is nothing else.
proof fn lemma_no_pieces(data: Seq<u8>)
    ensures
        pieces(data).len() == 0 <==> only_start_codes(data),
    decreases data.len(),
{
    if data.len() > 0 {
        lemma_only_start_codes(data);
        lemma_first_start_code_is_first(data, 0);
        let n = start_code_len(data, 0);
        if n > 0 {
            lemma_first_start_code(data, 0, 0);
            assert(pieces(data) =~= pieces(data.skip(n)));
            lemma_no_pieces(data.skip(n));
        }
    }
}

/// Data of start codes alone is handed on whole, and no other data is, unless it holds none.
pub proof fn law_start_codes_alone(data: Seq<u8>)
    ensures
        data.len() > 0 && only_start_codes(data) ==> nal_units(data) == seq![data],
        !only_start_codes(data) ==> pieces(data).len() > 0 && forall|k: int|
            0 <= k < nal_units(data).len() ==> #[trigger] well_formed_unit(nal_units(data)[k]),
{
    lemma_no_pieces(data);
    if pieces(data).len() > 0 {
        law_units_hold_no_start_code(data);
    }
}

/// Whether bytes begin with the three-byte start code.
pub open spec fn begins_short(data: Seq<u8>) -> bool {
    data.len() >= 3 && data.take(3) == seq![0u8, 0u8, 1u8]
}

/// `gaps[0]`, `units[0]`, `gaps[1]`, `units[1]` and so on, up to the gap behind the last unit.
pub open spec fn interleave(gaps: Seq<Seq<u8>>, units: Seq<Seq<u8>>) -> Seq<u8>
    decreases units.len(),
{
    if units.len() == 0 {
        gaps[0]
    } else {
        gaps[0] + units[0] + interleave(gaps.drop_first(), units.drop_first())
    }
}

/// Whether data is some units in order, with start codes alone before, between and behind them, at
/// least one between any two, and no zero before a three-byte start code in a unit.
pub open spec fn separates(gaps: Seq<Seq<u8>>, units: Seq<Seq<u8>>, data: Seq<u8>) -> bool {
    &&& gaps.len() == units.len() + 1
    &&& forall|k: int| 0 <= k < gaps.len() ==> only_start_codes(#[trigger] gaps[k])
    &&& forall|k: int| 0 < k < units.len() ==> (#[trigger] gaps[k]).len() > 0
    &&& forall|k: int|
        0 < k < gaps.len() && begins_short(#[trigger] gaps[k]) ==> units[k - 1].last() != 0
    &&& interleave(gaps, units) == data
}

/// Splitting loses nothing but start codes: the data is its NAL units in order, with start codes
/// alone before, between and behind them, and at least one between any two. A zero before
/// `00 00 01` belongs to the start code, not to the unit.
pub proof fn law_split_loses_only_start_codes(data: Seq<u8>)
    ensures
        exists|gaps: Seq<Seq<u8>>| #[trigger] separates(gaps, nal_units(data), data),
{
    if pieces(data).len() == 0 && data.len() > 0 {
        let none = Seq::<u8>::empty();
        lemma_put_unit_before(data, seq![none], seq![], none);
        assert(nal_units(data) =~= seq![data] + Seq::<Seq<u8>>::empty());
        assert(data + none =~= data);
        assert(separates(seq![none] + seq![none], nal_units(data), data));
    } else {
        let gaps = lemma_gaps(data);
        assert(separates(gaps, nal_units(data), data));
    }
}

/// A start code put before the first gap stands before the data.
proof fn lemma_widen_first_gap(
    code: Seq<u8>,
    gaps: Seq<Seq<u8>>,
    units: Seq<Seq<u8>>,
    data: Seq<u8>,
) -> (wide: Seq<Seq<u8>>)
    requires
        code == start_code(true) || code == start_code(false),
        separates(gaps, units, data),
    ensures
        separates(wide, units, code + data),
        wide[0].len() > 0,
        begins_short(wide[0]) ==> code == start_code(false),
{
    let first = code + gaps[0];
    let n = code.len() as int;
    assert(start_code_len(first, 0) == n);
    assert(first.skip(n) =~= gaps[0]);
    lemma_only_start_codes(first);
    if begins_short(first) {
        assert(first.take(3)[2] == first[2]);
        assert(first[2] == code[2]);
    }
    let wide = gaps.update(0, first);
    assert(wide.drop_first() =~= gaps.drop_first());
    assert(interleave(wide, units) =~= code + interleave(gaps, units));
    wide
}

/// A unit put before the first gap stands before the data.
proof fn lemma_put_unit_before(
    unit: Seq<u8>,
    gaps: Seq<Seq<u8>>,
    units: Seq<Seq<u8>>,
    data: Seq<u8>,
)
    requires
        separates(gaps, units, data),
        units.len() > 0 ==> gaps[0].len() > 0,
        begins_short(gaps[0]) ==> unit.last() != 0,
    ensures
        separates(seq![Seq::<u8>::empty()] + gaps, seq![unit] + units, unit + data),
{
    let none = Seq::<u8>::empty();
    let more = seq![none] + gaps;
    let all = seq![unit] + units;
    assert forall|k: int| 0 <= k < more.len() implies only_start_codes(#[trigger] more[k]) by {
        if k > 0 {
            assert(more[k] == gaps[k - 1]);
        }
    }
    assert forall|k: int| 0 < k < all.len() implies (#[trigger] more[k]).len() > 0 by {
        assert(more[k] == gaps[k - 1]);
    }
    assert forall|k: int| 0 < k < more.len() && begins_short(#[trigger] more[k]) implies all[k
        - 1].last() != 0 by {
        assert(more[k] == gaps[k - 1]);
        if k > 1 {
            assert(all[k - 1] == units[k - 2]);
        }
    }
    assert(more.drop_first() =~= gaps);
    assert(all.drop_first() =~= units);
    assert(interleave(more, all) == none + unit + data);
    assert(none + unit + data =~= unit + data);
}

proof fn lemma_gaps(data: Seq<u8>) -> (gaps: Seq<Seq<u8>>)
    ensures
        separates(gaps, pieces(data), data),
    decreases data.len(),
{
    lemma_first_start_code_is_first(data, 0);
    let p = first_start_code(data, 0);
    let none = Seq::<u8>::empty();
    let unit = data.take(p);
    if p < data.len() {
        let n = start_code_len(data, p);
        let rest = data.skip(p + n);
        let code = data.subrange(p, p + n);
        law_start_codes(data, p);
        let inner = lemma_gaps(rest);
        let wide = lemma_widen_first_gap(code, inner, pieces(rest), rest);
        if p > 0 {
            if n == 3 {
                assert(start_code_len(data, p - 1) == 0);
                assert(data[p] == 0 && data[p + 1] == 0 && data[p + 2] == 1);
                assert(unit.last() == data[p - 1]);
            }
            lemma_put_unit_before(unit, wide, pieces(rest), code + rest);
            assert(unit + (code + rest) =~= data);
            seq![none] + wide
        } else {
            assert(code + rest =~= data);
            assert(pieces(data) =~= pieces(rest));
            wide
        }
    } else if p > 0 {
        lemma_put_unit_before(unit, seq![none], seq![], none);
        assert(unit + none =~= data);
        assert(pieces(data) =~= seq![unit] + Seq::<Seq<u8>>::empty());
        seq![none] + seq![none]
    } else {
        assert(data =~= none);
        assert(pieces(data) =~= Seq::<Seq<u8>>::empty());
        seq![none]
    }
}

} // verus!
