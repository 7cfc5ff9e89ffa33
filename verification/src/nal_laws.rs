//! What comes out of [`crate::nal::split_nals`], whatever goes in.
use vstd::prelude::*;

use crate::nal::{
    byte_stream, interleave, law_split_loses_only_start_codes, law_split_undoes_join, law_start_codes_alone,
    law_units_are_not_empty, nal_units, only_start_codes, separable, separates, slice_views,
    split_nals, well_formed_unit,
};

verus! {

/// The bytes that a list of slices refers to, one by one.
pub open spec fn bytes_of(slices: Vec<&[u8]>) -> Seq<Seq<u8>> {
    Seq::new(slices@.len(), |k: int| slices@[k]@)
}

/// What is split off is the data but for its start codes: the units are not empty, hold nowhere the
/// bytes `00 00 01`, and stand in the data in order, with `00 00 00 01` and `00 00 01` alone around
/// them. Data that is nothing but those is handed on whole.
pub proof fn law_split_nals(data: &[u8], nals: Vec<&[u8]>)
    ensures
        call_ensures(split_nals, (data,), nals) ==> {
            &&& exists|gaps: Seq<Seq<u8>>| #[trigger] separates(gaps, bytes_of(nals), data@)
            &&& forall|k: int| 0 <= k < nals@.len() ==> (#[trigger] nals@[k])@.len() > 0
            &&& data@.len() > 0 && only_start_codes(data@) ==> nals@.len() == 1 && nals@[0]@
                == data@
            &&& !only_start_codes(data@) ==> forall|k: int, j: int|
                #![trigger nals@[k]@[j]]
                0 <= k < nals@.len() && 0 <= j && j + 3 <= nals@[k]@.len() ==> !(nals@[k]@[j] == 0
                    && nals@[k]@[j + 1] == 0 && nals@[k]@[j + 2] == 1)
        },
{
    if call_ensures(split_nals, (data,), nals) {
        let units = nal_units(data@);
        assert(slice_views(nals@) == units);
        assert(bytes_of(nals) =~= slice_views(nals@));
        law_split_loses_only_start_codes(data@);
        law_units_are_not_empty(data@);
        law_start_codes_alone(data@);
        assert forall|k: int| 0 <= k < nals@.len() implies (#[trigger] nals@[k])@.len() > 0 by {
            assert(units[k] == nals@[k]@);
        }
        if data@.len() > 0 && only_start_codes(data@) {
            assert(units.len() == 1);
            assert(units[0] == nals@[0]@);
        }
        if !only_start_codes(data@) {
            assert forall|k: int, j: int|
                #![trigger nals@[k]@[j]]
                0 <= k < nals@.len() && 0 <= j && j + 3 <= nals@[k]@.len() implies !(nals@[k]@[j]
                == 0 && nals@[k]@[j + 1] == 0 && nals@[k]@[j + 2] == 1) by {
                assert(units[k] == nals@[k]@);
                assert(well_formed_unit(units[k]));
            }
        }
    }
}

/// Whatever units are joined into a byte stream come out again, byte for byte: any bytes will do that
/// hold nowhere `00 00 01`, and do not end in a zero before a three-byte start code.
pub proof fn law_joined_units_come_out(
    data: &[u8],
    nals: Vec<&[u8]>,
    units: Seq<Seq<u8>>,
    long: Seq<bool>,
)
    requires
        units.len() == long.len(),
        forall|k: int| 0 <= k < units.len() ==> (#[trigger] units[k]).len() > 0,
        forall|k: int, j: int|
            #![trigger units[k][j]]
            0 <= k < units.len() && 0 <= j && j + 3 <= units[k].len() ==> !(units[k][j] == 0
                && units[k][j + 1] == 0 && units[k][j + 2] == 1),
        forall|k: int|
            0 <= k < units.len() - 1 && !long[k + 1] ==> (#[trigger] units[k]).last() != 0,
        data@ == byte_stream(units, long),
    ensures
        call_ensures(split_nals, (data,), nals) ==> {
            &&& nals@.len() == units.len()
            &&& forall|k: int| 0 <= k < units.len() ==> (#[trigger] nals@[k])@ == units[k]
        },
{
    assert forall|k: int| 0 <= k < units.len() implies #[trigger] well_formed_unit(units[k]) by {
        assert(units[k].len() > 0);
    }
    assert(separable(units, long));
    law_split_undoes_join(units, long);
    if call_ensures(split_nals, (data,), nals) {
        assert(slice_views(nals@) == units);
        assert forall|k: int| 0 <= k < units.len() implies (#[trigger] nals@[k])@ == units[k] by {
            assert(slice_views(nals@)[k] == nals@[k]@);
        }
    }
}

/// The bytes of a stream: each unit behind the bytes of its start code, and nothing else.
pub proof fn law_byte_stream(units: Seq<Seq<u8>>, long: Seq<bool>, unit: Seq<u8>, longer: bool)
    requires
        units.len() == long.len(),
    ensures
        byte_stream(Seq::empty(), Seq::empty()) == Seq::<u8>::empty(),
        byte_stream(seq![unit] + units, seq![longer] + long) == (if longer {
            seq![0u8, 0u8, 0u8, 1u8]
        } else {
            seq![0u8, 0u8, 1u8]
        }) + unit + byte_stream(units, long),
{
    assert((seq![unit] + units).drop_first() =~= units);
    assert((seq![longer] + long).drop_first() =~= long);
}

/// What stands between units and around them is put together piece by piece, each unit behind its
/// gap, and the last gap at the end.
pub proof fn law_interleave(gap: Seq<u8>, unit: Seq<u8>, gaps: Seq<Seq<u8>>, units: Seq<Seq<u8>>)
    ensures
        interleave(seq![gap], Seq::empty()) == gap,
        interleave(seq![gap] + gaps, seq![unit] + units) == gap + unit + interleave(gaps, units),
{
    assert((seq![gap] + gaps).drop_first() =~= gaps);
    assert((seq![unit] + units).drop_first() =~= units);
}

/// Start codes alone are nothing, or one of `00 00 00 01` and `00 00 01` and then start codes alone:
/// bytes that begin otherwise are none.
pub proof fn law_only_start_codes(data: Seq<u8>)
    ensures
        only_start_codes(Seq::empty()),
        only_start_codes(seq![0u8, 0u8, 0u8, 1u8] + data) <==> only_start_codes(data),
        only_start_codes(seq![0u8, 0u8, 1u8] + data) <==> only_start_codes(data),
        data.len() > 0 && only_start_codes(data) ==> data.len() >= 3 && data[0] == 0 && data[1] == 0
            && (data[2] == 1 || data.len() >= 4 && data[2] == 0 && data[3] == 1),
{
    let four = seq![0u8, 0u8, 0u8, 1u8] + data;
    let three = seq![0u8, 0u8, 1u8] + data;
    assert(four.take(4) =~= seq![0u8, 0u8, 0u8, 1u8]);
    assert(four.skip(4) =~= data);
    assert(four.take(3)[2] == 0);
    assert(three.take(3) =~= seq![0u8, 0u8, 1u8]);
    assert(three.skip(3) =~= data);
    if three.len() >= 4 {
        assert(three.take(4)[2] == 1);
    }
    if data.len() >= 4 {
        assert(data.take(4)[0] == data[0] && data.take(4)[1] == data[1] && data.take(4)[2] == data[2]
            && data.take(4)[3] == data[3]);
    }
    if data.len() >= 3 {
        assert(data.take(3)[0] == data[0] && data.take(3)[1] == data[1] && data.take(3)[2]
            == data[2]);
    }
}

} // verus!
