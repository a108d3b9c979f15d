//! Turning per-codec lists into the records of one device.
use vstd::prelude::*;
use crate::model::{
    codec_order, details_views, Codec, CodecDetails, CodecDetailsView, DecodingSpec,
    EncodingSpec, CODEC_COUNT,
};

verus! {

/// The contents of a list of lists.
pub open spec fn lists<T>(buckets: Seq<Vec<T>>) -> Seq<Seq<T>> {
    Seq::new(buckets.len(), |k: int| buckets[k]@)
}

/// For every codec, no entry at all.
pub open spec fn no_entries<T>() -> Seq<Seq<T>> {
    Seq::new(CODEC_COUNT as nat, |k: int| Seq::<T>::empty())
}

/// An empty list for every codec.
pub fn empty_lists<T>() -> (r: Vec<Vec<T>>)
    ensures
        r@.len() == CODEC_COUNT,
        forall|k: int| 0 <= k < CODEC_COUNT ==> (#[trigger] r@[k])@ == Seq::<T>::empty(),
        lists(r@) == no_entries::<T>(),
{
    let mut r: Vec<Vec<T>> = Vec::new();
    let mut k: usize = 0;
    while k < CODEC_COUNT
        invariant
            k <= CODEC_COUNT,
            r@.len() == k,
            forall|j: int| 0 <= j < k ==> (#[trigger] r@[j])@ == Seq::<T>::empty(),
        decreases CODEC_COUNT - k,
    {
        r.push(Vec::new());
        k = k + 1;
    }
    assert(lists(r@) =~= no_entries::<T>());
    r
}

/// The record that the codec at place `k` of the report order gets from the
/// two lists filed at that place.
pub open spec fn entry_at(
    decode: Seq<Seq<DecodingSpec>>,
    encode: Seq<Seq<EncodingSpec>>,
    k: int,
) -> CodecDetailsView {
    CodecDetailsView {
        codec: codec_order()[k],
        decoding_specs: decode[k],
        encoding_specs: encode[k],
    }
}

/// The records of one device, given for each place of the report order the
/// decode list and the encode list of its codec: walking the first `n`
/// places in order, a codec with an entry in either list gets one record
/// that holds both lists, and a codec with neither gets none.
pub open spec fn assembled(
    decode: Seq<Seq<DecodingSpec>>,
    encode: Seq<Seq<EncodingSpec>>,
    n: int,
) -> Seq<CodecDetailsView>
    decreases n,
{
    if n <= 0 {
        Seq::empty()
    } else {
        let before = assembled(decode, encode, n - 1);
        let entry = entry_at(decode, encode, n - 1);
        if entry.is_empty() {
            before
        } else {
            before.push(entry)
        }
    }
}

/// Whether some record of the list is about `codec`.
pub open spec fn lists_codec(records: Seq<CodecDetailsView>, codec: Codec) -> bool {
    exists|i: int| 0 <= i < records.len() && (#[trigger] records[i]).codec == codec
}

/// Whether the records stand in report order with no codec twice.
pub open spec fn in_report_order(records: Seq<CodecDetailsView>) -> bool {
    forall|i: int, j: int|
        0 <= i < j < records.len() ==> (#[trigger] records[i]).codec.spec_rank() < (
        #[trigger] records[j]).codec.spec_rank()
}

/// What holds of the records assembled from the first `n` places.
proof fn lemma_assembled_prefix(
    decode: Seq<Seq<DecodingSpec>>,
    encode: Seq<Seq<EncodingSpec>>,
    n: int,
)
    requires
        0 <= n <= CODEC_COUNT,
    ensures
        assembled(decode, encode, n).len() <= n,
        in_report_order(assembled(decode, encode, n)),
        forall|i: int|
            0 <= i < assembled(decode, encode, n).len() ==> {
                let r = #[trigger] assembled(decode, encode, n)[i];
                &&& 0 <= r.codec.spec_rank() < n
                &&& r == entry_at(decode, encode, r.codec.spec_rank())
                &&& !r.is_empty()
            },
        forall|k: int|
            0 <= k < n && !(#[trigger] entry_at(decode, encode, k)).is_empty() ==> assembled(
                decode,
                encode,
                n,
            ).contains(entry_at(decode, encode, k)),
    decreases n,
{
    if n > 0 {
        lemma_assembled_prefix(decode, encode, n - 1);
        let before = assembled(decode, encode, n - 1);
        let entry = entry_at(decode, encode, n - 1);
        let now = assembled(decode, encode, n);
        assert(entry.codec.spec_rank() == n - 1);
        if !entry.is_empty() {
            assert(now == before.push(entry));
            assert(now[before.len() as int] == entry);
            assert forall|k: int|
                0 <= k < n && !(#[trigger] entry_at(decode, encode, k)).is_empty() implies now.contains(
                entry_at(decode, encode, k),
            ) by {
                if k < n - 1 {
                    let e = entry_at(decode, encode, k);
                    assert(before.contains(e));
                    let i = choose|i: int| 0 <= i < before.len() && before[i] == e;
                    assert(now[i] == e);
                }
            }
        }
    }
}

/// A device lists a codec if and only if it decodes or encodes at least one
/// format of it; the record then holds exactly the two lists of that codec;
/// and the records stand in report order, each codec at most once.
pub proof fn lemma_codec_listed_iff_supported(
    decode: Seq<Seq<DecodingSpec>>,
    encode: Seq<Seq<EncodingSpec>>,
    codec: Codec,
)
    ensures
        lists_codec(assembled(decode, encode, CODEC_COUNT as int), codec) <==> (decode[codec.spec_rank()].len()
            > 0 || encode[codec.spec_rank()].len() > 0),
        forall|i: int|
            0 <= i < assembled(decode, encode, CODEC_COUNT as int).len() && (#[trigger] assembled(
                decode,
                encode,
                CODEC_COUNT as int,
            )[i]).codec == codec ==> assembled(decode, encode, CODEC_COUNT as int)[i] == entry_at(
                decode,
                encode,
                codec.spec_rank(),
            ),
        in_report_order(assembled(decode, encode, CODEC_COUNT as int)),
{
    let all = assembled(decode, encode, CODEC_COUNT as int);
    lemma_assembled_prefix(decode, encode, CODEC_COUNT as int);
    let k = codec.spec_rank();
    let entry = entry_at(decode, encode, k);
    assert(entry.codec == codec);
    if !entry.is_empty() {
        assert(all.contains(entry));
        let i = choose|i: int| 0 <= i < all.len() && all[i] == entry;
        assert(all[i].codec == codec);
    }
    if lists_codec(all, codec) {
        let i = choose|i: int| 0 <= i < all.len() && (#[trigger] all[i]).codec == codec;
        assert(all[i] == entry_at(decode, encode, all[i].codec.spec_rank()));
    }
}

/// Builds the records of one device from the lists filed per codec, which
/// are taken in report order. A codec with no entry in either list is left
/// out.
pub(crate) fn assemble(decode: Vec<Vec<DecodingSpec>>, encode: Vec<Vec<EncodingSpec>>) -> (r: Vec<
    CodecDetails,
>)
    requires
        decode@.len() == CODEC_COUNT,
        encode@.len() == CODEC_COUNT,
    ensures
        details_views(r@) == assembled(lists(decode@), lists(encode@), CODEC_COUNT as int),
{
    let mut decode = decode;
    let mut encode = encode;
    let ghost dec = lists(decode@);
    let ghost enc = lists(encode@);
    let mut out: Vec<CodecDetails> = Vec::new();
    let mut k: usize = 0;
    assert(details_views(out@) =~= assembled(dec, enc, 0));
    while k < CODEC_COUNT
        invariant
            k <= CODEC_COUNT,
            decode@.len() == CODEC_COUNT,
            encode@.len() == CODEC_COUNT,
            dec.len() == CODEC_COUNT,
            enc.len() == CODEC_COUNT,
            forall|j: int| k <= j < CODEC_COUNT ==> (#[trigger] decode@[j])@ == dec[j],
            forall|j: int| k <= j < CODEC_COUNT ==> (#[trigger] encode@[j])@ == enc[j],
            details_views(out@) == assembled(dec, enc, k as int),
        decreases CODEC_COUNT - k,
    {
        let mut decoding: Vec<DecodingSpec> = Vec::new();
        let mut encoding: Vec<EncodingSpec> = Vec::new();
        core::mem::swap(&mut decoding, &mut decode[k]);
        core::mem::swap(&mut encoding, &mut encode[k]);
        assert(decoding@ == dec[k as int]);
        assert(encoding@ == enc[k as int]);
        if !(decoding.is_empty() && encoding.is_empty()) {
            let ghost before = details_views(out@);
            let details = CodecDetails::new(Codec::from_rank(k), decoding, encoding);
            assert(details@ == entry_at(dec, enc, k as int));
            out.push(details);
            assert(details_views(out@) =~= before.push(entry_at(dec, enc, k as int)));
        }
        k = k + 1;
    }
    out
}

/// The view of an optional record.
pub open spec fn record_view(record: Option<CodecDetails>) -> Option<CodecDetailsView> {
    match record {
        Some(r) => Some(r@),
        None => None,
    }
}

/// The record that is filed under `codec` once the given records were
/// filed one after the other, a later one replacing an earlier one of the
/// same codec.
pub open spec fn last_record(records: Seq<CodecDetailsView>, codec: Codec) -> Option<
    CodecDetailsView,
>
    decreases records.len(),
{
    if records.len() == 0 {
        None
    } else if records.last().codec == codec {
        Some(records.last())
    } else {
        last_record(records.drop_last(), codec)
    }
}

/// For every codec in report order, the decode list of the record filed
/// under it, empty where none is.
pub open spec fn filed_decoding(records: Seq<CodecDetailsView>) -> Seq<Seq<DecodingSpec>> {
    Seq::new(
        CODEC_COUNT as nat,
        |k: int|
            match last_record(records, codec_order()[k]) {
                Some(r) => r.decoding_specs,
                None => Seq::empty(),
            },
    )
}

/// For every codec in report order, the encode list of the record filed
/// under it, empty where none is.
pub open spec fn filed_encoding(records: Seq<CodecDetailsView>) -> Seq<Seq<EncodingSpec>> {
    Seq::new(
        CODEC_COUNT as nat,
        |k: int|
            match last_record(records, codec_order()[k]) {
                Some(r) => r.encoding_specs,
                None => Seq::empty(),
            },
    )
}

/// Files each record under its codec, a later one replacing an earlier one
/// of the same codec.
fn file_records(records: Vec<CodecDetails>) -> (r: Vec<Option<CodecDetails>>)
    ensures
        r@.len() == CODEC_COUNT,
        forall|k: int|
            0 <= k < CODEC_COUNT ==> record_view(#[trigger] r@[k]) == last_record(
                details_views(records@),
                codec_order()[k],
            ),
{
    let mut slots: Vec<Option<CodecDetails>> = Vec::new();
    let mut k: usize = 0;
    while k < CODEC_COUNT
        invariant
            k <= CODEC_COUNT,
            slots@.len() == k,
            forall|j: int| 0 <= j < k ==> (#[trigger] slots@[j]) is None,
        decreases CODEC_COUNT - k,
    {
        slots.push(None);
        k = k + 1;
    }
    let ghost full = records@;
    let ghost views = details_views(full);
    for record in it: records
        invariant
            it.seq() == full,
            views == details_views(full),
            slots@.len() == CODEC_COUNT,
            forall|j: int|
                0 <= j < CODEC_COUNT ==> record_view(#[trigger] slots@[j]) == last_record(
                    views.take(it.index() as int),
                    codec_order()[j],
                ),
    {
        let ghost before = slots@;
        let ghost i = it.index() as int;
        let place = record.codec().rank();
        proof {
            let next = views.take(i + 1);
            assert(next.drop_last() =~= views.take(i));
            assert(next.last() == record@);
        }
        slots[place] = Some(record);
        assert forall|j: int| 0 <= j < CODEC_COUNT implies record_view(#[trigger] slots@[j])
            == last_record(views.take(i + 1), codec_order()[j]) by {
            if j != place {
                assert(slots@[j] == before[j]);
            }
        }
    }
    assert(views.take(full.len() as int) =~= views);
    slots
}

/// The records of one device, from the records of its decode probe and
/// those of its encode probe. For each codec the decode list of the decode
/// record filed under it is joined with the encode list of the encode
/// record filed under it; where several records of one list are about the
/// same codec the last one counts. The codecs come out in report order,
/// and a codec with no format in either list is left out.
pub fn combine_codecs(decode: Vec<CodecDetails>, encode: Vec<CodecDetails>) -> (r: Vec<
    CodecDetails,
>)
    ensures
        details_views(r@) == assembled(
            filed_decoding(details_views(decode@)),
            filed_encoding(details_views(encode@)),
            CODEC_COUNT as int,
        ),
{
    let ghost dec = filed_decoding(details_views(decode@));
    let ghost enc = filed_encoding(details_views(encode@));
    let mut decode_slots = file_records(decode);
    let mut encode_slots = file_records(encode);
    let mut out: Vec<CodecDetails> = Vec::new();
    let mut k: usize = 0;
    assert(details_views(out@) =~= assembled(dec, enc, 0));
    while k < CODEC_COUNT
        invariant
            k <= CODEC_COUNT,
            decode_slots@.len() == CODEC_COUNT,
            encode_slots@.len() == CODEC_COUNT,
            dec.len() == CODEC_COUNT,
            enc.len() == CODEC_COUNT,
            forall|j: int|
                k <= j < CODEC_COUNT ==> crate::model::decoding_side(#[trigger] decode_slots@[j])
                    == dec[j],
            forall|j: int|
                k <= j < CODEC_COUNT ==> crate::model::encoding_side(#[trigger] encode_slots@[j])
                    == enc[j],
            details_views(out@) == assembled(dec, enc, k as int),
        decreases CODEC_COUNT - k,
    {
        let decoding = decode_slots[k].take();
        let encoding = encode_slots[k].take();
        let details = CodecDetails::combine(Codec::from_rank(k), decoding, encoding);
        assert(details@ == entry_at(dec, enc, k as int));
        if !(details.decoding_specs().is_empty() && details.encoding_specs().is_empty()) {
            let ghost before = details_views(out@);
            out.push(details);
            assert(details_views(out@) =~= before.push(entry_at(dec, enc, k as int)));
        }
        k = k + 1;
    }
    out
}

/// What is filed under a codec is the last record about it: there is one
/// exactly if some record is about the codec, and no record behind it is.
pub proof fn lemma_last_record(records: Seq<CodecDetailsView>, codec: Codec)
    ensures
        last_record(records, codec) is None <==> !lists_codec(records, codec),
        last_record(records, codec) is Some ==> exists|i: int|
            0 <= i < records.len() && #[trigger] records[i] == last_record(records, codec).unwrap()
                && records[i].codec == codec && forall|j: int|
                i < j < records.len() ==> (#[trigger] records[j]).codec != codec,
    decreases records.len(),
{
    if records.len() > 0 {
        let before = records.drop_last();
        lemma_last_record(before, codec);
        if records.last().codec == codec {
            assert(records[records.len() - 1].codec == codec);
        } else {
            if lists_codec(records, codec) {
                let i = choose|i: int| 0 <= i < records.len() && (#[trigger] records[i]).codec == codec;
                assert(before[i].codec == codec);
            }
            if lists_codec(before, codec) {
                let i = choose|i: int| 0 <= i < before.len() && (#[trigger] before[i]).codec == codec;
                assert(records[i].codec == codec);
            }
            if last_record(before, codec) is Some {
                let i = choose|i: int|
                    0 <= i < before.len() && #[trigger] before[i] == last_record(before, codec).unwrap()
                        && before[i].codec == codec && forall|j: int|
                        i < j < before.len() ==> (#[trigger] before[j]).codec != codec;
                assert(records[i] == before[i]);
                assert forall|j: int| i < j < records.len() implies (#[trigger] records[j]).codec
                    != codec by {
                    if j < before.len() {
                        assert(before[j] == records[j]);
                    }
                }
            }
        }
    }
}

/// Filing the assembled records of a device gives back the lists they were
/// assembled from.
pub proof fn lemma_filed_assembled(decode: Seq<Seq<DecodingSpec>>, encode: Seq<Seq<EncodingSpec>>)
    requires
        decode.len() == CODEC_COUNT,
        encode.len() == CODEC_COUNT,
    ensures
        filed_decoding(assembled(decode, encode, CODEC_COUNT as int)) == decode,
        filed_encoding(assembled(decode, encode, CODEC_COUNT as int)) == encode,
{
    let all = assembled(decode, encode, CODEC_COUNT as int);
    lemma_assembled_prefix(decode, encode, CODEC_COUNT as int);
    assert forall|k: int| 0 <= k < CODEC_COUNT implies #[trigger] decode[k] == filed_decoding(
        all,
    )[k] && encode[k] == filed_encoding(all)[k] by {
        let codec = codec_order()[k];
        assert(codec.spec_rank() == k);
        lemma_last_record(all, codec);
        lemma_codec_listed_iff_supported(decode, encode, codec);
        if last_record(all, codec) is Some {
            let i = choose|i: int|
                0 <= i < all.len() && #[trigger] all[i] == last_record(all, codec).unwrap()
                    && all[i].codec == codec;
            assert(all[i] == entry_at(decode, encode, k));
        } else {
            assert(decode[k] =~= Seq::empty());
            assert(encode[k] =~= Seq::empty());
        }
    }
    assert(filed_decoding(all) =~= decode);
    assert forall|k: int| 0 <= k < CODEC_COUNT implies #[trigger] encode[k] == filed_encoding(
        all,
    )[k] by {
        assert(decode[k] == filed_decoding(all)[k] && encode[k] == filed_encoding(all)[k]);
    }
    assert(filed_encoding(all) =~= encode);
}

} // verus!
