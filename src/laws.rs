use vstd::prelude::*;
use crate::bits::{bit_at, bits_value, packed_value, unpack_fits};
use crate::error::Grib1Error;
use crate::message::{
    any_match, bds_pos, gds_pos, grib_spec, is_grib_magic, message_length,
    message_spec, msg_pds, Grib, SearchParams, HEADER_LEN, MAGIC_LEN,
};
use crate::reader::{
    bytes_view, decode_spec, extract_spec, gribs_view, matched, raw_bytes, scan_spec, total_length,
};

verus! {

/// A message is accepted only when it starts with `GRIB` and is of edition 1.
/// Any other magic fails with `WrongHeader` as soon as four bytes remain; any
/// other edition byte fails with `WrongVersion` carrying that byte.
pub proof fn lemma_header_checked(f: Seq<u8>, off: int, search: Seq<SearchParams>, read_bds: bool)
    ensures
        message_spec(f, off, search, read_bds) is Ok ==> is_grib_magic(f, off) && f[off + 7] == 1,
        off + MAGIC_LEN <= f.len() && !is_grib_magic(f, off) ==> message_spec(
            f,
            off,
            search,
            read_bds,
        ) == Err::<bool, Grib1Error>(Grib1Error::WrongHeader),
        off + HEADER_LEN <= f.len() && is_grib_magic(f, off) && f[off + 7] != 1 ==> message_spec(
            f,
            off,
            search,
            read_bds,
        ) == Err::<bool, Grib1Error>(Grib1Error::WrongVersion(f[off + 7])),
{
}

/// Decoding the same file twice with the same criteria gives the same
/// outcome, in both modes.
pub proof fn lemma_decode_repeatable(
    f: Seq<u8>,
    search: Seq<SearchParams>,
    r1: Result<Vec<Grib>, Grib1Error>,
    r2: Result<Vec<Grib>, Grib1Error>,
    b1: Result<Vec<u8>, Grib1Error>,
    b2: Result<Vec<u8>, Grib1Error>,
)
    requires
        gribs_view(r1) == decode_spec(f, search),
        gribs_view(r2) == decode_spec(f, search),
        bytes_view(b1) == extract_spec(f, search),
        bytes_view(b2) == extract_spec(f, search),
    ensures
        gribs_view(r1) == gribs_view(r2),
        bytes_view(b1) == bytes_view(b2),
{
}

/// What a successful scan from `off` lists: each message lies within the file
/// and is listed as matched exactly when its scan says so.
proof fn lemma_scan_facts(f: Seq<u8>, off: nat, search: Seq<SearchParams>, read_bds: bool)
    requires
        scan_spec(f, off, search, read_bds) is Ok,
    ensures
        ({
            let ms = scan_spec(f, off, search, read_bds)->Ok_0;
            &&& forall|i: int|
                0 <= i < ms.len() ==> #[trigger] ms[i].0 + message_length(f, ms[i].0 as int)
                    <= f.len() && message_spec(f, ms[i].0 as int, search, read_bds) == Ok::<
                    bool,
                    Grib1Error,
                >(ms[i].1)
            &&& off <= f.len() ==> total_length(f, ms) == f.len() - off
        }),
    decreases f.len() - off,
{
    if off < f.len() {
        let m = message_spec(f, off as int, search, read_bds)->Ok_0;
        let next = off + message_length(f, off as int);
        lemma_scan_facts(f, next, search, read_bds);
        let rest = scan_spec(f, next, search, read_bds)->Ok_0;
        lemma_total_prepend(f, (off, m), rest);
        let ms = scan_spec(f, off, search, read_bds)->Ok_0;
        assert forall|i: int| 0 <= i < ms.len() implies #[trigger] ms[i].0 + message_length(
            f,
            ms[i].0 as int,
        ) <= f.len() && message_spec(f, ms[i].0 as int, search, read_bds) == Ok::<
            bool,
            Grib1Error,
        >(ms[i].1) by {
            if i > 0 {
                assert(ms[i] == rest[i - 1]);
            }
        }
    }
}

proof fn lemma_total_prepend(f: Seq<u8>, x: (nat, bool), rest: Seq<(nat, bool)>)
    ensures
        total_length(f, seq![x] + rest) == message_length(f, x.0 as int) + total_length(f, rest),
    decreases rest.len(),
{
    let s = seq![x] + rest;
    if rest.len() > 0 {
        assert(s.drop_last() =~= seq![x] + rest.drop_last());
        assert(s.last() == rest.last());
        lemma_total_prepend(f, x, rest.drop_last());
    } else {
        assert(s.drop_last() =~= Seq::<(nat, bool)>::empty());
        assert(s.last() == x);
        assert(total_length(f, Seq::<(nat, bool)>::empty()) == 0);
        assert(rest =~= Seq::<(nat, bool)>::empty());
    }
}

/// Whether `o` is listed in `ms` as a matched message.
spec fn listed_match(ms: Seq<(nat, bool)>, o: nat) -> bool {
    exists|i: int| 0 <= i < ms.len() && #[trigger] ms[i] == (o, true)
}

proof fn lemma_matched_members(ms: Seq<(nat, bool)>)
    ensures
        forall|j: int| 0 <= j < matched(ms).len() ==> listed_match(ms, #[trigger] matched(ms)[j]),
    decreases ms.len(),
{
    if ms.len() > 0 {
        let prev = ms.drop_last();
        lemma_matched_members(prev);
        assert forall|j: int| 0 <= j < matched(ms).len() implies listed_match(
            ms,
            #[trigger] matched(ms)[j],
        ) by {
            if j < matched(prev).len() {
                assert(listed_match(prev, matched(prev)[j]));
                let i = choose|i: int| 0 <= i < prev.len() && #[trigger] prev[i] == (matched(prev)[j], true);
                assert(ms[i] == prev[i]);
            } else {
                assert(ms[ms.len() - 1] == (matched(ms)[j], true));
            }
        }
    }
}

proof fn lemma_matched_none(ms: Seq<(nat, bool)>)
    requires
        forall|i: int| 0 <= i < ms.len() ==> !(#[trigger] ms[i]).1,
    ensures
        matched(ms) == Seq::<nat>::empty(),
    decreases ms.len(),
{
    if ms.len() > 0 {
        lemma_matched_none(ms.drop_last());
    }
}

/// In raw-bytes mode, when exactly one message matches, the output holds
/// exactly as many bytes as that message reports in its length field.
pub proof fn lemma_raw_single(f: Seq<u8>, search: Seq<SearchParams>)
    requires
        scan_spec(f, 0, search, false) is Ok,
        matched(scan_spec(f, 0, search, false)->Ok_0).len() == 1,
    ensures
        extract_spec(f, search) is Ok,
        extract_spec(f, search)->Ok_0.len() == message_length(
            f,
            matched(scan_spec(f, 0, search, false)->Ok_0)[0] as int,
        ),
{
    let ms = scan_spec(f, 0, search, false)->Ok_0;
    lemma_scan_facts(f, 0, search, false);
    lemma_matched_members(ms);
    let offs = matched(ms);
    let o = offs[0] as int;
    assert(offs.drop_last() =~= Seq::<nat>::empty());
    assert(raw_bytes(f, offs.drop_last()) == Seq::<u8>::empty());
    assert(listed_match(ms, offs[0]));
    let i = choose|i: int| 0 <= i < ms.len() && #[trigger] ms[i] == (offs[0], true);
    assert(ms[i].0 + message_length(f, ms[i].0 as int) <= f.len());
    assert(raw_bytes(f, offs) =~= f.subrange(o, o + message_length(f, o)));
}

/// When no message of the file matches any criterion, decoding succeeds
/// with an empty result, provided the file scans without error.
pub proof fn lemma_no_match_empty(f: Seq<u8>, search: Seq<SearchParams>)
    requires
        scan_spec(f, 0, search, true) is Ok,
        forall|i: int|
            0 <= i < scan_spec(f, 0, search, true)->Ok_0.len() ==> !any_match(
                msg_pds(f, (#[trigger] scan_spec(f, 0, search, true)->Ok_0[i]).0 as int),
                search,
            ),
    ensures
        decode_spec(f, search) == Ok::<Seq<crate::message::GribView>, Grib1Error>(Seq::empty()),
{
    let ms = scan_spec(f, 0, search, true)->Ok_0;
    lemma_scan_facts(f, 0, search, true);
    assert forall|i: int| 0 <= i < ms.len() implies !(#[trigger] ms[i]).1 by {
        assert(!any_match(msg_pds(f, ms[i].0 as int), search));
    }
    lemma_matched_none(ms);
    assert(matched(ms).map_values(|o: nat| grib_spec(f, o as int, true)) =~= Seq::empty());
}

/// An empty file decodes to an empty result without error.
pub proof fn lemma_empty_file(search: Seq<SearchParams>, read_bds: bool)
    ensures
        scan_spec(Seq::empty(), 0, search, read_bds) == Ok::<Seq<(nat, bool)>, Grib1Error>(
            Seq::empty(),
        ),
        decode_spec(Seq::empty(), search) is Ok,
        decode_spec(Seq::empty(), search)->Ok_0.len() == 0,
{
    assert(matched(Seq::<(nat, bool)>::empty()) == Seq::<nat>::empty());
}

/// The reported lengths of the messages walked add up to the file's length
/// exactly, and each message lies within the file.
pub proof fn lemma_lengths_cover_file(f: Seq<u8>, search: Seq<SearchParams>, read_bds: bool)
    requires
        scan_spec(f, 0, search, read_bds) is Ok,
    ensures
        total_length(f, scan_spec(f, 0, search, read_bds)->Ok_0) == f.len(),
        forall|i: int|
            0 <= i < scan_spec(f, 0, search, read_bds)->Ok_0.len() ==> (#[trigger] scan_spec(
                f,
                0,
                search,
                read_bds,
            )->Ok_0[i]).0 + message_length(f, scan_spec(f, 0, search, read_bds)->Ok_0[i].0 as int)
                <= f.len(),
{
    lemma_scan_facts(f, 0, search, read_bds);
}

/// A message whose flags announce neither a grid description nor a bitmap
/// has neither in its decoded form, and its binary data section follows its
/// product definition directly.
pub proof fn lemma_no_optional_sections(f: Seq<u8>, off: int, read_bds: bool)
    requires
        !msg_pds(f, off).gds_present(),
        !msg_pds(f, off).bmp_present(),
    ensures
        grib_spec(f, off, read_bds).gds is None,
        bds_pos(f, off) == gds_pos(f, off),
{
}

/// Unpacking at a width of 8 bits gives back the bytes themselves: as many
/// values as there are bytes fit, one more does not.
pub proof fn lemma_unpack_width8(buf: Seq<u8>)
    ensures
        unpack_fits(buf, 8, buf.len()),
        !unpack_fits(buf, 8, buf.len() + 1),
        forall|k: int| 0 <= k < buf.len() ==> #[trigger] packed_value(buf, 8, k) == buf[k] as nat,
{
    assert forall|k: int| 0 <= k < buf.len() implies #[trigger] packed_value(buf, 8, k)
        == buf[k] as nat by {
        lemma_byte_bits(buf, k);
    }
}

proof fn lemma_byte_bits(buf: Seq<u8>, k: int)
    requires
        0 <= k < buf.len(),
    ensures
        bits_value(buf, k * 8, 8) == buf[k] as nat,
{
    reveal_with_fuel(bits_value, 9);
    let x = buf[k];
    assert((k * 8 + 0) / 8 == k && (k * 8 + 0) % 8 == 0);
    assert((k * 8 + 1) / 8 == k && (k * 8 + 1) % 8 == 1);
    assert((k * 8 + 2) / 8 == k && (k * 8 + 2) % 8 == 2);
    assert((k * 8 + 3) / 8 == k && (k * 8 + 3) % 8 == 3);
    assert((k * 8 + 4) / 8 == k && (k * 8 + 4) % 8 == 4);
    assert((k * 8 + 5) / 8 == k && (k * 8 + 5) % 8 == 5);
    assert((k * 8 + 6) / 8 == k && (k * 8 + 6) % 8 == 6);
    assert((k * 8 + 7) / 8 == k && (k * 8 + 7) % 8 == 7);
    let b0 = (x >> 7u8) & 1u8;
    let b1 = (x >> 6u8) & 1u8;
    let b2 = (x >> 5u8) & 1u8;
    let b3 = (x >> 4u8) & 1u8;
    let b4 = (x >> 3u8) & 1u8;
    let b5 = (x >> 2u8) & 1u8;
    let b6 = (x >> 1u8) & 1u8;
    let b7 = (x >> 0u8) & 1u8;
    assert(bit_at(buf, k * 8 + 0) == b0 as nat);
    assert(bit_at(buf, k * 8 + 1) == b1 as nat);
    assert(bit_at(buf, k * 8 + 2) == b2 as nat);
    assert(bit_at(buf, k * 8 + 3) == b3 as nat);
    assert(bit_at(buf, k * 8 + 4) == b4 as nat);
    assert(bit_at(buf, k * 8 + 5) == b5 as nat);
    assert(bit_at(buf, k * 8 + 6) == b6 as nat);
    assert(bit_at(buf, k * 8 + 7) == b7 as nat);
    assert(x as nat == ((((((b0 as nat * 2 + b1 as nat) * 2 + b2 as nat) * 2 + b3 as nat) * 2
        + b4 as nat) * 2 + b5 as nat) * 2 + b6 as nat) * 2 + b7 as nat) by (bit_vector)
        requires
            b0 == (x >> 7u8) & 1u8,
            b1 == (x >> 6u8) & 1u8,
            b2 == (x >> 5u8) & 1u8,
            b3 == (x >> 4u8) & 1u8,
            b4 == (x >> 3u8) & 1u8,
            b5 == (x >> 2u8) & 1u8,
            b6 == (x >> 1u8) & 1u8,
            b7 == (x >> 0u8) & 1u8,
    ;
}

/// The offset of the `k`-th message of the chain that starts at `off`: each
/// message's reported length leads to the next.
pub open spec fn chain_pos(f: Seq<u8>, off: nat, k: nat) -> nat
    decreases k,
{
    if k == 0 {
        off
    } else {
        chain_pos(f, off + message_length(f, off as int), (k - 1) as nat)
    }
}

proof fn lemma_chain_error(
    f: Seq<u8>,
    off: nat,
    search: Seq<SearchParams>,
    read_bds: bool,
    j: nat,
    e: Grib1Error,
)
    requires
        forall|i: nat|
            i < j ==> #[trigger] chain_pos(f, off, i) < f.len() && message_spec(
                f,
                chain_pos(f, off, i) as int,
                search,
                read_bds,
            ) is Ok,
        chain_pos(f, off, j) < f.len(),
        message_spec(f, chain_pos(f, off, j) as int, search, read_bds) == Err::<bool, Grib1Error>(e),
    ensures
        scan_spec(f, off, search, read_bds) == Err::<Seq<(nat, bool)>, Grib1Error>(e),
    decreases j,
{
    if j > 0 {
        let next = off + message_length(f, off as int);
        assert(chain_pos(f, off, 0) == off);
        assert forall|i: nat| i < (j - 1) as nat implies #[trigger] chain_pos(f, next, i) < f.len()
            && message_spec(f, chain_pos(f, next, i) as int, search, read_bds) is Ok by {
            assert(chain_pos(f, off, i + 1) == chain_pos(f, next, i));
        }
        assert(chain_pos(f, off, j) == chain_pos(f, next, (j - 1) as nat));
        lemma_chain_error(f, next, search, read_bds, (j - 1) as nat, e);
    }
}

/// A message anywhere on the file's chain of messages that does not start
/// with `GRIB` makes the whole scan fail with `WrongHeader`, whatever matched
/// before it; one with the right letters but another edition byte makes it
/// fail with `WrongVersion` carrying that byte. Here the messages before the
/// `j`-th one scan without error.
pub proof fn lemma_bad_header_on_chain(f: Seq<u8>, search: Seq<SearchParams>, read_bds: bool, j: nat)
    requires
        forall|i: nat|
            i < j ==> #[trigger] chain_pos(f, 0, i) < f.len() && message_spec(
                f,
                chain_pos(f, 0, i) as int,
                search,
                read_bds,
            ) is Ok,
        chain_pos(f, 0, j) + MAGIC_LEN <= f.len(),
    ensures
        !is_grib_magic(f, chain_pos(f, 0, j) as int) ==> scan_spec(f, 0, search, read_bds)
            == Err::<Seq<(nat, bool)>, Grib1Error>(Grib1Error::WrongHeader),
        !is_grib_magic(f, chain_pos(f, 0, j) as int) && read_bds ==> decode_spec(f, search)
            == Err::<Seq<crate::message::GribView>, Grib1Error>(Grib1Error::WrongHeader),
        !is_grib_magic(f, chain_pos(f, 0, j) as int) && !read_bds ==> extract_spec(f, search)
            == Err::<Seq<u8>, Grib1Error>(Grib1Error::WrongHeader),
        ({
            let o = chain_pos(f, 0, j) as int;
            o + HEADER_LEN <= f.len() && is_grib_magic(f, o) && f[o + 7] != 1 ==> scan_spec(
                f,
                0,
                search,
                read_bds,
            ) == Err::<Seq<(nat, bool)>, Grib1Error>(Grib1Error::WrongVersion(f[o + 7]))
        }),
{
    let o = chain_pos(f, 0, j) as int;
    let r = message_spec(f, o, search, read_bds);
    if r is Err {
        lemma_chain_error(f, 0, search, read_bds, j, r->Err_0);
    }
}

/// In a whole-file read, every decoded message whose flags announce neither
/// a grid description nor a bitmap has no grid description and an empty
/// sample list.
pub proof fn lemma_no_optional_sections_in_file(f: Seq<u8>, search: Seq<SearchParams>)
    requires
        decode_spec(f, search) is Ok,
    ensures
        forall|i: int|
            0 <= i < decode_spec(f, search)->Ok_0.len() && !(#[trigger] decode_spec(
                f,
                search,
            )->Ok_0[i]).pds.gds_present() && !decode_spec(f, search)->Ok_0[i].pds.bmp_present()
                ==> decode_spec(f, search)->Ok_0[i].gds is None && decode_spec(f, search)->Ok_0[i].bds
                is Some && decode_spec(f, search)->Ok_0[i].bds->Some_0.data.len() == 0,
{
}

} // verus!
