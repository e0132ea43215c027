use vstd::prelude::*;
use crate::error::Grib1Error;
use crate::message::{
    grib_spec, message_length, message_spec, read_grib, Grib, GribResult, GribView, SearchParams,
};

verus! {

/// Every message of `f` from `off` on, each with whether it matched, in file
/// order; or the error that stops the scan. Each message's length leads to
/// the next one, until the end of the file.
pub open spec fn scan_spec(f: Seq<u8>, off: nat, search: Seq<SearchParams>, read_bds: bool) -> Result<Seq<(nat, bool)>, Grib1Error>
    decreases f.len() - off,
{
    if off >= f.len() {
        Ok(Seq::empty())
    } else {
        match message_spec(f, off as int, search, read_bds) {
            Err(e) => Err(e),
            Ok(m) => match scan_spec(f, off + message_length(f, off as int), search, read_bds) {
                Err(e) => Err(e),
                Ok(rest) => Ok(seq![(off, m)] + rest),
            },
        }
    }
}

/// The offsets of the messages of `ms` that matched, in order.
pub open spec fn matched(ms: Seq<(nat, bool)>) -> Seq<nat>
    decreases ms.len(),
{
    if ms.len() == 0 {
        Seq::empty()
    } else if ms.last().1 {
        matched(ms.drop_last()).push(ms.last().0)
    } else {
        matched(ms.drop_last())
    }
}

/// The sum of the reported lengths of the messages of `ms`.
pub open spec fn total_length(f: Seq<u8>, ms: Seq<(nat, bool)>) -> nat
    decreases ms.len(),
{
    if ms.len() == 0 {
        0
    } else {
        total_length(f, ms.drop_last()) + message_length(f, ms.last().0 as int)
    }
}

/// The bytes of the messages at `offs`, each whole, one after the other.
pub open spec fn raw_bytes(f: Seq<u8>, offs: Seq<nat>) -> Seq<u8>
    decreases offs.len(),
{
    if offs.len() == 0 {
        Seq::empty()
    } else {
        let o = offs.last() as int;
        raw_bytes(f, offs.drop_last()) + f.subrange(o, o + message_length(f, o))
    }
}

/// The decoded messages of `f` that match `search`, in file order.
pub open spec fn decode_spec(f: Seq<u8>, search: Seq<SearchParams>) -> Result<Seq<GribView>, Grib1Error> {
    match scan_spec(f, 0, search, true) {
        Ok(ms) => Ok(matched(ms).map_values(|o: nat| grib_spec(f, o as int, true))),
        Err(e) => Err(e),
    }
}

/// The bytes of the messages of `f` that match `search`, in file order.
pub open spec fn extract_spec(f: Seq<u8>, search: Seq<SearchParams>) -> Result<Seq<u8>, Grib1Error> {
    match scan_spec(f, 0, search, false) {
        Ok(ms) => Ok(raw_bytes(f, matched(ms))),
        Err(e) => Err(e),
    }
}

/// The decoded messages that a call returned, as plain values.
pub open spec fn gribs_view(r: Result<Vec<Grib>, Grib1Error>) -> Result<Seq<GribView>, Grib1Error> {
    match r {
        Ok(v) => Ok(v@.map_values(|g: Grib| g@)),
        Err(e) => Err(e),
    }
}

/// The bytes that a call returned.
pub open spec fn bytes_view(r: Result<Vec<u8>, Grib1Error>) -> Result<Seq<u8>, Grib1Error> {
    match r {
        Ok(v) => Ok(v@),
        Err(e) => Err(e),
    }
}

/// What is left of a scan once `done` has been walked: the messages found so
/// far joined to the outcome of the rest.
pub open spec fn join(done: Seq<(nat, bool)>, rest: Result<Seq<(nat, bool)>, Grib1Error>) -> Result<Seq<(nat, bool)>, Grib1Error> {
    match rest {
        Ok(s) => Ok(done + s),
        Err(e) => Err(e),
    }
}

/// Appends the bytes of `file` from `start` up to `end` to `out`.
fn append_range(out: &mut Vec<u8>, file: &[u8], start: usize, end: usize)
    requires
        start <= end <= file@.len(),
    ensures
        final(out)@ == old(out)@ + file@.subrange(start as int, end as int),
{
    let ghost before = out@;
    let mut i: usize = start;
    while i < end
        invariant
            start <= i <= end <= file@.len(),
            out@ == before + file@.subrange(start as int, i as int),
        decreases end - i,
    {
        out.push(file[i]);
        assert(file@.subrange(start as int, i + 1) =~= file@.subrange(start as int, i as int).push(file@[i as int]));
        i = i + 1;
    }
}

/// Reader of GRIB edition 1 files, over the bytes of one file.
pub struct Grib1Reader {
    pub data: Vec<u8>,
}

impl Grib1Reader {
    /// A reader over the bytes of a file.
    pub fn new(data: Vec<u8>) -> (r: Grib1Reader)
        ensures
            r.data@ == data@,
    {
        Grib1Reader { data }
    }

    /// Walks the file from its start, message by message, and returns the
    /// decoded messages that match `search`, with their binary data.
    pub fn read(&self, search: Vec<SearchParams>) -> (r: Result<Vec<Grib>, Grib1Error>)
        ensures
            gribs_view(r) == decode_spec(self.data@, search@),
    {
        let ghost f = self.data@;
        let length = self.data.len();
        let mut offset: usize = 0;
        let mut result: Vec<Grib> = Vec::new();
        let ghost mut ms: Seq<(nat, bool)> = Seq::empty();
        assert(ms + Seq::<(nat, bool)>::empty() =~= ms);
        while offset < length
            invariant
                f == self.data@,
                length == f.len(),
                offset <= length,
                scan_spec(f, 0, search@, true) == join(ms, scan_spec(f, offset as nat, search@, true)),
                result@.map_values(|g: Grib| g@) == matched(ms).map_values(
                    |o: nat| grib_spec(f, o as int, true),
                ),
            decreases length - offset,
        {
            let ghost old_ms = ms;
            let grib_result = read_grib(&self.data, offset, &search, true);
            match grib_result {
                Err(e) => {
                    return Err(e);
                },
                Ok(GribResult::Grib(grib)) => {
                    let l = grib.length as usize;
                    proof {
                        ms = ms.push((offset as nat, true));
                        assert(ms.drop_last() =~= old_ms);
                    }
                    let ghost old_result = result@;
                    result.push(grib);
                    assert(result@.map_values(|g: Grib| g@) =~= old_result.map_values(|g: Grib| g@).push(grib@));
                    assert(matched(ms).map_values(|o: nat| grib_spec(f, o as int, true)) =~= matched(old_ms).map_values(|o: nat| grib_spec(f, o as int, true)).push(grib_spec(f, offset as int, true)));
                    offset = offset + l;
                },
                Ok(GribResult::Length(l)) => {
                    proof {
                        ms = ms.push((offset as nat, false));
                        assert(ms.drop_last() =~= old_ms);
                    }
                    offset = offset + l as usize;
                },
            }
            proof {
                let rest = scan_spec(f, offset as nat, search@, true);
                match rest {
                    Ok(s) => {
                        assert(old_ms + (seq![ms.last()] + s) =~= ms + s);
                    },
                    Err(_) => {},
                }
            }
        }
        assert(ms + Seq::<(nat, bool)>::empty() =~= ms);
        Ok(result)
    }

    /// Walks the file from its start, message by message, and returns the
    /// bytes of the messages that match `search`, each whole and in file
    /// order. Their binary data is not decoded.
    pub fn read_binary(&self, search: Vec<SearchParams>) -> (r: Result<Vec<u8>, Grib1Error>)
        ensures
            bytes_view(r) == extract_spec(self.data@, search@),
    {
        let ghost f = self.data@;
        let length = self.data.len();
        let mut offset: usize = 0;
        let mut result: Vec<u8> = Vec::new();
        let ghost mut ms: Seq<(nat, bool)> = Seq::empty();
        assert(ms + Seq::<(nat, bool)>::empty() =~= ms);
        while offset < length
            invariant
                f == self.data@,
                length == f.len(),
                offset <= length,
                scan_spec(f, 0, search@, false) == join(ms, scan_spec(f, offset as nat, search@, false)),
                result@ == raw_bytes(f, matched(ms)),
            decreases length - offset,
        {
            let ghost old_ms = ms;
            let grib_result = read_grib(&self.data, offset, &search, false);
            match grib_result {
                Err(e) => {
                    return Err(e);
                },
                Ok(GribResult::Grib(grib)) => {
                    let l = grib.length as usize;
                    proof {
                        ms = ms.push((offset as nat, true));
                        assert(ms.drop_last() =~= old_ms);
                        assert(matched(ms).drop_last() =~= matched(old_ms));
                    }
                    append_range(&mut result, &self.data, offset, offset + l);
                    offset = offset + l;
                },
                Ok(GribResult::Length(l)) => {
                    proof {
                        ms = ms.push((offset as nat, false));
                        assert(ms.drop_last() =~= old_ms);
                    }
                    offset = offset + l as usize;
                },
            }
            proof {
                let rest = scan_spec(f, offset as nat, search@, false);
                match rest {
                    Ok(s) => {
                        assert(old_ms + (seq![ms.last()] + s) =~= ms + s);
                    },
                    Err(_) => {},
                }
            }
        }
        assert(ms + Seq::<(nat, bool)>::empty() =~= ms);
        Ok(result)
    }
}

} // verus!
