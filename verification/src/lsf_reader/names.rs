use vstd::prelude::*;
use crate::bin_utils::available;
use crate::bin_utils::bytes_at;
use crate::bin_utils::continues;
use crate::bin_utils::decode_lossy;
use crate::bin_utils::le_u16;
use crate::bin_utils::le_u32;
use crate::bin_utils::utf8_lossy;
use crate::bin_utils::ByteReader;
use crate::error::Error;

verus! {

/// The name stored at `pos`, and where it ends: a 16-bit length and that many bytes of
/// text.
pub open spec fn spec_name(data: Seq<u8>, pos: int) -> Result<(Seq<char>, int), Error> {
    if !available(data, pos, 2) {
        Err(Error::ShortRead)
    } else if !available(data, pos + 2, le_u16(data, pos) as int) {
        Err(Error::ShortRead)
    } else {
        Ok(
            (
                utf8_lossy(bytes_at(data, pos + 2, le_u16(data, pos) as int)),
                pos + 2 + le_u16(data, pos),
            ),
        )
    }
}

/// `count` names stored from `pos` on, and where they end.
pub open spec fn spec_slots(data: Seq<u8>, pos: int, count: nat) -> Result<
    (Seq<Seq<char>>, int),
    Error,
>
    decreases count,
{
    if count == 0 {
        Ok((Seq::empty(), pos))
    } else {
        match spec_name(data, pos) {
            Err(e) => Err(e),
            Ok((first, next)) => match spec_slots(data, next, (count - 1) as nat) {
                Err(e) => Err(e),
                Ok((rest, end)) => Ok((seq![first] + rest, end)),
            },
        }
    }
}

/// The bucket stored at `pos`, and where it ends: a 16-bit count and that many names.
pub open spec fn spec_bucket(data: Seq<u8>, pos: int) -> Result<(Seq<Seq<char>>, int), Error> {
    if available(data, pos, 2) {
        spec_slots(data, pos + 2, le_u16(data, pos) as nat)
    } else {
        Err(Error::ShortRead)
    }
}

/// `count` buckets stored from `pos` on, and where they end.
pub open spec fn spec_buckets(data: Seq<u8>, pos: int, count: nat) -> Result<
    (Seq<Seq<Seq<char>>>, int),
    Error,
>
    decreases count,
{
    if count == 0 {
        Ok((Seq::empty(), pos))
    } else {
        match spec_bucket(data, pos) {
            Err(e) => Err(e),
            Ok((first, next)) => match spec_buckets(data, next, (count - 1) as nat) {
                Err(e) => Err(e),
                Ok((rest, end)) => Ok((seq![first] + rest, end)),
            },
        }
    }
}

/// The name pool stored at `pos`, and where it ends: a 32-bit count and that many
/// buckets. The name of bucket `b` and slot `s` is at `[b][s]`.
pub open spec fn spec_names(data: Seq<u8>, pos: int) -> Result<(Seq<Seq<Seq<char>>>, int), Error> {
    if available(data, pos, 4) {
        spec_buckets(data, pos + 4, le_u32(data, pos) as nat)
    } else {
        Err(Error::ShortRead)
    }
}

/// Whether a decoder's result and the cursor it left are what `expected` names, the
/// value taken by its deep view.
pub open spec fn parsed_deep<T: DeepView>(
    r: Result<T, Error>,
    end: int,
    expected: Result<(T::V, int), Error>,
) -> bool {
    match expected {
        Ok((value, stop)) => r is Ok && r->Ok_0.deep_view() == value && end == stop,
        Err(e) => r == Err::<T, Error>(e),
    }
}

/// Reads one name.
pub fn read_name(stream: &mut ByteReader) -> (r: Result<String, Error>)
    ensures
        final(stream).data@ == old(stream).data@,
        parsed_deep(r, final(stream).pos as int, spec_name(old(stream).data@, old(stream).pos as int)),
{
    let name_len = stream.read_u16()?;
    let name_bytes = stream.read_bytes(name_len as usize)?;
    Ok(decode_lossy(name_bytes.as_slice()))
}

/// Reads one bucket of names.
pub fn read_bucket(stream: &mut ByteReader) -> (r: Result<Vec<String>, Error>)
    ensures
        final(stream).data@ == old(stream).data@,
        parsed_deep(r, final(stream).pos as int, spec_bucket(old(stream).data@, old(stream).pos as int)),
{
    let num_strings = stream.read_u16()?;
    let ghost data = stream.data@;
    let ghost whole = spec_slots(data, stream.pos as int, num_strings as nat);
    let ghost mut done: Seq<Seq<char>> = Seq::empty();
    let mut hash: Vec<String> = Vec::new();
    let mut i: u16 = 0;
    assert(done + Seq::<Seq<char>>::empty() =~= done);
    while i < num_strings
        invariant
            i <= num_strings,
            stream.data@ == data,
            data == old(stream).data@,
            whole == spec_bucket(data, old(stream).pos as int),
            hash.deep_view() == done,
            continues(whole, done, spec_slots(data, stream.pos as int, (num_strings - i) as nat)),
        decreases num_strings - i,
    {
        let name = read_name(stream)?;
        proof {
            let rest = spec_slots(data, stream.pos as int, (num_strings - i - 1) as nat);
            if rest is Ok {
                assert(done + (seq![name@] + rest->Ok_0.0) =~= done.push(name@) + rest->Ok_0.0);
            }
            done = done.push(name@);
        }
        hash.push(name);
        assert(hash.deep_view() =~= done);
        i += 1;
    }
    assert(done + Seq::<Seq<char>>::empty() =~= done);
    Ok(hash)
}

/// Reads the name pool.
pub fn read_names(stream: &mut ByteReader) -> (r: Result<Vec<Vec<String>>, Error>)
    ensures
        final(stream).data@ == old(stream).data@,
        parsed_deep(r, final(stream).pos as int, spec_names(old(stream).data@, old(stream).pos as int)),
{
    let num_hash_entries = stream.read_u32()?;
    let ghost data = stream.data@;
    let ghost whole = spec_buckets(data, stream.pos as int, num_hash_entries as nat);
    let ghost mut done: Seq<Seq<Seq<char>>> = Seq::empty();
    let mut names: Vec<Vec<String>> = Vec::new();
    let mut i: u32 = 0;
    assert(done + Seq::<Seq<Seq<char>>>::empty() =~= done);
    while i < num_hash_entries
        invariant
            i <= num_hash_entries,
            stream.data@ == data,
            data == old(stream).data@,
            whole == spec_names(data, old(stream).pos as int),
            names.deep_view() == done,
            continues(
                whole,
                done,
                spec_buckets(data, stream.pos as int, (num_hash_entries - i) as nat),
            ),
        decreases num_hash_entries - i,
    {
        let hash = read_bucket(stream)?;
        proof {
            let rest = spec_buckets(data, stream.pos as int, (num_hash_entries - i - 1) as nat);
            if rest is Ok {
                assert(done + (seq![hash.deep_view()] + rest->Ok_0.0) =~= done.push(
                    hash.deep_view(),
                ) + rest->Ok_0.0);
            }
            done = done.push(hash.deep_view());
        }
        names.push(hash);
        assert(names.deep_view() =~= done);
        i += 1;
    }
    assert(done + Seq::<Seq<Seq<char>>>::empty() =~= done);
    Ok(names)
}

} // verus!
