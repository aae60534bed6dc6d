//! Decoding of raw little-endian 16-bit PCM bytes into samples.

use vstd::prelude::*;
use vstd::slice::slice_subrange;

verus! {

/// The signed 16-bit number whose little-endian encoding is `lo`, `hi`.
pub open spec fn sample_value(lo: u8, hi: u8) -> int {
    let raw = lo as int + 256 * (hi as int);
    if raw < 32768 {
        raw
    } else {
        raw - 65536
    }
}

/// The samples held by `bytes`: one per pair of consecutive bytes, in order.
/// An odd trailing byte forms no sample.
pub open spec fn samples_of(bytes: Seq<u8>) -> Seq<i16> {
    Seq::new(bytes.len() / 2, |i: int| sample_value(bytes[2 * i], bytes[2 * i + 1]) as i16)
}

/// Combines two bytes into the sample they encode.
pub fn sample_from_le_bytes(lo: u8, hi: u8) -> (sample: i16)
    ensures
        sample == sample_value(lo, hi),
{
    let raw: u16 = lo as u16 + 256 * (hi as u16);
    if raw < 32768 {
        raw as i16
    } else {
        (raw as i32 - 65536) as i16
    }
}

/// Appends the samples of one window of bytes to `samples`.
pub fn append_window(samples: &mut Vec<i16>, window: &[u8])
    ensures
        final(samples)@ == old(samples)@ + samples_of(window@),
{
    let count: usize = window.len() / 2;
    let mut i: usize = 0;
    while i < count
        invariant
            count == window@.len() / 2,
            2 * count <= window.len(),
            i <= count,
            samples@ == old(samples)@ + samples_of(window@).take(i as int),
        decreases count - i,
    {
        let sample = sample_from_le_bytes(window[2 * i], window[2 * i + 1]);
        samples.push(sample);
        i += 1;
        assert(samples_of(window@).take(i as int) == samples_of(window@).take(i - 1).push(sample));
    }
    assert(samples_of(window@).take(count as int) == samples_of(window@));
}

/// Decodes a whole buffer at once.
pub fn decode_samples(data: &[u8]) -> (samples: Vec<i16>)
    ensures
        samples@ == samples_of(data@),
        samples@.len() == data@.len() / 2,
{
    let mut samples: Vec<i16> = Vec::new();
    append_window(&mut samples, data);
    samples
}

/// Decodes a buffer window by window, each window `window` bytes long but
/// for the last. The result is that of [`decode_samples`]: an even window
/// never splits a sample.
pub fn decode_windowed(data: &[u8], window: usize) -> (samples: Vec<i16>)
    requires
        window > 0,
        window % 2 == 0,
    ensures
        samples@ == samples_of(data@),
        samples@.len() == data@.len() / 2,
{
    let mut samples: Vec<i16> = Vec::new();
    let mut start: usize = 0;
    assert(samples_of(data@.take(0)) =~= Seq::<i16>::empty());
    while start < data.len()
        invariant
            window > 0,
            window % 2 == 0,
            start <= data.len(),
            start % 2 == 0 || start == data.len(),
            samples@ == samples_of(data@.take(start as int)),
        decreases data.len() - start,
    {
        let end: usize = if data.len() - start > window {
            start + window
        } else {
            data.len()
        };
        let part = slice_subrange(data, start, end);
        append_window(&mut samples, part);
        proof {
            samples_of_concat(data@.take(start as int), data@.subrange(start as int, end as int));
            assert(data@.take(start as int) + data@.subrange(start as int, end as int)
                =~= data@.take(end as int));
        }
        start = end;
    }
    assert(data@.take(start as int) =~= data@);
    samples
}

/// A buffer of `N` bytes holds `N / 2` samples: `N / 2` for even `N`,
/// `(N - 1) / 2` for odd `N`.
pub proof fn sample_count(bytes: Seq<u8>)
    ensures
        samples_of(bytes).len() == bytes.len() / 2,
        bytes.len() % 2 == 0 ==> 2 * samples_of(bytes).len() == bytes.len(),
        bytes.len() % 2 == 1 ==> 2 * samples_of(bytes).len() == bytes.len() - 1,
{
}

/// The last byte of a buffer of odd length is dropped: the samples are those
/// of the buffer without it.
pub proof fn odd_trailing_byte_is_dropped(bytes: Seq<u8>)
    requires
        bytes.len() % 2 == 1,
    ensures
        samples_of(bytes) == samples_of(bytes.drop_last()),
{
    assert(samples_of(bytes) =~= samples_of(bytes.drop_last()));
}

/// Decoding in two parts gives what decoding at once gives, where the first
/// part has an even length.
pub proof fn samples_of_concat(first: Seq<u8>, rest: Seq<u8>)
    requires
        first.len() % 2 == 0,
    ensures
        samples_of(first + rest) == samples_of(first) + samples_of(rest),
{
    let whole = first + rest;
    let half = first.len() / 2;
    assert forall|i: int| 0 <= i < samples_of(whole).len() implies samples_of(whole)[i] == (
    samples_of(first) + samples_of(rest))[i] by {
        if i < half {
            assert(whole[2 * i] == first[2 * i]);
            assert(whole[2 * i + 1] == first[2 * i + 1]);
        } else {
            assert(whole[2 * i] == rest[2 * (i - half)]);
            assert(whole[2 * i + 1] == rest[2 * (i - half) + 1]);
        }
    }
    assert(samples_of(whole) =~= samples_of(first) + samples_of(rest));
}

/// Decoding window by window gives what decoding at once gives, whatever the
/// windows, as long as each but the last has an even length.
pub proof fn windows_decode_like_whole(windows: Seq<Seq<u8>>)
    requires
        forall|k: int| 0 <= k < windows.len() - 1 ==> (#[trigger] windows[k]).len() % 2 == 0,
    ensures
        samples_of(concat_all(windows)) == decode_each(windows),
    decreases windows.len(),
{
    if windows.len() == 0 {
        assert(samples_of(Seq::<u8>::empty()) =~= Seq::<i16>::empty());
    } else {
        let front = windows.drop_last();
        windows_decode_like_whole(front);
        even_total(front);
        samples_of_concat(concat_all(front), windows.last());
    }
}

/// The bytes of all windows, in order.
pub open spec fn concat_all(windows: Seq<Seq<u8>>) -> Seq<u8>
    decreases windows.len(),
{
    if windows.len() == 0 {
        Seq::<u8>::empty()
    } else {
        concat_all(windows.drop_last()) + windows.last()
    }
}

/// The samples of each window, in order: what repeated calls of
/// [`append_window`] collect.
pub open spec fn decode_each(windows: Seq<Seq<u8>>) -> Seq<i16>
    decreases windows.len(),
{
    if windows.len() == 0 {
        Seq::<i16>::empty()
    } else {
        decode_each(windows.drop_last()) + samples_of(windows.last())
    }
}

/// Windows of even length add up to an even length.
proof fn even_total(windows: Seq<Seq<u8>>)
    requires
        forall|k: int| 0 <= k < windows.len() ==> (#[trigger] windows[k]).len() % 2 == 0,
    ensures
        concat_all(windows).len() % 2 == 0,
    decreases windows.len(),
{
    if windows.len() > 0 {
        even_total(windows.drop_last());
    }
}

} // verus!
