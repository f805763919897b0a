use vstd::prelude::*;

use crate::text::{trim, trim_str};

verus! {

/// The sample rate assumed when the input device never reported one.
pub const FALLBACK_SAMPLE_RATE: u32 = 44100;

/// The low byte of the little-endian encoding of `s` (`i16::to_le_bytes()[0]`).
pub open spec fn low_byte(s: i16) -> u8 {
    ((s as int + 65536) % 256) as u8
}

/// The high byte of the little-endian encoding of `s` (`i16::to_le_bytes()[1]`).
pub open spec fn high_byte(s: i16) -> u8 {
    (((s as int + 65536) % 65536) / 256) as u8
}

/// The sample that two little-endian bytes encode (`i16::from_le_bytes`).
pub open spec fn sample_of(lo: u8, hi: u8) -> i16 {
    let u = lo + 256 * hi;
    (if u >= 32768 {
        u - 65536
    } else {
        u
    }) as i16
}

/// The bytes of `s`, two per sample, low byte first.
pub open spec fn pcm_encode(s: Seq<i16>) -> Seq<u8> {
    Seq::new(
        2 * s.len(),
        |k: int|
            if k % 2 == 0 {
                low_byte(s[k / 2])
            } else {
                high_byte(s[k / 2])
            },
    )
}

/// The samples of `b`, read two bytes at a time, low byte first; a last odd
/// byte is not read (`chunks_exact(2)`).
pub open spec fn pcm_decode(b: Seq<u8>) -> Seq<i16> {
    Seq::new(b.len() / 2, |i: int| sample_of(b[2 * i], b[2 * i + 1]))
}

/// The two bytes of sample `s`, low byte first.
pub fn sample_to_le_bytes(s: i16) -> (r: (u8, u8))
    ensures
        r.0 == low_byte(s),
        r.1 == high_byte(s),
{
    let u: u32 = if s < 0 {
        (s as i32 + 65536) as u32
    } else {
        s as u32
    };
    ((u % 256) as u8, (u / 256) as u8)
}

/// The sample that bytes `lo`, `hi` encode, low byte first.
pub fn sample_from_le_bytes(lo: u8, hi: u8) -> (r: i16)
    ensures
        r == sample_of(lo, hi),
{
    let u: i32 = lo as i32 + 256 * hi as i32;
    if u >= 32768 {
        (u - 65536) as i16
    } else {
        u as i16
    }
}

/// Encodes mono 16-bit samples as little-endian bytes, as the recorder stores them.
pub fn encode_pcm16_le(samples: &[i16]) -> (r: Vec<u8>)
    requires
        2 * samples@.len() <= usize::MAX,
    ensures
        r@ == pcm_encode(samples@),
{
    let n = samples.len();
    let mut r: Vec<u8> = Vec::new();
    let mut i: usize = 0;
    while i < n
        invariant
            i <= n,
            n == samples@.len(),
            r@.len() == 2 * i,
            forall|k: int| 0 <= k < 2 * i ==> r@[k] == pcm_encode(samples@)[k],
        decreases n - i,
    {
        let (lo, hi) = sample_to_le_bytes(samples[i]);
        r.push(lo);
        r.push(hi);
        assert(pcm_encode(samples@)[2 * i as int] == lo);
        assert(pcm_encode(samples@)[2 * i + 1] == hi);
        i += 1;
    }
    assert(r@ == pcm_encode(samples@));
    r
}

/// Decodes little-endian 16-bit samples; a last odd byte is dropped.
pub fn decode_pcm16_le(bytes: &[u8]) -> (r: Vec<i16>)
    ensures
        r@ == pcm_decode(bytes@),
{
    let len = bytes.len();
    let n = len / 2;
    let mut r: Vec<i16> = Vec::new();
    let mut i: usize = 0;
    while i < n
        invariant
            i <= n,
            len == bytes@.len(),
            n == bytes@.len() / 2,
            r@.len() == i,
            forall|k: int| 0 <= k < i ==> r@[k] == pcm_decode(bytes@)[k],
        decreases n - i,
    {
        r.push(sample_from_le_bytes(bytes[2 * i], bytes[2 * i + 1]));
        i += 1;
    }
    assert(r@ == pcm_decode(bytes@));
    r
}

proof fn lemma_sample_bytes(s: i16)
    ensures
        sample_of(low_byte(s), high_byte(s)) == s,
{
    let u = (s as int + 65536) % 65536;
    assert(u == (if s < 0 { s + 65536 } else { s as int }));
    assert((s as int + 65536) % 256 == u % 256);
    assert(low_byte(s) + 256 * high_byte(s) == u);
}

proof fn lemma_bytes_sample(lo: u8, hi: u8)
    ensures
        low_byte(sample_of(lo, hi)) == lo,
        high_byte(sample_of(lo, hi)) == hi,
{
    let u = lo + 256 * hi;
    assert((sample_of(lo, hi) as int + 65536) % 65536 == u);
    assert(u % 256 == lo);
    assert(u / 256 == hi);
}

/// What the recorder stores is read back unchanged: decoding the encoding of
/// any samples gives those samples.
pub proof fn lemma_pcm_round_trip(s: Seq<i16>)
    ensures
        pcm_decode(pcm_encode(s)) == s,
{
    let e = pcm_encode(s);
    assert forall|i: int| 0 <= i < s.len() implies #[trigger] pcm_decode(e)[i] == s[i] by {
        assert(e[2 * i] == low_byte(s[i]));
        assert(e[2 * i + 1] == high_byte(s[i]));
        lemma_sample_bytes(s[i]);
    }
    assert(pcm_decode(e) =~= s);
}

/// Any byte string of even length is the encoding of the samples it decodes to.
pub proof fn lemma_pcm_bytes_round_trip(b: Seq<u8>)
    requires
        b.len() % 2 == 0,
    ensures
        pcm_encode(pcm_decode(b)) == b,
{
    let d = pcm_decode(b);
    assert forall|k: int| 0 <= k < b.len() implies #[trigger] pcm_encode(d)[k] == b[k] by {
        let i = k / 2;
        lemma_bytes_sample(b[2 * i], b[2 * i + 1]);
    }
    assert(pcm_encode(d) =~= b);
}

/// Encoding is done sample by sample: the encoding of two runs of samples is
/// the encoding of the first followed by that of the second.
pub proof fn lemma_pcm_encode_concat(a: Seq<i16>, b: Seq<i16>)
    ensures
        pcm_encode(a + b) == pcm_encode(a) + pcm_encode(b),
{
    let l = pcm_encode(a + b);
    let r = pcm_encode(a) + pcm_encode(b);
    assert forall|k: int| 0 <= k < l.len() implies l[k] == r[k] by {
        if k < 2 * a.len() {
            assert((a + b)[k / 2] == a[k / 2]);
        } else {
            assert((k - 2 * a.len()) / 2 == k / 2 - a.len());
            assert((k - 2 * a.len()) % 2 == k % 2);
            assert((a + b)[k / 2] == b[k / 2 - a.len()]);
        }
    }
    assert(l =~= r);
}

/// The bytes of a sample are its two's-complement value, low byte first: the
/// low byte is the sample modulo 256 and the two bytes read as `lo + 256 * hi`
/// equal the sample modulo 65536.
pub proof fn lemma_sample_bytes_are_twos_complement(s: i16)
    ensures
        low_byte(s) as int == (s as int) % 256,
        (low_byte(s) + 256 * high_byte(s)) as int == (s as int) % 65536,
        s >= 0 ==> low_byte(s) + 256 * high_byte(s) == s,
        s < 0 ==> low_byte(s) + 256 * high_byte(s) == s + 65536,
{
    let u = (s as int + 65536) % 65536;
    assert(u == (if s < 0 { s + 65536 } else { s as int }));
    assert((s as int) % 65536 == u);
    assert((s as int + 65536) % 256 == (s as int) % 256);
    assert(u % 256 == (s as int) % 256);
    assert(low_byte(s) + 256 * high_byte(s) == u);
}

/// Two bytes read low byte first give the signed 16-bit value `lo + 256 * hi`
/// taken modulo 65536 into -32768..32767.
pub proof fn lemma_sample_of_is_twos_complement(lo: u8, hi: u8)
    ensures
        (sample_of(lo, hi) as int) % 65536 == (lo + 256 * hi) % 65536,
        lo + 256 * hi < 32768 ==> sample_of(lo, hi) == lo + 256 * hi,
        lo + 256 * hi >= 32768 ==> sample_of(lo, hi) == lo + 256 * hi - 65536,
{
    let u = lo + 256 * hi;
    assert(0 <= u < 65536);
    if u >= 32768 {
        assert((u - 65536) % 65536 == u % 65536);
    }
}

/// Every byte pair that `pcm_encode` writes is the two's-complement value of
/// its sample, low byte first, and every sample `pcm_decode` reads is the
/// signed value of its byte pair.
pub proof fn lemma_pcm_framing(s: Seq<i16>, b: Seq<u8>)
    ensures
        pcm_encode(s).len() == 2 * s.len(),
        forall|i: int|
            0 <= i < s.len() ==> (#[trigger] pcm_encode(s)[2 * i] + 256 * pcm_encode(s)[2 * i
                + 1]) as int == (s[i] as int) % 65536,
        pcm_decode(b).len() == b.len() / 2,
        forall|i: int|
            0 <= i < b.len() / 2 ==> (#[trigger] pcm_decode(b)[i] as int) % 65536 == (b[2 * i] + 256
                * b[2 * i + 1]) % 65536,
{
    assert forall|i: int| 0 <= i < s.len() implies (#[trigger] pcm_encode(s)[2 * i] + 256
        * pcm_encode(s)[2 * i + 1]) as int == (s[i] as int) % 65536 by {
        assert(pcm_encode(s)[2 * i] == low_byte(s[i]));
        assert(pcm_encode(s)[2 * i + 1] == high_byte(s[i]));
        lemma_sample_bytes_are_twos_complement(s[i]);
    }
    assert forall|i: int| 0 <= i < b.len() / 2 implies (#[trigger] pcm_decode(b)[i] as int) % 65536
        == (b[2 * i] + 256 * b[2 * i + 1]) % 65536 by {
        lemma_sample_of_is_twos_complement(b[2 * i], b[2 * i + 1]);
    }
}

/// The sample rate the transcriber assumes for `reported` (0 means unknown).
pub open spec fn effective_rate(reported: u32) -> u32 {
    if reported == 0 {
        FALLBACK_SAMPLE_RATE
    } else {
        reported
    }
}

/// The sample rate to use, falling back to 44100 Hz where none was reported.
pub fn effective_sample_rate(reported: u32) -> (r: u32)
    ensures
        r == effective_rate(reported),
{
    if reported == 0 {
        FALLBACK_SAMPLE_RATE
    } else {
        reported
    }
}

/// The rate handed over is the device's reported rate itself; only an unknown
/// rate (0) becomes 44100 Hz.
pub proof fn lemma_reported_rate_is_kept(reported: u32)
    ensures
        reported != 0 ==> effective_rate(reported) == reported,
        reported == 0 ==> effective_rate(reported) == 44100,
{
}

/// The segments written one after another.
pub open spec fn joined(segments: Seq<Seq<char>>) -> Seq<char>
    decreases segments.len(),
{
    if segments.len() == 0 {
        Seq::<char>::empty()
    } else {
        joined(segments.drop_last()) + segments.last()
    }
}

/// Joining keeps every segment, in order: nothing joined is empty, one more
/// segment adds its text at the end, and joining two runs of segments joins
/// their joined texts.
pub proof fn lemma_joined_keeps_every_segment(a: Seq<Seq<char>>, b: Seq<Seq<char>>, x: Seq<char>)
    ensures
        joined(Seq::<Seq<char>>::empty()) == Seq::<char>::empty(),
        joined(a.push(x)) == joined(a) + x,
        joined(seq![x]) == x,
        joined(a + b) == joined(a) + joined(b),
    decreases b.len(),
{
    assert(a.push(x).drop_last() == a);
    assert(seq![x].drop_last() == Seq::<Seq<char>>::empty());
    assert(Seq::<char>::empty() + x == x);
    assert(joined(seq![x]) == joined(Seq::<Seq<char>>::empty()) + seq![x].last());
    if b.len() == 0 {
        assert(a + b == a);
        assert(joined(a) + joined(b) == joined(a));
    } else {
        lemma_joined_keeps_every_segment(a, b.drop_last(), x);
        assert((a + b).drop_last() == a + b.drop_last());
        assert((a + b).last() == b.last());
        assert(joined(a) + joined(b.drop_last()) + b.last() == joined(a) + (joined(b.drop_last())
            + b.last()));
    }
}

/// The transcript is the trimmed concatenation of every segment's text in
/// order: with one more segment it is built from the joined text so far
/// followed by that segment.
pub proof fn lemma_transcript_uses_every_segment(segments: Seq<String>, seg: String)
    ensures
        texts(segments.push(seg)) == texts(segments).push(seg@),
        trim(joined(texts(segments.push(seg)))) == trim(joined(texts(segments)) + seg@),
{
    assert(texts(segments.push(seg)) =~= texts(segments).push(seg@));
    lemma_joined_keeps_every_segment(texts(segments), Seq::<Seq<char>>::empty(), seg@);
}

/// The texts of `segments`.
pub open spec fn texts(segments: Seq<String>) -> Seq<Seq<char>> {
    segments.map_values(|s: String| s@)
}

/// The transcript of recognised segments: their texts joined, then trimmed.
pub fn transcript_from_segments(segments: &Vec<String>) -> (r: String)
    ensures
        r@ == trim(joined(texts(segments@))),
{
    let n = segments.len();
    let mut all = String::new();
    let mut i: usize = 0;
    while i < n
        invariant
            i <= n,
            n == segments@.len(),
            all@ == joined(texts(segments@).take(i as int)),
        decreases n - i,
    {
        all.append(segments[i].as_str());
        assert(texts(segments@).take(i + 1).drop_last() == texts(segments@).take(i as int));
        i += 1;
    }
    assert(texts(segments@).take(n as int) == texts(segments@));
    trim_str(all.as_str())
}

} // verus!
