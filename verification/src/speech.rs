use std::collections::hash_map::DefaultHasher;
use std::hash::{BuildHasher, BuildHasherDefault};
use vstd::prelude::*;

use crate::config::TtsConfig;

verus! {

/// A cached recording must be longer than a bare WAV header to be played.
pub const WAV_HEADER_LEN: u64 = 44;

/// Name for the 64-bit digest that `DefaultHasher::new()` gives after hashing
/// the voice id and then the text.
pub uninterp spec fn speech_digest(voice_id: Seq<char>, text: Seq<char>) -> u64;

/// `BuildHasher::hash_one` of the pair (voice id, text) with a default
/// `DefaultHasher`: the voice id and then the text are hashed into a fresh
/// `DefaultHasher::new()`, and `finish` gives the digest. Every such hasher
/// starts in the same state, so the digest is a function of the two strings; the
/// contract names it and says nothing more of it.
#[verifier::external_body]
fn digest_of(voice_id: &String, text: &String) -> (h: u64)
    ensures
        h == speech_digest(voice_id@, text@),
{
    BuildHasherDefault::<DefaultHasher>::default().hash_one((voice_id, text))
}

/// The lowercase hexadecimal digit of `d` (0 to 15).
pub open spec fn hex_digit(d: nat) -> char {
    if d < 10 {
        ('0' as nat + d) as char
    } else {
        ('a' as nat + (d - 10)) as char
    }
}

/// The `width` lowest hexadecimal digits of `n`, most significant first, in
/// lowercase (`format!("{:016x}", n)` for width 16 and `n` below 2^64).
pub open spec fn hex_lower(n: nat, width: nat) -> Seq<char>
    decreases width,
{
    if width == 0 {
        Seq::<char>::empty()
    } else {
        hex_lower(n / 16, (width - 1) as nat).push(hex_digit(n % 16))
    }
}

proof fn lemma_hex_len(n: nat, width: nat)
    ensures
        hex_lower(n, width).len() == width,
    decreases width,
{
    if width > 0 {
        lemma_hex_len(n / 16, (width - 1) as nat);
    }
}

/// 16 to the power `w`.
pub open spec fn pow16(w: nat) -> nat
    decreases w,
{
    if w == 0 {
        1
    } else {
        16 * pow16((w - 1) as nat)
    }
}

proof fn lemma_hex_injective(a: nat, b: nat, width: nat)
    requires
        a < pow16(width),
        b < pow16(width),
        hex_lower(a, width) == hex_lower(b, width),
    ensures
        a == b,
    decreases width,
{
    if width > 0 {
        let w1 = (width - 1) as nat;
        let ha = hex_lower(a, width);
        let hb = hex_lower(b, width);
        assert(ha.last() == hex_digit(a % 16));
        assert(hb.last() == hex_digit(b % 16));
        assert(a % 16 == b % 16);
        assert(ha.drop_last() == hex_lower(a / 16, w1));
        assert(hb.drop_last() == hex_lower(b / 16, w1));
        assert(a / 16 < pow16(w1));
        assert(b / 16 < pow16(w1));
        lemma_hex_injective(a / 16, b / 16, w1);
    }
}

/// The value of a lowercase hexadecimal digit.
pub open spec fn hex_value(c: char) -> int {
    if '0' <= c && c <= '9' {
        c as int - '0' as int
    } else {
        c as int - 'a' as int + 10
    }
}

/// A lowercase hexadecimal digit: `0` to `9` or `a` to `f`.
pub open spec fn is_lower_hex_digit(c: char) -> bool {
    ('0' <= c && c <= '9') || ('a' <= c && c <= 'f')
}

/// The number that hexadecimal digits spell, most significant first.
pub open spec fn read_hex(digits: Seq<char>) -> int
    decreases digits.len(),
{
    if digits.len() == 0 {
        0
    } else {
        16 * read_hex(digits.drop_last()) + hex_value(digits.last())
    }
}

proof fn lemma_pow16_positive(w: nat)
    ensures
        pow16(w) > 0,
    decreases w,
{
    if w > 0 {
        lemma_pow16_positive((w - 1) as nat);
    }
}

/// `hex_lower(n, w)` is `w` lowercase hexadecimal digits that spell `n`
/// modulo 16^w, most significant first.
pub proof fn lemma_hex_spells_value(n: nat, width: nat)
    ensures
        hex_lower(n, width).len() == width,
        forall|k: int| 0 <= k < width ==> is_lower_hex_digit(#[trigger] hex_lower(n, width)[k]),
        read_hex(hex_lower(n, width)) == n % pow16(width),
    decreases width,
{
    lemma_hex_len(n, width);
    if width > 0 {
        let w1 = (width - 1) as nat;
        lemma_hex_spells_value(n / 16, w1);
        let h = hex_lower(n, width);
        assert(h.drop_last() == hex_lower(n / 16, w1));
        assert(h.last() == hex_digit(n % 16));
        assert(is_lower_hex_digit(hex_digit(n % 16)));
        assert(hex_value(hex_digit(n % 16)) == n % 16);
        assert forall|k: int| 0 <= k < width implies is_lower_hex_digit(#[trigger] h[k]) by {
            if k < w1 {
                assert(h[k] == hex_lower(n / 16, w1)[k]);
            }
        }
        lemma_pow16_positive(w1);
        vstd::arithmetic::div_mod::lemma_mod_breakdown(n as int, 16, pow16(w1) as int);
    } else {
        assert(n % 1 == 0);
    }
}

/// A cache file name spells its digest: the path is the cache directory, sixteen
/// lowercase hexadecimal digits that read as the digest, and `.wav`.
pub proof fn lemma_cache_path_spells_digest(digest: u64)
    ensures
        cache_path_of(digest).len() == 18 + 16 + 4,
        cache_path_of(digest).subrange(0, 18) == "/tmp/va_tts_cache/"@,
        cache_path_of(digest).subrange(34, 38) == ".wav"@,
        forall|k: int| 18 <= k < 34 ==> is_lower_hex_digit(#[trigger] cache_path_of(digest)[k]),
        read_hex(cache_path_of(digest).subrange(18, 34)) == digest,
{
    reveal_strlit("/tmp/va_tts_cache/");
    reveal_strlit(".wav");
    assert(pow16(16) == 0x1_0000_0000_0000_0000) by {
        reveal_with_fuel(pow16, 17);
    }
    lemma_hex_spells_value(digest as nat, 16);
    let h = hex_lower(digest as nat, 16);
    let p = cache_path_of(digest);
    assert(p.subrange(18, 34) == h);
    assert(p.subrange(0, 18) == "/tmp/va_tts_cache/"@);
    assert(p.subrange(34, 38) == ".wav"@);
    assert forall|k: int| 18 <= k < 34 implies is_lower_hex_digit(#[trigger] p[k]) by {
        assert(p[k] == h[k - 18]);
    }
}

/// Distinct digests give distinct cache files: the sixteen hexadecimal digits
/// of a 64-bit digest determine it.
pub proof fn lemma_cache_paths_distinct(a: u64, b: u64)
    requires
        a != b,
    ensures
        cache_path_of(a) != cache_path_of(b),
{
    assert(pow16(16) == 0x1_0000_0000_0000_0000) by {
        reveal_with_fuel(pow16, 17);
    }
    lemma_hex_len(a as nat, 16);
    lemma_hex_len(b as nat, 16);
    let pre = "/tmp/va_tts_cache/"@;
    let post = ".wav"@;
    let pa = cache_path_of(a);
    let pb = cache_path_of(b);
    if pa == pb {
        assert(pa.subrange(pre.len() as int, pre.len() + 16int) == hex_lower(a as nat, 16));
        assert(pb.subrange(pre.len() as int, pre.len() + 16int) == hex_lower(b as nat, 16));
        lemma_hex_injective(a as nat, b as nat, 16);
    }
}

fn hex_digit_exec(d: u64) -> (c: char)
    requires
        d < 16,
    ensures
        c == hex_digit(d as nat),
{
    if d < 10 {
        (('0' as u8) + (d as u8)) as char
    } else {
        (('a' as u8) + (d as u8 - 10)) as char
    }
}

fn hex_lower_exec(n: u64, width: usize) -> (r: Vec<char>)
    ensures
        r@ == hex_lower(n as nat, width as nat),
    decreases width,
{
    if width == 0 {
        Vec::new()
    } else {
        let mut r = hex_lower_exec(n / 16, width - 1);
        r.push(hex_digit_exec(n % 16));
        r
    }
}

/// Where the synthesised recording of `text` in voice `voice_id` is cached:
/// `/tmp/va_tts_cache/<digest as 16 lowercase hex digits>.wav`.
pub open spec fn cache_path_of(digest: u64) -> Seq<char> {
    "/tmp/va_tts_cache/"@ + hex_lower(digest as nat, 16) + ".wav"@
}

/// The directory that holds cached recordings.
pub open spec fn cache_dir() -> Seq<char> {
    "/tmp/va_tts_cache"@
}

/// The cache path of a digest.
pub fn cache_path_for_digest(digest: u64) -> (r: String)
    ensures
        r@ == cache_path_of(digest),
{
    let mut r = String::from_str("/tmp/va_tts_cache/");
    let digits = hex_lower_exec(digest, 16);
    proof {
        lemma_hex_len(digest as nat, 16);
    }
    let mut i: usize = 0;
    let ghost start = r@;
    while i < 16
        invariant
            i <= 16,
            digits@.len() == 16,
            r@ == start + digits@.take(i as int),
        decreases 16 - i,
    {
        crate::text::push_char(&mut r, digits[i]);
        assert(digits@.take(i + 1) == digits@.take(i as int).push(digits@[i as int]));
        i += 1;
    }
    assert(digits@.take(16) == digits@);
    r.append(".wav");
    r
}

/// The cache path of the recording of `text` spoken in voice `voice_id`.
pub fn cache_path(voice_id: &String, text: &String) -> (r: String)
    ensures
        r@ == cache_path_of(speech_digest(voice_id@, text@)),
{
    cache_path_for_digest(digest_of(voice_id, text))
}

/// The directory of cached recordings.
pub fn cache_directory() -> (r: String)
    ensures
        r@ == cache_dir(),
{
    String::from_str("/tmp/va_tts_cache")
}

/// How a text is to be spoken.
pub enum SpeechPlan {
    /// Play the recording cached for this text and voice.
    PlayCached,
    /// Speak with the system voice: no API key is set.
    SystemVoice,
    /// Ask the speech service for a recording.
    RequestRemote,
}

/// The plan for a text whose cache file has `cached_len` bytes (`None`: there is
/// no such file) under a speech-service key `api_key`.
pub open spec fn speech_plan(cached_len: Option<u64>, api_key: Seq<char>) -> SpeechPlan {
    if cached_len matches Some(l) && l > WAV_HEADER_LEN {
        SpeechPlan::PlayCached
    } else if api_key.len() == 0 {
        SpeechPlan::SystemVoice
    } else {
        SpeechPlan::RequestRemote
    }
}

/// Chooses how to speak: a cached recording longer than a WAV header wins, then
/// the system voice where no API key is set, else the remote service.
pub fn plan_speech(cached_len: Option<u64>, api_key: &String) -> (r: SpeechPlan)
    ensures
        r == speech_plan(cached_len, api_key@),
{
    let cached = match cached_len {
        Some(l) => l > WAV_HEADER_LEN,
        None => false,
    };
    if cached {
        SpeechPlan::PlayCached
    } else if api_key.as_str().is_empty() {
        SpeechPlan::SystemVoice
    } else {
        SpeechPlan::RequestRemote
    }
}

/// The bytes start a RIFF (WAV) file: at least a header long and opening with
/// the ASCII tag `RIFF`.
pub open spec fn is_wav(audio: Seq<u8>) -> bool {
    &&& audio.len() >= WAV_HEADER_LEN
    &&& audio[0] == 0x52u8
    &&& audio[1] == 0x49u8
    &&& audio[2] == 0x46u8
    &&& audio[3] == 0x46u8
}

/// A recording is accepted exactly when it is at least 44 bytes long and opens
/// with the ASCII bytes `RIFF`, whatever its length beyond that: bytes appended
/// after an accepted recording never make it rejected.
pub proof fn lemma_wav_acceptance(audio: Seq<u8>, more: Seq<u8>)
    ensures
        is_wav(audio) <==> (audio.len() >= 44 && audio.subrange(0, 4) == seq![0x52u8, 0x49u8, 0x46u8, 0x46u8]),
        is_wav(audio) ==> is_wav(audio + more),
{
    if audio.len() >= 4 {
        let h = audio.subrange(0, 4);
        assert(h[0] == audio[0] && h[1] == audio[1] && h[2] == audio[2] && h[3] == audio[3]);
        if audio[0] == 0x52u8 && audio[1] == 0x49u8 && audio[2] == 0x46u8 && audio[3] == 0x46u8 {
            assert(h == seq![0x52u8, 0x49u8, 0x46u8, 0x46u8]);
        }
    }
    let longer = audio + more;
    assert(longer[0] == audio[0] && longer[1] == audio[1] && longer[2] == audio[2] && longer[3] == audio[3] || audio.len() < 4);
}

/// A cached recording longer than 44 bytes is always played; otherwise an empty
/// key means the system voice and any other key the remote service.
pub proof fn lemma_speech_plan_order(cached_len: Option<u64>, api_key: Seq<char>)
    ensures
        (cached_len matches Some(l) && l > 44) ==> speech_plan(cached_len, api_key) == SpeechPlan::PlayCached,
        !(cached_len matches Some(l) && l > 44) && api_key.len() == 0 ==> speech_plan(cached_len, api_key) == SpeechPlan::SystemVoice,
        !(cached_len matches Some(l) && l > 44) && api_key.len() > 0 ==> speech_plan(cached_len, api_key) == SpeechPlan::RequestRemote,
{
}

/// Whether the service's answer is a recording to store and play; where it is
/// not, the text is spoken with the system voice.
pub fn is_playable_wav(audio: &[u8]) -> (r: bool)
    ensures
        r == is_wav(audio@),
{
    if audio.len() < 44 {
        return false;
    }
    audio[0] == 0x52u8 && audio[1] == 0x49u8 && audio[2] == 0x46u8 && audio[3] == 0x46u8
}

/// The arguments of the system `say` command: voice Tingting, 180 words a minute.
pub open spec fn system_voice_args(text: Seq<char>) -> Seq<Seq<char>> {
    seq!["-v"@, "Tingting"@, "-r"@, "180"@, text]
}

/// The arguments with which the system voice speaks `text`.
pub fn system_voice_arguments(text: &str) -> (r: Vec<String>)
    ensures
        r@.map_values(|a: String| a@) == system_voice_args(text@),
{
    let mut r: Vec<String> = Vec::new();
    r.push(String::from_str("-v"));
    r.push(String::from_str("Tingting"));
    r.push(String::from_str("-r"));
    r.push(String::from_str("180"));
    r.push(text.to_owned());
    assert(r@.map_values(|a: String| a@) =~= system_voice_args(text@));
    r
}

/// The speech service's endpoint.
pub open spec fn speech_service_url() -> Seq<char> {
    "https://noiz.ai/v1/text-to-speech"@
}

/// The form fields of a synthesis request: the text, the voice, WAV output at
/// normal speed with silence trimmed.
pub open spec fn speech_fields(voice_id: Seq<char>, text: Seq<char>) -> Seq<(Seq<char>, Seq<char>)> {
    seq![
        ("text"@, text),
        ("voice_id"@, voice_id),
        ("output_format"@, "wav"@),
        ("speed"@, "1"@),
        ("trim_silence"@, "true"@),
    ]
}

/// The names and values of form fields.
pub open spec fn field_views(fields: Seq<(String, String)>) -> Seq<(Seq<char>, Seq<char>)> {
    fields.map_values(|f: (String, String)| (f.0@, f.1@))
}

/// One synthesis request to the speech service, sent as a multipart form.
pub struct SpeechRequest {
    pub url: String,
    /// The `Authorization` header: the API key as it is.
    pub authorization: String,
    /// The form fields, in order.
    pub fields: Vec<(String, String)>,
}

/// The request that asks the speech service to speak `text` in the configured voice.
pub fn build_speech_request(tts: &TtsConfig, text: &str) -> (r: SpeechRequest)
    ensures
        r.url@ == speech_service_url(),
        r.authorization@ == tts.api_key@,
        field_views(r.fields@) == speech_fields(tts.voice_id@, text@),
{
    let mut fields: Vec<(String, String)> = Vec::new();
    fields.push((String::from_str("text"), text.to_owned()));
    fields.push((String::from_str("voice_id"), tts.voice_id.clone()));
    fields.push((String::from_str("output_format"), String::from_str("wav")));
    fields.push((String::from_str("speed"), String::from_str("1")));
    fields.push((String::from_str("trim_silence"), String::from_str("true")));
    assert(field_views(fields@) =~= speech_fields(tts.voice_id@, text@));
    SpeechRequest {
        url: String::from_str("https://noiz.ai/v1/text-to-speech"),
        authorization: tts.api_key.clone(),
        fields,
    }
}

} // verus!
