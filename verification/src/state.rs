use vstd::prelude::*;

use crate::audio::{effective_rate, lemma_pcm_encode_concat, lemma_pcm_round_trip, pcm_decode, pcm_encode};
use crate::chat::{build_chat_request, chat_authorization, chat_body, chat_url, ChatRequest};
use crate::config::AppConfig;
use crate::speech::{build_speech_request, field_views, speech_fields, speech_service_url, SpeechRequest};

verus! {

/// One message of the conversation shown to the user.
pub struct ChatMessage {
    pub role: String,
    pub content: String,
    pub timestamp: i64,
}

impl Clone for ChatMessage {
    fn clone(&self) -> (r: ChatMessage)
        ensures
            r == *self,
    {
        ChatMessage {
            role: self.role.clone(),
            content: self.content.clone(),
            timestamp: self.timestamp,
        }
    }
}

/// The state the assistant keeps between commands.
pub struct AppState {
    /// A recording is under way.
    pub recording: bool,
    /// "idle", "recording", "processing" or "speaking".
    pub status: String,
    pub messages: Vec<ChatMessage>,
    /// Recorded mono samples, 16-bit little-endian.
    pub audio_chunks: Vec<u8>,
    /// The input device's sample rate; 0 until it reports one.
    pub sample_rate: u32,
    pub config: AppConfig,
    pub config_path: String,
    pub model_path: String,
}

/// The recording session as the commands see it.
#[verifier::ext_equal]
pub struct SessionView {
    pub recording: bool,
    pub status: Seq<char>,
    pub audio: Seq<u8>,
    pub sample_rate: u32,
}

/// How a start request ended.
#[derive(PartialEq, Eq, Structural)]
pub enum RecordingStart {
    /// A new recording began: clear the buffer and open the input stream.
    Started,
    /// A recording was already under way; nothing changed.
    AlreadyRecording,
}

/// The answer to a start request without microphone permission.
pub open spec fn mic_denied_message() -> Seq<char> {
    "麦克风权限未授权，请在系统设置 → 隐私与安全性 → 麦克风中允许本应用"@
}

/// Start recording: refused without microphone permission; no change while a
/// recording runs; else recording, status "recording", an empty buffer.
pub open spec fn start_step(s: SessionView, authorized: bool) -> (SessionView, Result<RecordingStart, Seq<char>>) {
    if !authorized {
        (s, Err(mic_denied_message()))
    } else if s.recording {
        (s, Ok(RecordingStart::AlreadyRecording))
    } else {
        (
            SessionView {
                recording: true,
                status: "recording"@,
                audio: Seq::<u8>::empty(),
                sample_rate: s.sample_rate,
            },
            Ok(RecordingStart::Started),
        )
    }
}

/// Stop recording: refused with "not recording" where none runs; else not
/// recording, status "processing", and the answer "ok".
pub open spec fn stop_step(s: SessionView) -> (SessionView, Result<Seq<char>, Seq<char>>) {
    if !s.recording {
        (s, Err("not recording"@))
    } else {
        (
            SessionView {
                recording: false,
                status: "processing"@,
                audio: s.audio,
                sample_rate: s.sample_rate,
            },
            Ok("ok"@),
        )
    }
}

/// Captured bytes are appended to the buffer.
pub open spec fn append_step(s: SessionView, bytes: Seq<u8>) -> SessionView {
    SessionView { audio: s.audio + bytes, ..s }
}

/// The device reports its sample rate.
pub open spec fn rate_step(s: SessionView, rate: u32) -> SessionView {
    SessionView { sample_rate: rate, ..s }
}

/// Take the recording for transcription: refused with "no audio data" where the
/// buffer is empty; else the buffer and the effective sample rate, leaving the
/// buffer empty.
pub open spec fn take_step(s: SessionView) -> (SessionView, Result<(Seq<u8>, u32), Seq<char>>) {
    if s.audio.len() == 0 {
        (s, Err("no audio data"@))
    } else {
        (SessionView { audio: Seq::<u8>::empty(), ..s }, Ok((s.audio, effective_rate(s.sample_rate))))
    }
}

/// The session after `chunks` were captured one after another.
pub open spec fn appended(s: SessionView, chunks: Seq<Seq<u8>>) -> SessionView
    decreases chunks.len(),
{
    if chunks.len() == 0 {
        s
    } else {
        append_step(appended(s, chunks.drop_last()), chunks.last())
    }
}

/// The chunks one after another.
pub open spec fn flatten<T>(chunks: Seq<Seq<T>>) -> Seq<T>
    decreases chunks.len(),
{
    if chunks.len() == 0 {
        Seq::<T>::empty()
    } else {
        flatten(chunks.drop_last()) + chunks.last()
    }
}

proof fn lemma_appended(s: SessionView, chunks: Seq<Seq<u8>>)
    ensures
        appended(s, chunks) == (SessionView { audio: s.audio + flatten(chunks), ..s }),
    decreases chunks.len(),
{
    if chunks.len() > 0 {
        lemma_appended(s, chunks.drop_last());
        assert(s.audio + flatten(chunks.drop_last()) + chunks.last() == s.audio + flatten(chunks));
    } else {
        assert(s.audio + flatten(chunks) == s.audio);
    }
}

/// The hand-over passes the device's reported rate through unchanged and uses
/// 44100 Hz only where no rate was reported; the buffer goes with it whole.
pub proof fn lemma_take_hands_over_reported_rate(s: SessionView)
    requires
        s.audio.len() > 0,
    ensures
        s.sample_rate != 0 ==> take_step(s).1 == Ok::<(Seq<u8>, u32), Seq<char>>((s.audio, s.sample_rate)),
        s.sample_rate == 0 ==> take_step(s).1 == Ok::<(Seq<u8>, u32), Seq<char>>((s.audio, 44100u32)),
        take_step(s).0.audio.len() == 0,
{
}

/// Each phase reports its status: a start from idle with permission makes the
/// session record with status "recording" and an empty buffer; a stop of a
/// recording ends it with status "processing" and keeps the buffer.
pub proof fn lemma_status_reports_phase(s: SessionView)
    ensures
        !s.recording ==> start_step(s, true).0.recording && start_step(s, true).0.status == "recording"@
            && start_step(s, true).0.audio.len() == 0,
        s.recording ==> !stop_step(s).0.recording && stop_step(s).0.status == "processing"@
            && stop_step(s).0.audio == s.audio && stop_step(s).1 == Ok::<Seq<char>, Seq<char>>("ok"@),
        speaking_step(s).status == "speaking"@ && speaking_step(s).audio == s.audio,
        idle_step(s).status == "idle"@ && idle_step(s).audio == s.audio,
{
}

/// Starting is idempotent: a second start request changes nothing and reports
/// that a recording is already under way.
pub proof fn lemma_start_idempotent(s: SessionView)
    ensures
        start_step(start_step(s, true).0, true) == (start_step(s, true).0, Ok::<RecordingStart, Seq<char>>(RecordingStart::AlreadyRecording)),
{
}

/// Without microphone permission nothing starts and the session is unchanged.
pub proof fn lemma_start_refused_without_permission(s: SessionView)
    ensures
        start_step(s, false) == (s, Err::<RecordingStart, Seq<char>>(mic_denied_message())),
{
}

/// Stopping when no recording runs is refused and changes nothing.
pub proof fn lemma_stop_needs_recording(s: SessionView)
    requires
        !s.recording,
    ensures
        stop_step(s) == (s, Err::<Seq<char>, Seq<char>>("not recording"@)),
{
}

/// The recording is handed over once: after a successful take the buffer is
/// empty and a second take is refused with "no audio data".
pub proof fn lemma_take_once(s: SessionView)
    requires
        take_step(s).1 is Ok,
    ensures
        take_step(take_step(s).0).1 == Err::<(Seq<u8>, u32), Seq<char>>("no audio data"@),
        take_step(take_step(s).0).0 == take_step(s).0,
{
}

/// What a recording captured is exactly what transcription gets: starting with
/// permission from an idle session, reporting the device rate, capturing
/// `chunks`, and stopping, the stop succeeds and the take hands over all captured
/// bytes in order with the device rate (the fallback rate where it reported 0),
/// or refuses with "no audio data" where nothing was captured.
pub proof fn lemma_capture_reaches_transcription(s: SessionView, rate: u32, chunks: Seq<Seq<u8>>)
    requires
        !s.recording,
    ensures
        ({
            let started = start_step(s, true);
            let captured = appended(rate_step(started.0, rate), chunks);
            let stopped = stop_step(captured);
            &&& started.1 == Ok::<RecordingStart, Seq<char>>(RecordingStart::Started)
            &&& stopped.1 == Ok::<Seq<char>, Seq<char>>("ok"@)
            &&& !stopped.0.recording
            &&& take_step(stopped.0).1 == if flatten(chunks).len() == 0 {
                Err::<(Seq<u8>, u32), Seq<char>>("no audio data"@)
            } else {
                Ok::<(Seq<u8>, u32), Seq<char>>((flatten(chunks), effective_rate(rate)))
            }
        }),
{
    let started = start_step(s, true);
    lemma_appended(rate_step(started.0, rate), chunks);
    assert(Seq::<u8>::empty() + flatten(chunks) == flatten(chunks));
}

proof fn lemma_flatten_encoded(runs: Seq<Seq<i16>>)
    ensures
        flatten(runs.map_values(|r: Seq<i16>| pcm_encode(r))) == pcm_encode(flatten(runs)),
    decreases runs.len(),
{
    let enc = runs.map_values(|r: Seq<i16>| pcm_encode(r));
    if runs.len() == 0 {
        assert(pcm_encode(flatten(runs)) =~= Seq::<u8>::empty());
    } else {
        lemma_flatten_encoded(runs.drop_last());
        assert(enc.drop_last() == runs.drop_last().map_values(|r: Seq<i16>| pcm_encode(r)));
        lemma_pcm_encode_concat(flatten(runs.drop_last()), runs.last());
    }
}

/// The samples transcription decodes are the samples captured since the start,
/// in order: when each captured chunk is the encoding of a run of samples, the
/// bytes handed over decode to all those runs one after another.
pub proof fn lemma_captured_samples_reach_transcription(s: SessionView, rate: u32, runs: Seq<Seq<i16>>)
    requires
        !s.recording,
        flatten(runs).len() > 0,
    ensures
        ({
            let chunks = runs.map_values(|r: Seq<i16>| pcm_encode(r));
            let captured = appended(rate_step(start_step(s, true).0, rate), chunks);
            let taken = take_step(stop_step(captured).0).1;
            &&& taken is Ok
            &&& pcm_decode(taken->Ok_0.0) == flatten(runs)
        }),
{
    let chunks = runs.map_values(|r: Seq<i16>| pcm_encode(r));
    lemma_flatten_encoded(runs);
    lemma_capture_reaches_transcription(s, rate, chunks);
    lemma_pcm_round_trip(flatten(runs));
    assert(pcm_encode(flatten(runs)).len() == 2 * flatten(runs).len());
}

/// The status becomes "speaking" while a reply is spoken.
pub open spec fn speaking_step(s: SessionView) -> SessionView {
    SessionView { status: "speaking"@, ..s }
}

/// The status returns to "idle" once a reply has been spoken.
pub open spec fn idle_step(s: SessionView) -> SessionView {
    SessionView { status: "idle"@, ..s }
}

/// The four statuses the assistant reports.
pub open spec fn is_known_status(status: Seq<char>) -> bool {
    ||| status == "idle"@
    ||| status == "recording"@
    ||| status == "processing"@
    ||| status == "speaking"@
}

/// A command that changes the recording session.
pub enum SessionCommand {
    Start(bool),
    Stop,
    Capture(Seq<u8>),
    ReportRate(u32),
    Take,
    Speaking,
    Idle,
}

/// The session after one command.
pub open spec fn apply_command(s: SessionView, c: SessionCommand) -> SessionView {
    match c {
        SessionCommand::Start(authorized) => start_step(s, authorized).0,
        SessionCommand::Stop => stop_step(s).0,
        SessionCommand::Capture(bytes) => append_step(s, bytes),
        SessionCommand::ReportRate(rate) => rate_step(s, rate),
        SessionCommand::Take => take_step(s).0,
        SessionCommand::Speaking => speaking_step(s),
        SessionCommand::Idle => idle_step(s),
    }
}

/// The session after the commands, in order.
pub open spec fn run_commands(s: SessionView, cmds: Seq<SessionCommand>) -> SessionView
    decreases cmds.len(),
{
    if cmds.len() == 0 {
        s
    } else {
        apply_command(run_commands(s, cmds.drop_last()), cmds.last())
    }
}

/// The status is always one of "idle", "recording", "processing" and
/// "speaking": it starts as "idle" and every command leaves it one of them.
pub proof fn lemma_status_stays_known(s: SessionView, cmds: Seq<SessionCommand>)
    requires
        is_known_status(s.status),
    ensures
        is_known_status(run_commands(s, cmds).status),
    decreases cmds.len(),
{
    if cmds.len() > 0 {
        lemma_status_stays_known(s, cmds.drop_last());
    }
}

/// A change to the conversation.
pub enum HistoryEdit {
    Add(ChatMessage),
    Clear,
}

/// The conversation after one change.
pub open spec fn edit_history(h: Seq<ChatMessage>, e: HistoryEdit) -> Seq<ChatMessage> {
    match e {
        HistoryEdit::Add(m) => h.push(m),
        HistoryEdit::Clear => Seq::<ChatMessage>::empty(),
    }
}

/// The conversation after the changes, in order.
pub open spec fn replay_history(h: Seq<ChatMessage>, edits: Seq<HistoryEdit>) -> Seq<ChatMessage>
    decreases edits.len(),
{
    if edits.len() == 0 {
        h
    } else {
        edit_history(replay_history(h, edits.drop_last()), edits.last())
    }
}

/// Adding each of `msgs`, in order.
pub open spec fn additions(msgs: Seq<ChatMessage>) -> Seq<HistoryEdit> {
    msgs.map_values(|m: ChatMessage| HistoryEdit::Add(m))
}

proof fn lemma_replay_additions(h: Seq<ChatMessage>, msgs: Seq<ChatMessage>)
    ensures
        replay_history(h, additions(msgs)) == h + msgs,
    decreases msgs.len(),
{
    if msgs.len() == 0 {
        assert(h + msgs == h);
    } else {
        assert(additions(msgs).drop_last() == additions(msgs.drop_last()));
        lemma_replay_additions(h, msgs.drop_last());
        assert(h + msgs.drop_last() + seq![msgs.last()] == h + msgs);
    }
}

/// The conversation holds the messages added since it was last cleared, in the
/// order they were added: from an empty conversation, or right after a clear,
/// adding m1, ..., mk gives exactly m1, ..., mk.
pub proof fn lemma_history_keeps_call_order(h: Seq<ChatMessage>, msgs: Seq<ChatMessage>)
    ensures
        replay_history(Seq::<ChatMessage>::empty(), additions(msgs)) == msgs,
        replay_history(h, seq![HistoryEdit::Clear] + additions(msgs)) == msgs,
    decreases msgs.len(),
{
    lemma_replay_additions(Seq::<ChatMessage>::empty(), msgs);
    assert(Seq::<ChatMessage>::empty() + msgs == msgs);
    if msgs.len() == 0 {
        assert(seq![HistoryEdit::Clear] + additions(msgs) == seq![HistoryEdit::Clear]);
        assert(seq![HistoryEdit::Clear].drop_last().len() == 0);
    } else {
        let edits = seq![HistoryEdit::Clear] + additions(msgs);
        assert(edits.drop_last() == seq![HistoryEdit::Clear] + additions(msgs.drop_last()));
        lemma_history_keeps_call_order(h, msgs.drop_last());
        assert(edits.last() == HistoryEdit::Add(msgs.last()));
    }
}

/// The view of a result whose error is a `String`.
pub open spec fn result_view<T>(r: Result<T, String>) -> Result<T, Seq<char>> {
    match r {
        Ok(t) => Ok(t),
        Err(e) => Err(e@),
    }
}

/// The view of a text result.
pub open spec fn text_result_view(r: Result<String, String>) -> Result<Seq<char>, Seq<char>> {
    match r {
        Ok(t) => Ok(t@),
        Err(e) => Err(e@),
    }
}

/// The view of a recording handed over with its sample rate.
pub open spec fn audio_result_view(r: Result<(Vec<u8>, u32), String>) -> Result<(Seq<u8>, u32), Seq<char>> {
    match r {
        Ok(p) => Ok((p.0@, p.1)),
        Err(e) => Err(e@),
    }
}

impl AppState {
    /// The recording session of this state.
    pub open spec fn session(&self) -> SessionView {
        SessionView {
            recording: self.recording,
            status: self.status@,
            audio: self.audio_chunks@,
            sample_rate: self.sample_rate,
        }
    }

    /// Everything but the recording session is the same in `self` and `other`.
    pub open spec fn same_apart_from_session(&self, other: &AppState) -> bool {
        &&& self.messages == other.messages
        &&& self.config == other.config
        &&& self.config_path == other.config_path
        &&& self.model_path == other.model_path
    }

    /// Everything but the status is the same in `self` and `other`.
    pub open spec fn same_apart_from_status(&self, other: &AppState) -> bool {
        &&& self.same_apart_from_session(other)
        &&& self.recording == other.recording
        &&& self.audio_chunks == other.audio_chunks
        &&& self.sample_rate == other.sample_rate
    }

    /// The state at start-up: idle, not recording, nothing recorded or said.
    pub fn new(config: AppConfig, config_path: String, model_path: String) -> (r: AppState)
        ensures
            r.session() == (SessionView {
                recording: false,
                status: "idle"@,
                audio: Seq::<u8>::empty(),
                sample_rate: 0,
            }),
            r.messages@ == Seq::<ChatMessage>::empty(),
            r.config == config,
            r.config_path == config_path,
            r.model_path == model_path,
    {
        AppState {
            recording: false,
            status: String::from_str("idle"),
            messages: Vec::new(),
            audio_chunks: Vec::new(),
            sample_rate: 0,
            config,
            config_path,
            model_path,
        }
    }

    /// A copy of the configuration.
    pub fn get_config(&self) -> (r: AppConfig)
        ensures
            r == self.config,
    {
        self.config.clone()
    }

    /// Replaces the configuration (once it has been stored).
    pub fn set_config(&mut self, config: AppConfig)
        ensures
            final(self).config == config,
            final(self).session() == old(self).session(),
            final(self).messages == old(self).messages,
            final(self).config_path == old(self).config_path,
            final(self).model_path == old(self).model_path,
    {
        self.config = config;
    }

    /// The path of the configuration file.
    pub fn get_config_path(&self) -> (r: String)
        ensures
            r == self.config_path,
    {
        self.config_path.clone()
    }

    /// The current status.
    pub fn get_status(&self) -> (r: String)
        ensures
            r == self.status,
    {
        self.status.clone()
    }

    /// The status while a reply is spoken.
    pub fn mark_speaking(&mut self)
        ensures
            final(self).session() == speaking_step(old(self).session()),
            final(self).status@ == "speaking"@,
            final(self).same_apart_from_status(old(self)),
    {
        self.status = String::from_str("speaking");
    }

    /// The status once a reply has been spoken.
    pub fn mark_idle(&mut self)
        ensures
            final(self).session() == idle_step(old(self).session()),
            final(self).status@ == "idle"@,
            final(self).same_apart_from_status(old(self)),
    {
        self.status = String::from_str("idle");
    }

    /// Appends a message to the conversation.
    pub fn add_message(&mut self, msg: ChatMessage)
        ensures
            final(self).messages@ == edit_history(old(self).messages@, HistoryEdit::Add(msg)),
            final(self).session() == old(self).session(),
            final(self).config == old(self).config,
            final(self).config_path == old(self).config_path,
            final(self).model_path == old(self).model_path,
    {
        self.messages.push(msg);
    }

    /// The conversation so far, oldest message first.
    pub fn get_messages(&self) -> (r: Vec<ChatMessage>)
        ensures
            r@ == self.messages@,
    {
        let n = self.messages.len();
        let mut r: Vec<ChatMessage> = Vec::new();
        let mut i: usize = 0;
        while i < n
            invariant
                i <= n,
                n == self.messages@.len(),
                r@ == self.messages@.take(i as int),
            decreases n - i,
        {
            r.push(self.messages[i].clone());
            assert(r@ == self.messages@.take(i + 1));
            i += 1;
        }
        assert(self.messages@.take(n as int) == self.messages@);
        r
    }

    /// Forgets the conversation.
    pub fn clear_messages(&mut self)
        ensures
            final(self).messages@ == edit_history(old(self).messages@, HistoryEdit::Clear),
            final(self).session() == old(self).session(),
            final(self).config == old(self).config,
            final(self).config_path == old(self).config_path,
            final(self).model_path == old(self).model_path,
    {
        self.messages.clear();
    }

    /// Starts a recording (see `start_step`); `mic_authorized` is whether the
    /// system granted microphone access.
    pub fn start_recording(&mut self, mic_authorized: bool) -> (r: Result<RecordingStart, String>)
        ensures
            (final(self).session(), result_view(r)) == start_step(old(self).session(), mic_authorized),
            final(self).same_apart_from_session(old(self)),
    {
        if !mic_authorized {
            return Err(String::from_str("麦克风权限未授权，请在系统设置 → 隐私与安全性 → 麦克风中允许本应用"));
        }
        if self.recording {
            return Ok(RecordingStart::AlreadyRecording);
        }
        self.recording = true;
        self.status = String::from_str("recording");
        self.audio_chunks.clear();
        Ok(RecordingStart::Started)
    }

    /// Stops the recording (see `stop_step`).
    pub fn stop_recording(&mut self) -> (r: Result<String, String>)
        ensures
            (final(self).session(), text_result_view(r)) == stop_step(old(self).session()),
            final(self).same_apart_from_session(old(self)),
    {
        if !self.recording {
            return Err(String::from_str("not recording"));
        }
        self.recording = false;
        self.status = String::from_str("processing");
        Ok(String::from_str("ok"))
    }

    /// Appends captured bytes to the recording buffer.
    pub fn append_audio(&mut self, bytes: &[u8])
        ensures
            final(self).session() == append_step(old(self).session(), bytes@),
            final(self).same_apart_from_session(old(self)),
    {
        let n = bytes.len();
        let ghost start = self.audio_chunks@;
        let mut i: usize = 0;
        while i < n
            invariant
                i <= n,
                n == bytes@.len(),
                self.audio_chunks@ == start + bytes@.take(i as int),
                start == old(self).audio_chunks@,
                self.recording == old(self).recording,
                self.status == old(self).status,
                self.sample_rate == old(self).sample_rate,
                self.same_apart_from_session(old(self)),
            decreases n - i,
        {
            self.audio_chunks.push(bytes[i]);
            assert(bytes@.take(i + 1) == bytes@.take(i as int).push(bytes@[i as int]));
            i += 1;
        }
        assert(bytes@.take(n as int) == bytes@);
    }

    /// Records the sample rate the input device reported.
    pub fn set_sample_rate(&mut self, rate: u32)
        ensures
            final(self).session() == rate_step(old(self).session(), rate),
            final(self).same_apart_from_session(old(self)),
    {
        self.sample_rate = rate;
    }

    /// Hands the recording over for transcription (see `take_step`).
    pub fn take_audio(&mut self) -> (r: Result<(Vec<u8>, u32), String>)
        ensures
            (final(self).session(), audio_result_view(r)) == take_step(old(self).session()),
            final(self).same_apart_from_session(old(self)),
    {
        if self.audio_chunks.len() == 0 {
            return Err(String::from_str("no audio data"));
        }
        let rate = crate::audio::effective_sample_rate(self.sample_rate);
        let mut audio: Vec<u8> = Vec::new();
        std::mem::swap(&mut audio, &mut self.audio_chunks);
        Ok((audio, rate))
    }

    /// The chat request that asks the configured model to answer `text`.
    pub fn chat_request(&self, text: &str) -> (r: ChatRequest)
        ensures
            r.url@ == chat_url(self.config.llm.base_url@),
            r.authorization@ == chat_authorization(self.config.llm.api_key@),
            r.body@ == chat_body(self.config.llm.model@, text@),
    {
        build_chat_request(&self.config.llm, text)
    }

    /// The synthesis request for `text` under the configured key and voice.
    pub fn speech_request(&self, text: &str) -> (r: SpeechRequest)
        ensures
            r.url@ == speech_service_url(),
            r.authorization@ == self.config.tts.api_key@,
            field_views(r.fields@) == speech_fields(self.config.tts.voice_id@, text@),
    {
        build_speech_request(&self.config.tts, text)
    }

    /// The speech-service key and voice.
    pub fn speech_settings(&self) -> (r: (String, String))
        ensures
            r.0 == self.config.tts.api_key,
            r.1 == self.config.tts.voice_id,
    {
        (self.config.tts.api_key.clone(), self.config.tts.voice_id.clone())
    }
}

/// What to do about microphone permission at start-up.
#[derive(PartialEq, Eq, Structural)]
pub enum MicPermissionStep {
    /// Access is granted (status 3).
    Authorized,
    /// The user refused access (status 2); it can only be granted in System Settings.
    Denied,
    /// Not decided or restricted: ask the user and wait for the answer.
    Request,
}

/// The authorization status code that grants microphone access.
pub const MIC_AUTHORIZED: i64 = 3;

/// The authorization status code of a refused microphone.
pub const MIC_DENIED: i64 = 2;

/// The step for an authorization status code (0 undecided, 1 restricted,
/// 2 denied, 3 authorized).
pub fn mic_permission_step(status: i64) -> (r: MicPermissionStep)
    ensures
        r == (if status == MIC_AUTHORIZED {
            MicPermissionStep::Authorized
        } else if status == MIC_DENIED {
            MicPermissionStep::Denied
        } else {
            MicPermissionStep::Request
        }),
        (r == MicPermissionStep::Authorized) == (status == 3),
        (r == MicPermissionStep::Denied) == (status == 2),
{
    if status == MIC_AUTHORIZED {
        MicPermissionStep::Authorized
    } else if status == MIC_DENIED {
        MicPermissionStep::Denied
    } else {
        MicPermissionStep::Request
    }
}

/// Whether a status code lets a recording start.
pub fn mic_is_authorized(status: i64) -> (r: bool)
    ensures
        r == (status == MIC_AUTHORIZED),
        r == (status == 3),
{
    status == MIC_AUTHORIZED
}

} // verus!
