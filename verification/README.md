# voice_assistant

The logic of a push-to-talk voice assistant (record, transcribe, ask a
chat-completion model, speak the answer), written in Verus with contracts
proved by the verifier.

- `src/config.rs`: the persisted configuration, its factory default, and how a
  configuration read at start-up is settled.
- `src/state.rs`: the assistant's state between commands: the recording session
  as a transition system (start, capture, stop, hand-over), the conversation,
  the status, microphone-permission decisions, and the laws that tie them.
- `src/audio.rs`: 16-bit little-endian PCM framing with its round-trip laws,
  the sample-rate fallback, and the transcript assembled from segments.
- `src/chat.rs`: the chat request (URL, authorization, JSON body with
  serde_json's string escaping stated), the retry rule, the parse of the
  response body (serde_json) and the extraction of the reply from it.
- `src/speech.rs`: the speech plan (cache, system voice, remote service), the
  synthesis request, the cache file naming and the WAV check.
- `src/text.rs`: string operations with specifications: Unicode trimming,
  trailing-character stripping, and the text after the last marker.
- `app/`: the desktop shell: Tauri commands, microphone capture, Whisper,
  HTTP, files and processes, calling the library for every decision.
