# OpenVoice

On-device voice dictation: hold a hotkey, talk, let go, and the text lands at
the cursor. No audio leaves the machine.

`src/` is the logic of it, verified with Verus: every function states what it
returns or changes, and the laws of the whole are proof functions named
`law_...`. `app/` is what touches hardware, models and windows.

| In `src/` | |
|---|---|
| `ring_buffer`, `sample_time`, `session`, `capture`, `convert`, `resample` | audio on its way in |
| `framing`, `silero`, `endpoint` | voice activity |
| `window`, `audio_ctx`, `asr_config`, `text`, `merge`, `dictionary` | transcription |
| `disfluency`, `disfluency_laws`, `prompt`, `generation`, `deadline` | cleaning up |
| `key`, `hotkey`, `listener`, `winkey`, `status` | hotkeys and what they tell the pipeline |
| `machine`, `machine_laws`, `engine` | the pipeline as a state machine |
| `inject` | getting text to the cursor |
| `icon`, `pill` | what is shown |
| `load`, `paths` | starting up |
| `chars`, `words`, `decimal`, `slices` | text, numbers and samples |

## Using it

Hold Left Ctrl + Left Shift to dictate, and release either to insert the text.
Tap AltGr to switch to hands-free, where silence ends each utterance, and again
to stop. While one of the two is going on, the other's key is ignored.

Models are read from `models/`: `ggml-distil-small.en.bin` for speech,
`silero_vad.onnx` for voice activity and, optionally,
`qwen2.5-0.5b-instruct-q4_k_m.gguf` for cleaning up. The speech model can be given
as an argument, and each of them by a variable: `DICTATION_MODEL_PATH`,
`DICTATION_VAD_MODEL_PATH`, `DICTATION_CLEANUP_MODEL_PATH`. Names and jargon,
one to a line, go into `dictionary.txt` (or `DICTATION_DICTIONARY_PATH`).

Without a flag there is a tray icon and a floating pill; with `--console` what
happens is printed instead.

## What becomes of an utterance

Fillers, stutters and doubled words are stripped from every utterance, by rule
and at no cost, whether or not there is a cleanup model. Where this README or a
contract speaks of what was said, or of raw text, it means the transcript after
that. An utterance of nothing but fillers counts as nothing heard.

The cleanup model comes on top of it. It is on wherever one was loaded, and the
settings switch it off and on. Its answer is used if it is there within 120 ms
and is not blank; otherwise what was said is inserted. Either way one text is
inserted, once.

An insertion presses keys of its own. While it is under way hotkeys are not
listened to.

## What is trusted

Verus believes a few contracts without proof, each documented where it stands:
those of `char`'s classification, of case mapping and of `String::push` in
`chars`, and those of `Duration` in `sample_time`.
