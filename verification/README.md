# mumble-sip

A bridge that takes SIP calls and joins each caller to a Mumble server with a
connection of their own. A call can name its server in the `X-Mumble-Server`
header. Callers move between channels with `*` and `#`, hear the intro with `1`,
and come back to the channel they left.

## Layout

- `src/` is the library: the rules by which the bridge handles calls, audio and
  messages, with contracts that Verus proves.
  - `text`, `search`, `html`, `hosts`, `phrase`: what is said of channels and text
    messages. `text_laws` and `escaping` hold what is true of all such texts.
  - `wav`, `speech`, `sounds`, `cache`, `tts`: sound effects and synthesized speech.
  - `ring`, `media_port`, `bridge`: the audio path between the SIP stack and Opus.
  - `sip`, `callbacks`, `control`: what the SIP stack and the Mumble server report.
  - `calls`, `session`, `call_events`, `announce`: the life of a call. `calls`
    describes the calls as mathematical values and states what always holds of them.
  - `config`, `db`, `sms`: settings, stored callers, text messages.
- `app/` is the program around it: sockets, processes, the database, the SIP stack
  and the Opus codec.
- `tests/` runs the library on concrete values.

The items marked `external_body` or `external_type_specification` state what the
library takes from other crates without proof: the WAV reader of `hound`, the
buffers of `ringbuf`, the names of `names`, the byte buffers of `bytes`, and lossy
decoding and `String::push` of the standard library.
