# arctis_chatmix

The logic of a ChatMix daemon for SteelSeries Arctis headsets on Linux, verified with Verus.

A headset with a ChatMix dial gets two virtual sinks, "Arctis Game" and "Arctis Chat", both
routed into its real sink. The daemon reads the dial over hidraw and applies it as the volumes
of the two sinks. It claims the default sink while the headset is on, hands it back when the
headset goes off, rebuilds the sinks when the sound server loses them, and warns of a low
battery.

## Layout

The library performs no input or output. Its state machines ask questions and return what is to
be done; `app/` answers and acts.

| Module | What it holds |
|---|---|
| `devices` | fields, frames, the framing of commands and the parsing of reports |
| `labels` | the wording of raw values, for each headset family |
| `catalog` | the supported headsets |
| `hid` | which hidraw node belongs to which headset; writing with a fallback framing |
| `modules` | the commands for the sound server, and which of its modules are ours |
| `plumbing` | the run of commands that builds or removes the sinks |
| `json` | the functions of `serde_json` that are relied upon |
| `audio` | the snapshot of the sinks and the stream of events |
| `session`, `session_laws` | sinks, default sink and warnings of one session |
| `daemon`, `daemon_laws` | the course with one headset: handshake, polling, draining, leaving |
| `status` | the one-shot status query and its report |
| `cli` | the command line, and the waits between two sessions |
| `text` | searching, splitting, trimming and formatting of text |

Each operation is stated over a mathematical model: a session is a `State`, a daemon a `Course`,
and every executable step is proved equal to a step of the model. The laws are public proof
functions over the models, beside what they speak of.

## What is taken on trust

The functions of `serde_json` in `json`, and `String::push` in `text`. Each carries a comment
that says what is believed of it.
