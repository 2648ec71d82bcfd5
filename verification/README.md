# TuneBeacon

TuneBeacon follows the media players of a desktop session, looks up what the allowed ones play with
MusicBrainz, and tells an MQTT broker, a webhook, Last.fm and ListenBrainz about it.

- `src/` is the library. It decides everything: who is heard, what counts as a known recording,
  what is told to whom and when, how answers of services are read, what the terminal shows and what
  its keys do. Its behaviour is stated in contracts and proved with Verus.
- `app/` is the program around it: the command line, files, the session bus, the network and the
  terminal.
- `tests/` runs the library with the real outside crates.

The modules of the library:

| module | what it holds |
| --- | --- |
| `text`, `digest`, `web`, `json` | texts, fingerprints, addresses and JSON |
| `domain`, `config` | tracks, players, messages; settings and what makes them complete |
| `mpris`, `selection` | what players report, and which of them is heard |
| `verification`, `cache`, `artwork` | matching recordings, the cache, covers |
| `playback`, `delivery`, `submissions`, `lastfm`, `listenbrainz` | listening time and listening histories |
| `mqtt`, `webhook`, `runtime` | the outputs and the loop that feeds them |
| `editor`, `tui`, `screen` | the terminal interface |

What holds of the library as a whole stands beside the functions it is about, in public proof
functions whose names begin with `law_`.
