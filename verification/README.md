# Yandex Music likes to Evernote

Backs up the tracks liked in Yandex Music to Evernote, one note per track: the
metadata, links to pages about the track elsewhere, its cover and, unless that is
switched off, its audio, byte for byte as it was served.

What the program decides and computes is a library under `src/`, written in Verus:
every function has a contract, and Verus proves that it keeps it. Files, processes
and requests are dealt with under `app/`. Where the two alternate, the library is a
state machine: it hands out a step that says what to do next, and is told what came
of it.

| Module | What it holds |
| --- | --- |
| `text`, `escape`, `json`, `double`, `timestamp` | texts and numbers: trimming, splitting, the form encoding, markup, quoted phrases, JSON fields of mixed type, doubles by their bits, moments |
| `config` | the settings of a run |
| `audio` | downloads as attachments: file names, MIME types, digests, bitrates, sizes |
| `note` | the title and the content of a note |
| `yandex` | liked tracks: their details, the requests for them, and their order |
| `enrichment` | the services that notes link to, the addresses, the lookups, and the steps that gather the links for a track |
| `evernote_client` | the steps that create a note, and the buffers under the Thrift protocol |
| `state`, `sync` | what is remembered between runs, and the steps of a run |

The properties that span several functions are public proof functions, in the
modules named `laws` and at the end of the other modules: for instance that a track
counts as processed exactly if its note was created, that a note is created again
only after a search has not found it, and that a service that is switched off is
never asked.

`chrono`, `html-escape`, `md5` and `url` are called from the library, each behind a
small function whose contract says what is believed of it.
