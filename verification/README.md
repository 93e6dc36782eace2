# wx-cli

The verified core of a command line tool that reads a chat client's local data:
attachments, voice messages and the configuration that leads to them.

`src/` decides, parses and plans. Its logic is verified with Verus. It rests on a
few trusted items, whose contracts are believed: the calls into `md5`, `chrono` and
`serde_json`, and four functions of the standard library. Each of them says above
its header what is claimed. One of them reads the machine's time zone; apart from
that the library touches nothing outside. Where files, databases or programs are
needed, a value of the library says what is wanted next and takes the answer:

| module | what it does |
| --- | --- |
| `wxgf`, `bytes` | bitstreams inside a WXGF image, and their conversion |
| `packed_info`, `resource_db`, `sql` | the digest of a message's attachment |
| `voice_db` | the rows of a voice message, put together |
| `media_search`, `search_outcome`, `ordering`, `calendar`, `paths`, `digest`, `attachment` | the local file of an attachment |
| `resolve` | from a message to the local file |
| `tools`, `audio`, `transcript`, `transcribe`, `command` | a voice message turned into text |
| `init`, `config_text`, `config_merge`, `privileges` | the set-up of the tool |
| `request`, `text` | requests to the daemon, and texts |

Public proof functions whose names start with `law_` state what holds of the
functions together, for instance that a search that ends has found the file that
the disk has.

`app/` holds what is around the library: files, databases, programs, the
environment and the rights of the process. `tests/` runs the library.
