# rust_download

A download manager: files over HTTP, cut into chunks and fetched over several connections, and
torrents.

- `src/` is the library, in Verus. It decides and computes: chunks and their merging, the answers
  of servers, the life of tasks, what the window shows and what a click sets going. It makes no
  I/O of its own, but for asking the machine for the user's directories, the time and random ids.
- `app/` is the program around it: sockets, files, the BitTorrent session and the window.
- `tests/` runs the library on concrete values.

## Modules

| module | what it holds |
|---|---|
| `text`, `format`, `paths` | text primitives; sizes, rates and times as text; paths |
| `chunks` | cutting a file, asking for what is missing, merging |
| `probe` | size, ranges and name from the first answer of a server |
| `task` | tasks and their states |
| `registry` | a table from task ids to numbers |
| `engine`, `bt` | HTTP and BitTorrent transfers as state machines |
| `runs` | laws on what downloads report, and in which order |
| `manager`, `lifecycle` | the list of tasks, and laws on what happens to them |
| `ui`, `screen` | the window: its state, and what it shows |
| `config`, `font` | settings and their places; where fonts are looked for |

The library calls a few functions of other crates (`uuid`, `chrono`, `dirs`, `url`,
`urlencoding`). What is taken of them without proof stands with the functions marked
`external_body`.
