# epub_cache

The cache pipeline of an EPUB reader for small devices, verified with Verus:
opening an archive and its package, caching the chapters of the book as plain
text, loading the chapter being read into memory, and the background task that
keeps the cache ahead of the reader.

The library performs no I/O. Each operation of `ReaderApp` is a function from the
reader's state and an event to the next state and an action. The caller performs
the action and hands its outcome back as the next event, starting with `Begin` (or
`Tick`) and ending with `Done`.

| module       | operation                                                    |
|--------------|--------------------------------------------------------------|
| `reader`     | the state, its model `ReaderModel` and its invariant          |
| `archive`    | `epub_init_zip`: find and read the archive's directory        |
| `package`    | `epub_init_opf`: find and read the package document           |
| `record`     | `epub_check_cache`, `epub_finish_cache`: the cache record     |
| `chapter`    | `epub_cache_chapter_async`: cache one chapter                 |
| `stream`     | `read_at`, `write_chunk`: the ends of a chapter's stream      |
| `load`       | `epub_index_chapter`, `try_cache_chapter`: text in memory     |
| `background` | `bg_cache_step`: one tick of the background task              |
| `error`      | what can go wrong                                             |
| `text`, `memory` | UTF-8, paths, and memory that may not be there            |

The contract of each operation is a relation between the state before, the event,
the state after and the action (`zip_step`, `opf_step`, `check_step`,
`finish_step`, `chapter_step`, `index_step`, `load_step`, `bg_step`, and
`read_step` and `write_step` for the ends of a stream). What follows for whole runs
is proved in the modules whose names end in `_laws`: a book is cached without a gap
and in a bounded number of ticks, the neighbours of the chapter being read come
first and no chapter out of turn is touched, a cached chapter is never overwritten,
stale text survives neither in a cache file nor in memory, two openings of one file
agree, and a cache that was recorded is found again.

Memory that may not be there is an action like any other: `memory::reserve`
performs it, and hands back a `Room` that knows how much was reserved.

`app/` performs the actions on a device, with the EPUB format of `smol_epub`.
