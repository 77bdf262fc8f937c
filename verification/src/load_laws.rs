//! What holds of loading a chapter as a whole.
use vstd::prelude::*;
use crate::load::{
    index_step, load_event_fits, load_step, overlay, IndexAction, IndexEvent, LoadAction, LoadEvent,
};
use crate::memory::reserves;
use crate::reader::ReaderModel;

verus! {

/// `event` is an outcome of `action`.
pub open spec fn load_answers<E>(action: LoadAction, event: LoadEvent<E>) -> bool {
    match action {
        LoadAction::Reserve { size } => event matches LoadEvent::Reserved(room) && reserves(
            size as nat,
            room,
        ),
        LoadAction::ReadChunk { dir: _, ch: _, offset, len } => {
            &&& event matches LoadEvent::ChunkRead { offset: from, buf, read }
            &&& from == offset
            &&& buf@.len() == len
            &&& read matches Ok(n) ==> offset + n <= usize::MAX
        },
        LoadAction::Done(_) => false,
    }
}

/// `event` is a read that got something, and what it got is what `file` holds.
pub open spec fn reads_from<E>(file: Seq<u8>, event: LoadEvent<E>) -> bool {
    event matches LoadEvent::ChunkRead { offset, buf, read } ==> {
        &&& read matches Ok(n)
        &&& 0 < n <= buf@.len()
        &&& offset + n <= file.len()
        &&& buf@.subrange(0, n as int) == file.subrange(offset as int, offset + n)
    }
}

/// The events of one load, with the states around them and the action that each
/// step asked for.
pub struct LoadRun<E> {
    /// The state before each step, and that after the last one.
    pub states: Seq<ReaderModel>,
    pub events: Seq<LoadEvent<E>>,
    pub actions: Seq<LoadAction>,
}

impl<E> LoadRun<E> {
    pub open spec fn len(self) -> nat {
        self.events.len()
    }

    /// The run starts at the beginning, each step is one of loading, and each
    /// event answers the action before it.
    pub open spec fn valid(self) -> bool {
        &&& self.len() > 0
        &&& self.states.len() == self.len() + 1
        &&& self.actions.len() == self.len()
        &&& self.events[0] is Begin
        &&& forall|i: int|
            0 <= i < self.len() ==> #[trigger] load_step(
                self.states[i],
                self.events[i],
                self.states[i + 1],
                self.actions[i],
            )
        &&& forall|i: int|
            0 < i < self.len() ==> #[trigger] load_answers(self.actions[i - 1], self.events[i])
    }

    pub open spec fn start(self) -> ReaderModel {
        self.states[0]
    }

    pub open spec fn end(self) -> ReaderModel {
        self.states.last()
    }
}

/// Each answer brings a load closer to its end: behind memory comes the first
/// chunk, and each further chunk that is asked for lies further on, and still
/// within the chapter.
pub proof fn law_next_chunk_lies_further_on<E>(
    asked: LoadAction,
    pre: ReaderModel,
    event: LoadEvent<E>,
    post: ReaderModel,
    action: LoadAction,
)
    requires
        load_answers(asked, event),
        load_event_fits(pre, event),
        load_step(pre, event, post, action),
    ensures
        action !is Reserve,
        action matches LoadAction::ReadChunk { dir: _, ch: _, offset, len } ==> {
            &&& asked is Reserve ==> offset == 0
            &&& asked matches LoadAction::ReadChunk { dir: _, ch: _, offset: from, len: _ } ==> from
                < offset
            &&& offset + len <= post.chapter_size()->0
        },
{
}

/// What holds after each step of a load.
spec fn load_inv(start: ReaderModel, now: ReaderModel, action: LoadAction) -> bool {
    &&& now == ReaderModel { ch_cache: now.ch_cache, ..start }
    &&& match action {
        LoadAction::Reserve { size } => {
            &&& start.loadable()
            &&& now.ch_cache.len() == 0
            &&& start.ch_cache.len() != start.chapter_size()->0
            &&& size == start.chapter_size()->0
        },
        LoadAction::ReadChunk { dir, ch, offset, len } => {
            &&& start.loadable()
            &&& now.loading()
            &&& start.ch_cache.len() != start.chapter_size()->0
            &&& dir@ == start.cache_dir
            &&& ch == start.chapter
            &&& offset < start.chapter_size()->0
            &&& len == start.chunk_len(offset as int)
        },
        LoadAction::Done(true) => {
            &&& start.loadable()
            &&& now.loading()
        },
        LoadAction::Done(false) => {
            ||| now.ch_cache.len() == 0
            ||| now == start && (!start.is_epub || !start.chapters_cached || start.chapter_size()
                is None)
        },
    }
}

proof fn lemma_load_inv<E>(run: LoadRun<E>, i: int)
    requires
        run.valid(),
        0 <= i < run.len(),
    ensures
        load_inv(run.start(), run.states[i + 1], run.actions[i]),
        load_event_fits(run.states[i], run.events[i]),
    decreases i,
{
    assert(load_step(run.states[i], run.events[i], run.states[i + 1], run.actions[i]));
    if i > 0 {
        lemma_load_inv(run, i - 1);
        assert(load_answers(run.actions[i - 1], run.events[i]));
        let start = run.start();
        let pre = run.states[i];
        assert(pre.chapter_size() == start.chapter_size());
    }
}

/// A caller that answers each action with one of its outcomes always meets what
/// loading asks of its events. Memory is asked for exactly the size of the
/// chapter, which is small enough to be kept, and no read is larger than the page
/// buffer.
pub proof fn law_load_answers_fit<E>(run: LoadRun<E>, i: int)
    requires
        run.valid(),
        0 <= i < run.len(),
    ensures
        load_event_fits(run.states[i], run.events[i]),
        run.actions[i] matches LoadAction::Reserve { size } ==> {
            &&& run.start().chapter_size() == Some(size as int)
            &&& 0 < size <= run.start().limits.chapter_cache_max
        },
        run.actions[i] matches LoadAction::ReadChunk { dir: _, ch: _, offset: _, len } ==> len
            <= run.start().limits.page_buf,
{
    lemma_load_inv(run, i);
}

/// A load takes at most two steps more than the chapter has bytes.
pub proof fn law_load_is_bounded<E>(run: LoadRun<E>, i: int)
    requires
        run.valid(),
        0 <= i < run.len(),
    ensures
        i == 0 || run.start().chapter_size() is Some && i <= run.start().chapter_size()->0 + 1,
        run.actions[i] is Reserve ==> i == 0,
        run.actions[i] matches LoadAction::ReadChunk { dir: _, ch: _, offset, len: _ } ==> i
            <= offset + 1,
    decreases i,
{
    lemma_load_inv(run, i);
    assert(load_step(run.states[i], run.events[i], run.states[i + 1], run.actions[i]));
    if i > 0 {
        law_load_is_bounded(run, i - 1);
        lemma_load_inv(run, i - 1);
        assert(load_answers(run.actions[i - 1], run.events[i]));
    }
}

/// A load changes nothing but the text in memory. Where it ends well the text
/// has the length of the chapter, which is not empty and not too large;
/// otherwise no text is in memory, unless there was nothing to load in the first
/// place.
pub proof fn law_load_is_all_or_nothing<E>(run: LoadRun<E>)
    requires
        run.valid(),
    ensures
        run.end() == (ReaderModel { ch_cache: run.end().ch_cache, ..run.start() }),
        run.actions.last() == LoadAction::Done(true) ==> {
            &&& run.start().loadable()
            &&& run.end().ch_cache.len() == run.start().chapter_size()->0
        },
        run.actions.last() == LoadAction::Done(false) ==> {
            ||| run.end().ch_cache.len() == 0
            ||| run.end() == run.start() && (!run.start().is_epub || !run.start().chapters_cached
                || run.start().chapter_size() is None)
        },
{
    lemma_load_inv(run, run.len() - 1);
}

/// The text up to the next chunk, or up to the end, is what `file` holds.
proof fn lemma_load_reads<E>(run: LoadRun<E>, file: Seq<u8>, i: int)
    requires
        run.valid(),
        run.start().chapter_size() matches Some(size) ==> run.start().ch_cache.len() != size
            && size <= file.len(),
        forall|j: int| 0 <= j < run.len() ==> #[trigger] reads_from(file, run.events[j]),
        0 <= i < run.len(),
    ensures
        match run.actions[i] {
            LoadAction::ReadChunk { dir: _, ch: _, offset, len: _ } =>
                run.states[i + 1].ch_cache.subrange(0, offset as int) == file.subrange(
                    0,
                    offset as int,
                ),
            LoadAction::Done(true) => run.states[i + 1].ch_cache == file.subrange(
                0,
                run.start().chapter_size()->0,
            ),
            LoadAction::Reserve { size: _ } | LoadAction::Done(false) => true,
        },
    decreases i,
{
    assert(load_step(run.states[i], run.events[i], run.states[i + 1], run.actions[i]));
    lemma_load_inv(run, i);
    if i > 0 {
        lemma_load_inv(run, i - 1);
        lemma_load_reads(run, file, i - 1);
        assert(load_answers(run.actions[i - 1], run.events[i]));
        assert(reads_from(file, run.events[i]));
        let before = run.states[i].ch_cache;
        let after = run.states[i + 1].ch_cache;
        let size = run.start().chapter_size()->0;
        match run.events[i] {
            LoadEvent::ChunkRead { offset, buf, read: Ok(n) } => {
                assert(after == overlay(before, offset as int, buf@));
                assert forall|k: int| 0 <= k < offset + n implies after[k] == file[k] by {
                    if k < offset {
                        assert(before.subrange(0, offset as int)[k] == file.subrange(
                            0,
                            offset as int,
                        )[k]);
                    } else {
                        assert(buf@.subrange(0, n as int)[k - offset] == file.subrange(
                            offset as int,
                            offset + n,
                        )[k - offset]);
                    }
                }
                assert(after.subrange(0, offset + n) =~= file.subrange(0, offset + n));
                if offset + n >= size {
                    assert(after =~= after.subrange(0, offset + n));
                }
            },
            _ => {},
        }
    }
}

/// A chapter that is loaded is what its file holds: where every read gets
/// something, and gets what the file holds, the text in memory is the beginning
/// of the file, as long as the chapter, and the load does not end without it but
/// for want of memory.
pub proof fn law_loaded_text_is_the_file<E>(run: LoadRun<E>, file: Seq<u8>)
    requires
        run.valid(),
        run.start().loadable(),
        run.start().ch_cache.len() != run.start().chapter_size()->0,
        run.start().chapter_size()->0 <= file.len(),
        forall|j: int| 0 <= j < run.len() ==> #[trigger] reads_from(file, run.events[j]),
    ensures
        run.actions.last() == LoadAction::Done(true) ==> run.end().ch_cache == file.subrange(
            0,
            run.start().chapter_size()->0,
        ),
        run.actions.last() == LoadAction::Done(false) ==> run.len() == 2 && (run.events[1]
            matches LoadEvent::Reserved(None)),
{
    let n = run.len() as int;
    lemma_load_reads(run, file, n - 1);
    assert(load_step(run.states[n - 1], run.events[n - 1], run.states[n], run.actions[n - 1]));
    if n > 1 {
        assert(load_answers(run.actions[n - 1 - 1], run.events[n - 1]));
        assert(reads_from(file, run.events[n - 1]));
        law_load_is_bounded(run, n - 2);
    }
}

/// A chapter that has been loaded is not read again.
pub proof fn law_loaded_text_is_reused<E>(
    run: LoadRun<E>,
    post: ReaderModel,
    action: LoadAction,
)
    requires
        run.valid(),
        run.actions.last() == LoadAction::Done(true),
        load_step(run.end(), LoadEvent::<E>::Begin, post, action),
    ensures
        post == run.end(),
        action == LoadAction::Done(true),
{
    lemma_load_inv(run, run.len() - 1);
    assert(run.end().chapter_size() == run.start().chapter_size());
}

/// Indexing a chapter resets paging, before anything else is done. After that the
/// chapter being read is the text to page through, with the size that its slot in
/// the table gives, or none where it has no slot, and no text is in memory. The
/// rest is as the reset of paging left it: so where that keeps the book, the
/// tables and the state of the background task, indexing keeps them too.
pub proof fn law_indexing_resets_paging(
    start: ReaderModel,
    asked: ReaderModel,
    first: IndexAction,
    reset: ReaderModel,
    end: ReaderModel,
    last: IndexAction,
)
    requires
        index_step(start, IndexEvent::Begin, asked, first),
        index_step(reset, IndexEvent::PagingReset, end, last),
    ensures
        asked == start,
        first == IndexAction::ResetPaging,
        last == IndexAction::Done,
        end.ch_cache.len() == 0,
        end.file_size == if reset.chapter < reset.chapter_sizes.len() {
            reset.chapter_sizes[reset.chapter as int]
        } else {
            0
        },
        end == (ReaderModel { ch_cache: end.ch_cache, file_size: end.file_size, ..reset }),
{
}

/// A chapter that has just been indexed is read from its file, whatever was in
/// memory before.
pub proof fn law_indexed_chapter_is_reloaded<E>(
    before: ReaderModel,
    indexed: ReaderModel,
    done: IndexAction,
    post: ReaderModel,
    action: LoadAction,
)
    requires
        index_step(before, IndexEvent::PagingReset, indexed, done),
        load_step(indexed, LoadEvent::<E>::Begin, post, action),
    ensures
        action != LoadAction::Done(true),
        indexed.loadable() ==> action is Reserve,
{
}

/// Byte `k` of `text` is what a read among the first `n` events left there.
pub open spec fn was_read<E>(run: LoadRun<E>, n: int, text: Seq<u8>, k: int) -> bool {
    exists|j: int|
        0 <= j < n && (#[trigger] run.events[j] matches LoadEvent::ChunkRead {
            offset,
            buf,
            read: Ok(_),
        } && offset <= k < offset + buf@.len() && text[k] == buf@[k - offset])
}

proof fn lemma_text_was_read<E>(run: LoadRun<E>, i: int, k: int)
    requires
        run.valid(),
        run.start().ch_cache.len() == 0,
        0 <= i < run.len(),
        0 <= k < run.states[i + 1].ch_cache.len(),
    ensures
        run.states[i + 1].ch_cache[k] == 0 || was_read(
            run,
            i + 1,
            run.states[i + 1].ch_cache,
            k,
        ),
    decreases i,
{
    assert(load_step(run.states[i], run.events[i], run.states[i + 1], run.actions[i]));
    if i > 0 {
        lemma_load_inv(run, i - 1);
        lemma_load_inv(run, i);
        assert(load_answers(run.actions[i - 1], run.events[i]));
        let before = run.states[i].ch_cache;
        let after = run.states[i + 1].ch_cache;
        match run.events[i] {
            LoadEvent::ChunkRead { offset, buf, read: Ok(_) } => {
                assert(after == overlay(before, offset as int, buf@));
                if !(offset <= k < offset + buf@.len()) {
                    lemma_text_was_read(run, i - 1, k);
                    if was_read(run, i, before, k) {
                        let j = choose|j: int|
                            0 <= j < i && (#[trigger] run.events[j]
                                matches LoadEvent::ChunkRead { offset, buf, read: Ok(_) } && offset
                                <= k < offset + buf@.len() && before[k] == buf@[k - offset]);
                        assert(run.events[j] is ChunkRead);
                    }
                } else {
                    assert(run.events[i] is ChunkRead);
                }
            },
            _ => {},
        }
    }
}

/// Nothing of another chapter survives indexing: when the chapter that has just
/// been indexed is loaded, each byte in memory comes from one of the reads of this
/// load, or is zero.
pub proof fn law_indexed_text_is_read<E>(
    before: ReaderModel,
    done: IndexAction,
    run: LoadRun<E>,
    k: int,
)
    requires
        run.valid(),
        index_step(before, IndexEvent::PagingReset, run.start(), done),
        0 <= k < run.end().ch_cache.len(),
    ensures
        run.end().ch_cache[k] == 0 || was_read(run, run.len() as int, run.end().ch_cache, k),
{
    lemma_text_was_read(run, run.len() - 1, k);
}

/// The reader shows a book whose cache is complete, and the chapter being read has
/// a slot in the table of sizes.
pub open spec fn has_size(reader: ReaderModel) -> bool {
    &&& reader.is_epub
    &&& reader.chapters_cached
    &&& reader.chapter < reader.chapter_sizes.len()
}

/// Beyond that, the chapter is not empty, and not too large to be kept.
pub open spec fn can_be_kept(reader: ReaderModel) -> bool {
    &&& has_size(reader)
    &&& reader.chapter_sizes[reader.chapter as int] > 0
    &&& reader.chapter_sizes[reader.chapter as int] <= reader.limits.chapter_cache_max
}

/// What a load asks for in step `i`, in terms of what the caller has told before.
pub open spec fn loads_rightly<E>(run: LoadRun<E>, i: int) -> bool {
    let start = run.start();
    let now = run.states[i + 1];
    let size = start.chapter_sizes[start.chapter as int];
    match run.actions[i] {
        LoadAction::Reserve { size: asked } => {
            &&& i == 0
            &&& can_be_kept(start)
            &&& start.ch_cache.len() != size
            &&& asked == size
        },
        LoadAction::ReadChunk { dir, ch, offset, len } => {
            &&& can_be_kept(start)
            &&& start.ch_cache.len() != size
            &&& dir@ == start.cache_dir
            &&& ch == start.chapter
            &&& offset < size
            &&& len <= size - offset
            &&& len <= start.limits.page_buf
            &&& len == size - offset || len == start.limits.page_buf
            &&& match run.events[i] {
                LoadEvent::Reserved(Some(_)) => i == 1 && offset == 0,
                LoadEvent::ChunkRead { offset: from, buf: _, read: Ok(n) } => i > 1 && n > 0
                    && offset == from + n,
                _ => false,
            }
        },
        LoadAction::Done(true) => match run.events[i] {
            LoadEvent::Begin => can_be_kept(start) && start.ch_cache.len() == size && now == start,
            LoadEvent::ChunkRead { offset, buf: _, read: Ok(n) } => can_be_kept(start) && (n == 0
                || offset + n >= size),
            _ => false,
        },
        LoadAction::Done(false) => match run.events[i] {
            LoadEvent::Begin => {
                &&& !can_be_kept(start)
                &&& if has_size(start) {
                    now.ch_cache.len() == 0
                } else {
                    now.ch_cache == start.ch_cache
                }
            },
            LoadEvent::Reserved(None) => i == 1 && now.ch_cache.len() == 0,
            LoadEvent::ChunkRead { offset: _, buf: _, read: Err(_) } => now.ch_cache.len() == 0,
            _ => false,
        },
    }
}

/// What step `i` of a load has put into memory, in terms of what the caller has
/// told.
pub open spec fn stores_rightly<E>(run: LoadRun<E>, i: int) -> bool {
    let start = run.start();
    let before = run.states[i].ch_cache;
    let now = run.states[i + 1].ch_cache;
    &&& run.states[i + 1] == ReaderModel { ch_cache: now, ..start }
    &&& match run.events[i] {
        LoadEvent::Begin => run.actions[i] is Reserve ==> now.len() == 0,
        LoadEvent::Reserved(Some(_)) => {
            &&& now.len() == start.chapter_sizes[start.chapter as int]
            &&& forall|k: int| 0 <= k < now.len() ==> #[trigger] now[k] == 0
        },
        LoadEvent::ChunkRead { offset, buf, read: Ok(_) } => {
            &&& now.len() == before.len()
            &&& forall|k: int|
                0 <= k < now.len() ==> #[trigger] now[k] == if offset <= k < offset + buf@.len() {
                    buf@[k - offset]
                } else {
                    before[k]
                }
        },
        _ => now.len() == 0,
    }
}

/// Whatever the caller tells, each step of a load follows from it. A chapter that
/// can be kept, and whose size the text in memory does not have, is loaded, and
/// every other one is left; memory is asked for its size; chunks are asked for
/// from its cache file, one behind the other without a gap, each as large as the
/// page buffer, or as what is left where that is less; and what was read goes
/// where it was read from. The load ends at the end of the chapter, or where
/// nothing more is read; a read that fails, or memory that is missing, leaves no
/// text.
pub proof fn law_loading_asks_for_what_follows<E>(run: LoadRun<E>, i: int)
    requires
        run.valid(),
        0 <= i < run.len(),
    ensures
        loads_rightly(run, i),
        stores_rightly(run, i),
{
    assert(load_step(run.states[i], run.events[i], run.states[i + 1], run.actions[i]));
    lemma_load_inv(run, i);
    if i > 0 {
        lemma_load_inv(run, i - 1);
        law_load_is_bounded(run, i - 1);
        assert(load_answers(run.actions[i - 1], run.events[i]));
        let j = i - 1;
        assert(load_step(run.states[j], run.events[j], run.states[j + 1], run.actions[j]));
        assert(run.states[i].chapter_size() == run.start().chapter_size());
    }
}

/// `event` is what `action` comes to where the cache files hold `files`, with
/// memory enough, for a text in memory that is `text`: a read brings at least one
/// byte where it is asked for any and the file has one left, and leaves the rest
/// of the buffer as it was.
pub open spec fn files_answer<E>(
    files: spec_fn(Seq<char>, u16) -> Seq<u8>,
    text: Seq<u8>,
    action: LoadAction,
    event: LoadEvent<E>,
) -> bool {
    match action {
        LoadAction::Reserve { size: _ } => event matches LoadEvent::Reserved(Some(_)),
        LoadAction::ReadChunk { dir, ch, offset, len } => {
            let file = files(dir@, ch);
            &&& event matches LoadEvent::ChunkRead { offset: _, buf, read: Ok(n) }
            &&& n <= len
            &&& n > 0 ==> offset + n <= file.len()
            &&& len > 0 && offset < file.len() ==> n > 0
            &&& forall|k: int| 0 <= k < n ==> #[trigger] buf@[k] == file[offset + k]
            &&& forall|k: int| n <= k < len ==> #[trigger] buf@[k] == text[offset + k]
        },
        LoadAction::Done(_) => false,
    }
}

/// Up to the next chunk the text in memory is what the file holds, and zero behind
/// that.
spec fn is_loaded(file: Seq<u8>, upto: int, text: Seq<u8>) -> bool {
    forall|k: int|
        0 <= k < text.len() ==> #[trigger] text[k] == if k < upto {
            file[k]
        } else {
            0
        }
}

proof fn lemma_file_is_loaded<E>(
    run: LoadRun<E>,
    files: spec_fn(Seq<char>, u16) -> Seq<u8>,
    i: int,
)
    requires
        run.valid(),
        can_be_kept(run.start()),
        run.start().ch_cache.len() != run.start().chapter_sizes[run.start().chapter as int],
        run.start().limits.page_buf > 0,
        forall|i: int|
            0 < i < run.len() ==> files_answer(
                files,
                run.states[i].ch_cache,
                run.actions[i - 1],
                #[trigger] run.events[i],
            ),
        0 <= i < run.len(),
    ensures
        ({
            let file = files(run.start().cache_dir, run.start().chapter);
            let now = run.states[i + 1].ch_cache;
            let size = run.start().chapter_sizes[run.start().chapter as int] as int;
            match run.actions[i] {
                LoadAction::Reserve { size: _ } => true,
                LoadAction::ReadChunk { dir: _, ch: _, offset, len: _ } => {
                    &&& now.len() == size
                    &&& offset <= file.len()
                    &&& is_loaded(file, offset as int, now)
                },
                LoadAction::Done(loaded) => {
                    &&& loaded
                    &&& now.len() == size
                    &&& is_loaded(file, file.len() as int, now)
                },
            }
        }),
    decreases i,
{
    law_loading_asks_for_what_follows(run, i);
    if i > 0 {
        lemma_file_is_loaded(run, files, i - 1);
        law_loading_asks_for_what_follows(run, i - 1);
        assert(load_answers(run.actions[i - 1], run.events[i]));
        assert(files_answer(
            files,
            run.states[i].ch_cache,
            run.actions[i - 1],
            run.events[i],
        ));
    }
}

/// What a load brings is settled by the cache file of the chapter being read: a
/// chapter that can be kept and is not in memory yet is loaded, whatever was in
/// memory before, and the text is then the file, byte by byte, cut to the size of
/// the chapter, with zeros behind a file that is shorter. It takes no more than
/// that each read brings something while the file has something left.
pub proof fn law_load_brings_the_file<E>(
    run: LoadRun<E>,
    files: spec_fn(Seq<char>, u16) -> Seq<u8>,
)
    requires
        run.valid(),
        run.actions.last() is Done,
        can_be_kept(run.start()),
        run.start().ch_cache.len() != run.start().chapter_sizes[run.start().chapter as int],
        run.start().limits.page_buf > 0,
        forall|i: int|
            0 < i < run.len() ==> files_answer(
                files,
                run.states[i].ch_cache,
                run.actions[i - 1],
                #[trigger] run.events[i],
            ),
    ensures
        ({
            let file = files(run.start().cache_dir, run.start().chapter);
            &&& run.actions.last() == LoadAction::Done(true)
            &&& run.end().ch_cache.len() == run.start().chapter_sizes[run.start().chapter as int]
            &&& forall|k: int|
                0 <= k < run.end().ch_cache.len() ==> #[trigger] run.end().ch_cache[k] == if k
                    < file.len() {
                    file[k]
                } else {
                    0
                }
        }),
{
    lemma_file_is_loaded(run, files, run.len() - 1);
}

/// A chapter that cannot be kept, or that is in memory already, going by its
/// length, is over at once, and only in the latter case is it in memory. A text
/// that belongs to no chapter that can be kept is dropped.
pub proof fn law_what_is_not_loaded<E>(pre: ReaderModel, post: ReaderModel, action: LoadAction)
    requires
        load_step(pre, LoadEvent::<E>::Begin, post, action),
    ensures
        post == (ReaderModel { ch_cache: post.ch_cache, ..pre }),
        action == LoadAction::Done(true) <==> can_be_kept(pre) && pre.ch_cache.len()
            == pre.chapter_sizes[pre.chapter as int],
        action == LoadAction::Done(false) <==> !can_be_kept(pre),
        !has_size(pre) || action == LoadAction::Done(true) ==> post.ch_cache == pre.ch_cache,
        has_size(pre) && action != LoadAction::Done(true) ==> post.ch_cache.len() == 0,
{
}

} // verus!
