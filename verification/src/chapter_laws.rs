//! What holds of caching one chapter as a whole.
use vstd::prelude::*;
use crate::chapter::{chapter_event_fits, chapter_step, ChapterAction, ChapterEvent};
use crate::error::Error;
use crate::reader::ReaderModel;
use crate::reader_laws::{law_file_goes_by_its_name, reads_as};
use crate::stream::{write_step, WriteAction, WriteEvent};

verus! {

/// `event` is an outcome of `action`.
pub open spec fn chapter_answers<E>(action: ChapterAction<E>, event: ChapterEvent<E>) -> bool {
    match action {
        ChapterAction::Truncate { dir: _, ch: _, entry: _ } => event is Truncated,
        ChapterAction::Stream { name: _, dir: _, ch: _, entry: _ } => event is Streamed,
        ChapterAction::Done(_) => false,
    }
}

/// The events of caching the chapter `ch`, with the states around them and the
/// action that each step asked for.
pub struct ChapterRun<E> {
    pub ch: usize,
    /// The state before each step, and that after the last one.
    pub states: Seq<ReaderModel>,
    pub events: Seq<ChapterEvent<E>>,
    pub actions: Seq<ChapterAction<E>>,
}

impl<E> ChapterRun<E> {
    pub open spec fn len(self) -> nat {
        self.events.len()
    }

    /// The run starts at the beginning, each step is one of caching, and each
    /// event answers the action before it. There is room for the chapter, if it is
    /// in the book.
    pub open spec fn valid(self) -> bool {
        &&& self.len() > 0
        &&& self.states.len() == self.len() + 1
        &&& self.actions.len() == self.len()
        &&& self.ch < self.start().spine.len() ==> {
            &&& self.ch < self.start().chapter_sizes.len()
            &&& self.ch < self.start().ch_cached.len()
            &&& self.ch <= 65535
        }
        &&& self.events[0] is Begin
        &&& forall|i: int|
            0 <= i < self.len() ==> #[trigger] chapter_step(
                self.states[i],
                self.ch as int,
                self.events[i],
                self.states[i + 1],
                self.actions[i],
            )
        &&& forall|i: int|
            0 < i < self.len() ==> #[trigger] chapter_answers(self.actions[i - 1], self.events[i])
    }

    pub open spec fn start(self) -> ReaderModel {
        self.states[0]
    }

    pub open spec fn end(self) -> ReaderModel {
        self.states.last()
    }

    /// The chapter is in the book and has yet to be cached.
    pub open spec fn is_wanted(self) -> bool {
        self.ch < self.start().spine.len() && !self.start().ch_cached[self.ch as int]
    }
}

/// What holds after step `i`.
spec fn chapter_inv<E>(run: ChapterRun<E>, i: int) -> bool {
    let start = run.start();
    let now = run.states[i + 1];
    &&& i <= 2
    &&& chapter_event_fits(run.states[i], run.ch as int, run.events[i])
    &&& i > 0 ==> run.is_wanted()
    &&& match run.actions[i] {
        ChapterAction::Truncate { dir, ch, entry } => {
            &&& i == 0
            &&& now == start
            &&& run.is_wanted()
            &&& dir@ == start.cache_dir
            &&& ch == run.ch
            &&& entry == start.spine[run.ch as int]
        },
        ChapterAction::Stream { name, dir, ch, entry } => {
            &&& i == 1
            &&& now == start
            &&& run.events[1] matches ChapterEvent::Truncated(Ok(_))
            &&& name@ == start.file_name()
            &&& dir@ == start.cache_dir
            &&& ch == run.ch
            &&& entry == start.spine[run.ch as int]
        },
        ChapterAction::Done(Ok(_)) => if run.is_wanted() {
            &&& i == 2
            &&& run.events[1] matches ChapterEvent::Truncated(Ok(_))
            &&& run.events[2] matches ChapterEvent::Streamed(Ok(size))
            &&& now == ReaderModel {
                chapter_sizes: start.chapter_sizes.update(run.ch as int, size),
                ch_cached: start.ch_cached.update(run.ch as int, true),
                ..start
            }
        } else {
            i == 0 && now == start
        },
        ChapterAction::Done(Err(_)) => now == start && run.is_wanted(),
    }
}

proof fn lemma_chapter_inv<E>(run: ChapterRun<E>, i: int)
    requires
        run.valid(),
        0 <= i < run.len(),
    ensures
        chapter_inv(run, i),
    decreases i,
{
    assert(chapter_step(
        run.states[i],
        run.ch as int,
        run.events[i],
        run.states[i + 1],
        run.actions[i],
    ));
    if i > 0 {
        lemma_chapter_inv(run, i - 1);
        assert(chapter_answers(run.actions[i - 1], run.events[i]));
    }
}

/// Caching a chapter takes at most three steps, and a caller that answers each
/// action with one of its outcomes always meets what it asks of its events,
/// whatever the number of the chapter.
pub proof fn law_chapter_answers_fit<E>(run: ChapterRun<E>, i: int)
    requires
        run.valid(),
        0 <= i < run.len(),
    ensures
        run.len() <= 3,
        run.start().wf() ==> run.states[i].wf(),
        chapter_event_fits(run.states[i], run.ch as int, run.events[i]),
{
    lemma_chapter_inv(run, run.len() - 1);
    lemma_chapter_inv(run, i);
    if i > 0 {
        lemma_chapter_inv(run, i - 1);
    }
}

/// Nothing is asked for but of the cache file and the archive entry of the
/// chapter itself, and of those only where the chapter is in the book and not
/// yet cached.
pub proof fn law_only_the_chapter_is_touched<E>(run: ChapterRun<E>, i: int)
    requires
        run.valid(),
        0 <= i < run.len(),
    ensures
        match run.actions[i] {
            ChapterAction::Truncate { dir, ch, entry } => {
                &&& run.is_wanted()
                &&& dir@ == run.start().cache_dir
                &&& ch == run.ch
                &&& entry == run.start().spine[run.ch as int]
            },
            ChapterAction::Stream { name, dir, ch, entry } => {
                &&& run.is_wanted()
                &&& name@ == run.start().file_name()
                &&& dir@ == run.start().cache_dir
                &&& ch == run.ch
                &&& entry == run.start().spine[run.ch as int]
            },
            ChapterAction::Done(_) => true,
        },
{
    lemma_chapter_inv(run, i);
}

/// Whatever the caller tells, each step of caching a chapter follows from it: the
/// file of this chapter, and of no other, is emptied, in the cache directory of
/// the book; then the entry that the book has in this place is streamed from the
/// archive `text` into the same file. A chapter that is not in the book, or is
/// cached, asks for nothing. It ends with the failure that was told, or with
/// success, and then its size and its mark are the only things that have changed.
pub proof fn law_caching_asks_for_what_follows<E>(run: ChapterRun<E>, text: Seq<char>, i: int)
    requires
        run.valid(),
        reads_as(run.start().name, text),
        0 <= i < run.len(),
    ensures
        ({
            let start = run.start();
            let now = run.states[i + 1];
            let wanted = run.ch < start.spine.len() && !start.ch_cached[run.ch as int];
            match run.actions[i] {
                ChapterAction::Truncate { dir, ch, entry } => {
                    &&& i == 0 && wanted && now == start
                    &&& dir@ == start.cache_dir
                    &&& ch == run.ch
                    &&& entry == start.spine[run.ch as int]
                },
                ChapterAction::Stream { name, dir, ch, entry } => {
                    &&& i == 1 && wanted && now == start
                    &&& run.events[1] matches ChapterEvent::Truncated(Ok(_))
                    &&& name@ == text
                    &&& dir@ == start.cache_dir
                    &&& ch == run.ch
                    &&& entry == start.spine[run.ch as int]
                },
                ChapterAction::Done(result) => match run.events[i] {
                    ChapterEvent::Begin => !wanted && result is Ok && now == start,
                    ChapterEvent::Truncated(Err(e)) => result == Err::<(), Error<E>>(
                        Error::Kernel(e),
                    ) && now == start,
                    ChapterEvent::Streamed(Err(message)) => result == Err::<(), Error<E>>(
                        Error::Stream(message),
                    ) && now == start,
                    ChapterEvent::Streamed(Ok(size)) => {
                        &&& i == 2 && wanted && result is Ok
                        &&& now == ReaderModel {
                            chapter_sizes: now.chapter_sizes,
                            ch_cached: now.ch_cached,
                            ..start
                        }
                        &&& now.chapter_sizes.len() == start.chapter_sizes.len()
                        &&& now.ch_cached.len() == start.ch_cached.len()
                        &&& forall|k: int|
                            0 <= k < start.chapter_sizes.len() ==> #[trigger] now.chapter_sizes[k]
                                == if k == run.ch {
                                size
                            } else {
                                start.chapter_sizes[k]
                            }
                        &&& forall|k: int|
                            0 <= k < start.ch_cached.len() ==> (#[trigger] now.ch_cached[k] <==> k
                                == run.ch || start.ch_cached[k])
                    },
                    _ => false,
                },
            }
        }),
{
    lemma_chapter_inv(run, i);
    law_file_goes_by_its_name(run.start(), text);
    assert(chapter_step(
        run.states[i],
        run.ch as int,
        run.events[i],
        run.states[i + 1],
        run.actions[i],
    ));
    if i > 0 {
        lemma_chapter_inv(run, i - 1);
        assert(chapter_answers(run.actions[i - 1], run.events[i]));
    }
}

/// A chapter that fails, or that needs no caching, changes nothing; one that
/// succeeds is cached with the size that the stream reported, and no other
/// chapter is touched.
pub proof fn law_chapter_is_cached_or_untouched<E>(run: ChapterRun<E>)
    requires
        run.valid(),
    ensures
        (run.actions.last() matches ChapterAction::Done(Ok(_))) && run.is_wanted() ==> {
            &&& run.events.last() matches ChapterEvent::Streamed(Ok(size))
            &&& run.end() == ReaderModel {
                chapter_sizes: run.start().chapter_sizes.update(run.ch as int, size),
                ch_cached: run.start().ch_cached.update(run.ch as int, true),
                ..run.start()
            }
        },
        !(run.actions.last() matches ChapterAction::Done(Ok(_))) || !run.is_wanted() ==> run.end()
            == run.start(),
{
    lemma_chapter_inv(run, run.len() - 1);
}

/// A chapter that has been cached is not cached again: where one call for a
/// chapter of the book went well, a later call asks for nothing and changes
/// nothing, as long as the spine and the table of cached chapters are as the
/// first call left them.
pub proof fn law_cached_chapter_is_left_alone<E>(
    run: ChapterRun<E>,
    later: ReaderModel,
    post: ReaderModel,
    action: ChapterAction<E>,
)
    requires
        run.valid(),
        run.ch < run.start().spine.len(),
        run.actions.last() == ChapterAction::<E>::Done(Ok(())),
        later.spine == run.end().spine,
        later.ch_cached == run.end().ch_cached,
        chapter_step(later, run.ch as int, ChapterEvent::<E>::Begin, post, action),
    ensures
        post == later,
        action == ChapterAction::<E>::Done(Ok(())),
{
    lemma_chapter_inv(run, run.len() - 1);
}

/// What the streamer has written to the cache file of chapter `ch` in `dir`, with
/// the action that each write asked for.
pub struct StreamRun<'a, E> {
    pub dir: Seq<char>,
    pub ch: u16,
    pub events: Seq<WriteEvent<'a, E>>,
    pub actions: Seq<WriteAction<'a, E>>,
    /// What the file holds before each write, and after the last one.
    pub files: Seq<Seq<u8>>,
}

/// The data that the streamer has written.
pub open spec fn written<E>(event: WriteEvent<'_, E>) -> Seq<u8> {
    match event {
        WriteEvent::Asked { data } => data@,
        WriteEvent::Written(_) => Seq::empty(),
    }
}

/// What a file that held `before` holds once `action` was performed on it.
pub open spec fn appended<E>(before: Seq<u8>, action: WriteAction<'_, E>) -> Seq<u8> {
    match action {
        WriteAction::Append { dir: _, ch: _, data } => before + data@,
        WriteAction::Done(_) => before,
    }
}

impl<'a, E> StreamRun<'a, E> {
    pub open spec fn len(self) -> nat {
        self.events.len()
    }

    /// Each write is served as the end of the stream says, and the caller has
    /// performed what that asked for.
    pub open spec fn valid(self) -> bool {
        &&& self.actions.len() == self.len()
        &&& self.files.len() == self.len() + 1
        &&& forall|i: int|
            0 <= i < self.len() ==> {
                &&& self.events[i] is Asked
                &&& #[trigger] write_step(self.dir, self.ch, self.events[i], self.actions[i])
                &&& self.files[i + 1] == appended(self.files[i], self.actions[i])
            }
    }

    /// What the streamer has written, write by write.
    pub open spec fn chunks(self) -> Seq<Seq<u8>> {
        Seq::new(self.len(), |i: int| written(self.events[i]))
    }
}

proof fn lemma_chunks_are_appended<E>(run: StreamRun<'_, E>, n: int)
    requires
        run.valid(),
        0 <= n <= run.len(),
    ensures
        run.files[n] == run.files[0] + run.chunks().take(n).flatten(),
    decreases n,
{
    let chunks = run.chunks();
    if n == 0 {
        assert(chunks.take(0) =~= Seq::empty());
        assert(chunks.take(0).flatten() =~= Seq::<u8>::empty());
    } else {
        lemma_chunks_are_appended(run, n - 1);
        assert(write_step(run.dir, run.ch, run.events[n - 1], run.actions[n - 1]));
        assert(chunks.take(n) =~= chunks.take(n - 1).push(chunks[n - 1]));
        chunks.take(n - 1).lemma_flatten_push(chunks[n - 1]);
        assert(run.files[n - 1 + 1] == run.files[n - 1] + chunks[n - 1]);
    }
}

/// Each write of the streamer goes to the cache file of the chapter, whole, and
/// the file grows by what was written, in the order in which it was written.
pub proof fn law_chunks_are_appended_in_order<E>(run: StreamRun<'_, E>)
    requires
        run.valid(),
    ensures
        run.files.last() == run.files[0] + run.chunks().flatten(),
        forall|i: int|
            0 <= i < run.len() ==> (#[trigger] run.actions[i] matches WriteAction::Append {
                dir,
                ch,
                data,
            } && dir@ == run.dir && ch == run.ch && data@ == run.chunks()[i]),
{
    let n = run.len() as int;
    lemma_chunks_are_appended(run, n);
    assert(run.chunks().take(n) =~= run.chunks());
    assert forall|i: int| 0 <= i < n implies (#[trigger] run.actions[i]
        matches WriteAction::Append { dir, ch, data } && dir@ == run.dir && ch == run.ch && data@
        == run.chunks()[i]) by {
        assert(write_step(run.dir, run.ch, run.events[i], run.actions[i]));
    }
}

/// What the caller does to the cache file of the chapter: `files[i]` is what it
/// holds when event `i` is handed in. Emptying it, where that goes well, leaves
/// nothing in it, and a stream that goes well is `stream`, to the file that was
/// asked for. Of what goes wrong nothing is said.
pub open spec fn acts_on_file<E>(
    run: ChapterRun<E>,
    files: Seq<Seq<u8>>,
    stream: StreamRun<'_, E>,
) -> bool {
    &&& files.len() == run.len()
    &&& forall|i: int|
        0 < i < run.len() ==> match #[trigger] run.events[i] {
            ChapterEvent::Begin => true,
            ChapterEvent::Truncated(Ok(_)) => files[i] == Seq::<u8>::empty(),
            ChapterEvent::Streamed(Ok(_)) => {
                &&& run.actions[i - 1] matches ChapterAction::Stream { name: _, dir, ch, entry: _ }
                &&& stream.valid()
                &&& stream.dir == dir@
                &&& stream.ch == ch
                &&& stream.files[0] == files[i - 1]
                &&& stream.files.last() == files[i]
            },
            _ => true,
        }
}

/// Stale text does not survive: whatever the cache file held, once the chapter is
/// cached it holds what was streamed in this call, in order, and nothing else;
/// the stream went to the file of this chapter, in the cache directory of the
/// book; and the size of the chapter is the one that this stream reported.
pub proof fn law_cache_file_is_what_was_streamed<E>(
    run: ChapterRun<E>,
    files: Seq<Seq<u8>>,
    stream: StreamRun<'_, E>,
)
    requires
        run.valid(),
        run.is_wanted(),
        run.actions.last() == ChapterAction::<E>::Done(Ok(())),
        acts_on_file(run, files, stream),
    ensures
        files.last() == stream.chunks().flatten(),
        stream.dir == run.start().cache_dir,
        stream.ch == run.ch,
        run.events.last() matches ChapterEvent::Streamed(Ok(size))
            && run.end().chapter_sizes[run.ch as int] == size,
{
    lemma_chapter_inv(run, run.len() - 1);
    lemma_chapter_inv(run, 1);
    assert(run.events[1] is Truncated);
    assert(run.events[2] is Streamed);
    law_chunks_are_appended_in_order(stream);
    assert(files[2] =~= stream.chunks().flatten());
}

} // verus!
