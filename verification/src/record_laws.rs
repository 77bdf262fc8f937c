//! What looking up a cache and recording one come to, in terms of what is stored.
use vstd::prelude::*;
use crate::error::Error;
use crate::open_laws::{check_answers, RecordFormat};
use crate::reader::ReaderModel;
use crate::record::{
    check_event_fits, check_step, finish_event_fits, finish_step, CheckAction, CheckEvent,
    FinishAction, FinishEvent,
};

verus! {

/// The events of looking up the cache of one book, with the states around them
/// and the action that each step asked for.
pub struct CheckRun<E> {
    /// The state before each step, and that after the last one.
    pub states: Seq<ReaderModel>,
    pub events: Seq<CheckEvent<E>>,
    pub actions: Seq<CheckAction<E>>,
}

impl<E> CheckRun<E> {
    pub open spec fn len(self) -> nat {
        self.events.len()
    }

    /// The run starts at the beginning, each step is one of the look-up, and each
    /// event answers the action before it.
    pub open spec fn valid(self) -> bool {
        &&& self.len() > 0
        &&& self.states.len() == self.len() + 1
        &&& self.actions.len() == self.len()
        &&& self.events[0] is Begin
        &&& forall|i: int|
            0 <= i < self.len() ==> #[trigger] check_step(
                self.states[i],
                self.events[i],
                self.states[i + 1],
                self.actions[i],
            )
        &&& forall|i: int|
            0 < i < self.len() ==> #[trigger] check_answers(self.actions[i - 1], self.events[i])
    }

    pub open spec fn start(self) -> ReaderModel {
        self.states[0]
    }

    pub open spec fn end(self) -> ReaderModel {
        self.states.last()
    }
}

/// The table of chapter sizes is `sizes`; nothing else has changed.
pub open spec fn has_sizes(start: ReaderModel, sizes: Seq<u32>, now: ReaderModel) -> bool {
    now == ReaderModel { chapter_sizes: sizes, ..start }
}

/// The table of chapter sizes is `sizes`, the first `count` chapters are cached,
/// beside those that were, and the cache is complete; nothing else has changed.
pub open spec fn has_cache(
    start: ReaderModel,
    sizes: Seq<u32>,
    count: usize,
    now: ReaderModel,
) -> bool {
    &&& now == ReaderModel {
        chapter_sizes: sizes,
        ch_cached: now.ch_cached,
        chapters_cached: true,
        ..start
    }
    &&& now.ch_cached.len() == start.ch_cached.len()
    &&& forall|ch: int|
        0 <= ch < start.ch_cached.len() ==> (#[trigger] now.ch_cached[ch] <==> ch < count
            || start.ch_cached[ch])
}

/// The table of sizes once the caller has told what a record comes to, up to step
/// `i`.
pub open spec fn told_sizes<E>(run: CheckRun<E>, i: int) -> Seq<u32> {
    if i < 2 {
        run.start().chapter_sizes
    } else {
        match run.events[2] {
            CheckEvent::RecordParsed { sizes, count: _ } => sizes@,
            _ => run.start().chapter_sizes,
        }
    }
}

/// What a look-up asks for in step `i`, and what it has made of the reader, in
/// terms of what the caller has told before.
pub open spec fn looks_up_rightly<E>(run: CheckRun<E>, i: int) -> bool {
    let start = run.start();
    let now = run.states[i + 1];
    match run.actions[i] {
        CheckAction::ReadRecord { dir, cap } => {
            &&& i == 0
            &&& now == start
            &&& dir@ == start.cache_dir
            &&& cap <= start.limits.page_buf
            &&& cap <= start.limits.meta_max
            &&& cap == start.limits.page_buf || cap == start.limits.meta_max
        },
        CheckAction::ParseRecord { len, archive_size, name_hash, spine_len } => {
            &&& i == 1
            &&& now == start
            &&& run.events[1] matches CheckEvent::RecordRead(Ok(n))
            &&& len == n
            &&& archive_size == start.archive_size
            &&& name_hash == start.name_hash
            &&& spine_len == start.spine.len()
        },
        CheckAction::EnsureDir { dir } => {
            &&& dir@ == start.cache_dir
            &&& has_sizes(start, told_sizes(run, i), now)
            &&& match run.events[i] {
                CheckEvent::RecordRead(Err(_)) => i == 1,
                CheckEvent::RecordParsed { sizes: _, count } => i == 2 && count is None,
                _ => false,
            }
        },
        CheckAction::Done(result) => match run.events[i] {
            CheckEvent::RecordParsed { sizes, count: Some(count) } => {
                &&& i == 2
                &&& result == Ok::<bool, Error<E>>(true)
                &&& has_cache(start, sizes@, count, now)
            },
            CheckEvent::DirReady(Ok(_)) => {
                &&& i >= 2
                &&& result == Ok::<bool, Error<E>>(false)
                &&& now.cache_chapter == 0
                &&& has_sizes(
                    ReaderModel { cache_chapter: 0, ..start },
                    told_sizes(run, i),
                    now,
                )
            },
            CheckEvent::DirReady(Err(e)) => {
                &&& i >= 2
                &&& result == Err::<bool, Error<E>>(Error::Kernel(e))
                &&& has_sizes(start, told_sizes(run, i), now)
            },
            _ => false,
        },
    }
}

/// Whatever the caller tells, each step of a look-up asks for what follows from
/// it: the record, as much of it as there can be and as the page buffer holds;
/// what the bytes that were read say of a book of this size, hash and length; and
/// the cache directory, where the record cannot be read or says nothing of the
/// book. It ends with success exactly where the record speaks of the book, and
/// then the chapters that it lists are cached and no others beside those that
/// were.
pub proof fn law_look_up_asks_for_what_follows<E>(run: CheckRun<E>, i: int)
    requires
        run.valid(),
        0 <= i < run.len(),
        run.start().spine.len() <= usize::MAX,
    ensures
        looks_up_rightly(run, i),
    decreases i,
{
    assert(check_step(run.states[i], run.events[i], run.states[i + 1], run.actions[i]));
    if i > 0 {
        law_look_up_asks_for_what_follows(run, i - 1);
        assert(check_answers(run.actions[i - 1], run.events[i]));
    }
}

/// A look-up asks of its events that no more was read than the page buffer holds,
/// that the parser kept the length of the table, and that it lists no chapter
/// without a slot; nothing else.
pub proof fn law_look_up_answers_fit<E>(run: CheckRun<E>, i: int)
    requires
        run.valid(),
        0 <= i < run.len(),
        run.start().spine.len() <= usize::MAX,
        match run.events[i] {
            CheckEvent::RecordRead(Ok(n)) => n <= run.start().limits.page_buf,
            CheckEvent::RecordParsed { sizes, count } => {
                &&& sizes@.len() == run.start().chapter_sizes.len()
                &&& count matches Some(count) ==> count <= run.start().ch_cached.len()
            },
            _ => true,
        },
    ensures
        check_event_fits(run.states[i], run.events[i]),
{
    if i > 0 {
        law_look_up_asks_for_what_follows(run, i - 1);
        assert(check_answers(run.actions[i - 1], run.events[i]));
    }
}

/// `event` is what `action` comes to where the cache directories hold `records`,
/// which are parsed as `format` says: `page` is what the page buffer holds behind
/// the read.
pub open spec fn store_answers<E>(
    records: spec_fn(Seq<char>) -> Seq<u8>,
    format: RecordFormat,
    table: Seq<u32>,
    page: Seq<u8>,
    action: CheckAction<E>,
    event: CheckEvent<E>,
) -> bool {
    match action {
        CheckAction::ReadRecord { dir, cap } => {
            &&& event matches CheckEvent::RecordRead(Ok(n))
            &&& n <= page.len()
            &&& n <= cap
            &&& n == cap || n == records(dir@).len()
            &&& n <= records(dir@).len()
            &&& page.subrange(0, n as int) == records(dir@).subrange(0, n as int)
        },
        CheckAction::ParseRecord { len, archive_size, name_hash, spine_len } => {
            &&& event matches CheckEvent::RecordParsed { sizes, count }
            &&& (format.parse)(
                page.subrange(0, len as int),
                archive_size,
                name_hash,
                spine_len as int,
                table,
            ) == (
                sizes@,
                match count {
                    Some(count) => Some(count as int),
                    None => None,
                },
            )
        },
        CheckAction::EnsureDir { dir: _ } => event is DirReady,
        CheckAction::Done(_) => false,
    }
}

/// What becomes of a look-up is settled by the record in the cache directory of
/// the book: the cache is there exactly where that record, read whole, speaks of a
/// book of this size, hash and length, and then as many chapters are cached, with
/// the sizes that the record gives, as it lists.
pub proof fn law_cache_is_what_its_record_says<E>(
    run: CheckRun<E>,
    records: spec_fn(Seq<char>) -> Seq<u8>,
    format: RecordFormat,
    page: Seq<u8>,
)
    requires
        run.valid(),
        run.actions.last() is Done,
        run.start().spine.len() <= usize::MAX,
        records(run.start().cache_dir).len() <= run.start().limits.meta_max,
        records(run.start().cache_dir).len() <= run.start().limits.page_buf,
        forall|i: int|
            0 < i < run.len() ==> store_answers(
                records,
                format,
                run.start().chapter_sizes,
                page,
                run.actions[i - 1],
                #[trigger] run.events[i],
            ),
    ensures
        ({
            let start = run.start();
            let (sizes, count) = (format.parse)(
                records(start.cache_dir),
                start.archive_size,
                start.name_hash,
                start.spine.len() as int,
                start.chapter_sizes,
            );
            match count {
                Some(count) => {
                    &&& run.actions.last() == CheckAction::<E>::Done(Ok(true))
                    &&& has_cache(start, sizes, count as usize, run.end())
                },
                None => {
                    &&& run.actions.last() != CheckAction::<E>::Done(Ok(true))
                    &&& run.end().chapter_sizes == sizes
                    &&& run.end().ch_cached == start.ch_cached
                    &&& run.end().chapters_cached == start.chapters_cached
                },
            }
        }),
{
    let n = run.len() as int;
    let start = run.start();
    let record = records(start.cache_dir);
    assert forall|i: int| 0 <= i < n implies #[trigger] looks_up_rightly(run, i) by {
        law_look_up_asks_for_what_follows(run, i);
    }
    assert forall|i: int| 0 <= i < n - 1 implies #[trigger] run.actions[i] !is Done by {
        assert(check_answers(run.actions[i + 1 - 1], run.events[i + 1]));
    }
    assert(looks_up_rightly(run, n - 1));
    assert(looks_up_rightly(run, 0));
    assert(n > 1);
    assert(store_answers(
        records,
        format,
        start.chapter_sizes,
        page,
        run.actions[0],
        run.events[1],
    ));
    assert(looks_up_rightly(run, 1));
    assert(record.subrange(0, record.len() as int) =~= record);
    assert(n > 2);
    assert(store_answers(
        records,
        format,
        start.chapter_sizes,
        page,
        run.actions[1],
        run.events[2],
    ));
    assert(looks_up_rightly(run, 2));
    if n > 3 {
        assert(looks_up_rightly(run, 3));
    }
}

/// `event` is an outcome of `action`, for a record that is written.
pub open spec fn finish_answers<E>(action: FinishAction<E>, event: FinishEvent<E>) -> bool {
    match action {
        FinishAction::Encode { archive_size: _, name_hash: _, sizes: _ } => event is Encoded,
        FinishAction::Write { dir: _, data: _ } => event is Written,
        FinishAction::Done(_) => false,
    }
}

/// The events of writing one record, with the states around them and the action
/// that each step asked for.
pub struct FinishRun<E> {
    /// The state before each step, and that after the last one.
    pub states: Seq<ReaderModel>,
    pub events: Seq<FinishEvent<E>>,
    pub actions: Seq<FinishAction<E>>,
}

impl<E> FinishRun<E> {
    pub open spec fn len(self) -> nat {
        self.events.len()
    }

    /// The run starts at the beginning, each step is one of writing, and each
    /// event answers the action before it.
    pub open spec fn valid(self) -> bool {
        &&& self.len() > 0
        &&& self.states.len() == self.len() + 1
        &&& self.actions.len() == self.len()
        &&& self.events[0] is Begin
        &&& self.start().spine.len() <= self.start().chapter_sizes.len()
        &&& forall|i: int|
            0 <= i < self.len() ==> #[trigger] finish_step(
                self.states[i],
                self.events[i],
                self.states[i + 1],
                self.actions[i],
            )
        &&& forall|i: int|
            0 < i < self.len() ==> #[trigger] finish_answers(self.actions[i - 1], self.events[i])
    }

    pub open spec fn start(self) -> ReaderModel {
        self.states[0]
    }

    pub open spec fn end(self) -> ReaderModel {
        self.states.last()
    }
}

/// What writing a record asks for in step `i`, and what it has made of the reader,
/// in terms of what the caller has told before.
pub open spec fn records_rightly<E>(run: FinishRun<E>, i: int) -> bool {
    let start = run.start();
    let now = run.states[i + 1];
    match run.actions[i] {
        FinishAction::Encode { archive_size, name_hash, sizes } => {
            &&& i == 0
            &&& now == start
            &&& archive_size == start.archive_size
            &&& name_hash == start.name_hash
            &&& sizes@.len() == start.spine.len()
            &&& forall|ch: int|
                0 <= ch < start.spine.len() ==> #[trigger] sizes@[ch] == start.chapter_sizes[ch]
        },
        FinishAction::Write { dir, data } => {
            &&& i == 1
            &&& now == start
            &&& dir@ == start.cache_dir
            &&& run.events[1] matches FinishEvent::Encoded(record)
            &&& data@ == record@
        },
        FinishAction::Done(result) => {
            &&& i == 2
            &&& now == ReaderModel { chapters_cached: now.chapters_cached, ..start }
            &&& match run.events[2] {
                FinishEvent::Written(Ok(_)) => now.chapters_cached && result == Ok::<
                    bool,
                    Error<E>,
                >(false),
                FinishEvent::Written(Err(e)) => now.chapters_cached == start.chapters_cached
                    && result == Err::<bool, Error<E>>(Error::Kernel(e)),
                _ => false,
            }
        },
    }
}

/// Whatever the caller tells, writing a record asks for what follows from it: the
/// size of each chapter of the book, in order, is to be encoded, with the size and
/// the hash of the archive; what that came to is to be written to the cache
/// directory, whole; and the cache is complete exactly where it was written, or
/// was complete before. Nothing else of the reader changes.
pub proof fn law_recording_asks_for_what_follows<E>(run: FinishRun<E>, i: int)
    requires
        run.valid(),
        0 <= i < run.len(),
    ensures
        records_rightly(run, i),
        finish_event_fits(run.states[i], run.events[i]),
    decreases i,
{
    assert(finish_step(run.states[i], run.events[i], run.states[i + 1], run.actions[i]));
    if i > 0 {
        law_recording_asks_for_what_follows(run, i - 1);
        assert(finish_answers(run.actions[i - 1], run.events[i]));
    }
}

} // verus!
