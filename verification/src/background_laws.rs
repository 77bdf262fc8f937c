//! What holds of every tick of the background task as a whole.
use vstd::prelude::*;
use crate::background::{
    bg_event_fits, bg_step, enters, leaves, lemma_next_uncached, next_uncached, BgAction, BgEvent, Slot,
};
use crate::chapter::{chapter_step, ChapterAction, ChapterEvent};
use crate::reader::{BgCacheState, ReaderModel};
use crate::record::{FinishAction, FinishEvent};

verus! {

/// `event` is an outcome of `action`.
pub open spec fn answers<E>(action: BgAction<E>, event: BgEvent<E>) -> bool {
    match action {
        BgAction::Chapter { slot, action: ChapterAction::Truncate { dir: _, ch: _, entry: _ } } =>
            event matches BgEvent::Chapter { slot: of, event: ChapterEvent::Truncated(_) } && of
                == slot,
        BgAction::Chapter {
            slot,
            action: ChapterAction::Stream { name: _, dir: _, ch: _, entry: _ },
        } => event matches BgEvent::Chapter { slot: of, event: ChapterEvent::Streamed(_) } && of
            == slot,
        BgAction::Chapter { slot: _, action: ChapterAction::Done(_) } => false,
        BgAction::Finish(FinishAction::Encode { archive_size: _, name_hash: _, sizes: _ }) =>
            event matches BgEvent::Finish(FinishEvent::Encoded(_)),
        BgAction::Finish(FinishAction::Write { dir: _, data: _ }) => event matches BgEvent::Finish(
            FinishEvent::Written(_),
        ),
        BgAction::Finish(FinishAction::Done(_)) => false,
        BgAction::DispatchNearby => event is NearbyDispatched,
        BgAction::ReceiveNearby => event is NearbyReceived,
        BgAction::DispatchNextNearby => event is NextNearbyDispatched,
        BgAction::FindImage => event is ImageFound,
        BgAction::AskWorker => event is WorkerIdle,
        BgAction::ReceiveImage => event is ImageReceived,
        BgAction::Done => false,
    }
}

/// The chapter in `slot` has failed.
pub open spec fn fails<E>(event: BgEvent<E>, slot: Slot) -> bool {
    event matches BgEvent::Chapter { slot: of, event: chapter_event } && of == slot && (
    chapter_event matches ChapterEvent::Truncated(Err(_)) || chapter_event
        matches ChapterEvent::Streamed(Err(_)))
}

/// Nothing but the place in the search for images has changed.
pub open spec fn same_but_images(a: ReaderModel, b: ReaderModel) -> bool {
    b == ReaderModel {
        img_cache_ch: b.img_cache_ch,
        img_cache_offset: b.img_cache_offset,
        img_scan_wrapped: b.img_scan_wrapped,
        ..a
    }
}

/// The book, the chapter being read, the tables of chapters, the scan and whether
/// the cache is complete are the same.
pub open spec fn same_chapters(a: ReaderModel, b: ReaderModel) -> bool {
    &&& b.spine == a.spine
    &&& b.chapter == a.chapter
    &&& b.chapter_sizes == a.chapter_sizes
    &&& b.ch_cached == a.ch_cached
    &&& b.cache_chapter == a.cache_chapter
    &&& b.chapters_cached == a.chapters_cached
}

/// What the caller may make of the state `a` while it performs `action`. While it
/// writes a chapter or the record it may move the search for images. What sees to
/// an image may do as it likes with the reader, as long as it leaves the chapters
/// and the state of the task alone: it may free the text in memory, for instance.
pub open spec fn carries_over<E>(action: BgAction<E>, a: ReaderModel, b: ReaderModel) -> bool {
    match action {
        BgAction::Chapter { slot: _, action: _ } | BgAction::Finish(_) => same_but_images(a, b),
        _ => same_chapters(a, b) && b.bg_cache == a.bg_cache,
    }
}

/// The events of one tick, with the state before and after each step and the
/// action that each step asked for. Between two steps the caller has performed
/// an action.
pub struct BgRun<E> {
    pub pre: Seq<ReaderModel>,
    pub post: Seq<ReaderModel>,
    pub events: Seq<BgEvent<E>>,
    pub actions: Seq<BgAction<E>>,
}

impl<E> BgRun<E> {
    pub open spec fn len(self) -> nat {
        self.events.len()
    }

    /// The run starts with a tick, in a state that is well-formed if chapters are
    /// to be cached; each step is one of the background task, and each event
    /// answers the action before it.
    pub open spec fn valid(self) -> bool {
        &&& self.len() > 0
        &&& self.pre.len() == self.len()
        &&& self.post.len() == self.len()
        &&& self.actions.len() == self.len()
        &&& self.events[0] is Tick
        &&& self.pre[0].bg_cache == BgCacheState::CacheChapter ==> self.pre[0].wf()
        &&& forall|i: int|
            0 <= i < self.len() ==> #[trigger] bg_step(
                self.pre[i],
                self.events[i],
                self.post[i],
                self.actions[i],
            )
        &&& forall|i: int|
            0 < i < self.len() ==> #[trigger] answers(self.actions[i - 1], self.events[i])
                && carries_over(self.actions[i - 1], self.post[i - 1], self.pre[i])
    }

    /// The tick is over.
    pub open spec fn complete(self) -> bool {
        self.valid() && self.actions.last() is Done
    }

    /// The state in which the tick began.
    pub open spec fn start(self) -> ReaderModel {
        self.pre[0]
    }

    /// The state that the last step left.
    pub open spec fn end(self) -> ReaderModel {
        self.post.last()
    }

    /// The chapter in `slot` has failed in one of the first `n` steps.
    pub open spec fn failed(self, n: int, slot: Slot) -> bool {
        exists|j: int| 0 <= j < n && fails(#[trigger] self.events[j], slot)
    }

    /// The run without its last step.
    pub open spec fn shorter(self) -> BgRun<E> {
        BgRun {
            pre: self.pre.drop_last(),
            post: self.post.drop_last(),
            events: self.events.drop_last(),
            actions: self.actions.drop_last(),
        }
    }
}

/// How many more answers an action can lead to.
pub open spec fn answers_left<E>(action: BgAction<E>) -> nat {
    match action {
        BgAction::Chapter { slot, action: ChapterAction::Truncate { dir: _, ch: _, entry: _ } } =>
            match slot {
                Slot::Next => 7,
                Slot::Previous => 5,
                Slot::Scan => 3,
            },
        BgAction::Chapter {
            slot,
            action: ChapterAction::Stream { name: _, dir: _, ch: _, entry: _ },
        } => match slot {
            Slot::Next => 6,
            Slot::Previous => 4,
            Slot::Scan => 2,
        },
        BgAction::Finish(FinishAction::Encode { archive_size: _, name_hash: _, sizes: _ }) => 2,
        BgAction::Finish(FinishAction::Write { dir: _, data: _ }) => 1,
        BgAction::DispatchNearby => 1,
        BgAction::ReceiveNearby => 2,
        BgAction::DispatchNextNearby => 1,
        BgAction::FindImage => 2,
        BgAction::AskWorker => 1,
        BgAction::ReceiveImage => 1,
        _ => 0,
    }
}

/// Each answer brings a tick closer to its end.
pub proof fn law_answer_brings_end_closer<E>(
    asked: BgAction<E>,
    pre: ReaderModel,
    event: BgEvent<E>,
    post: ReaderModel,
    action: BgAction<E>,
)
    requires
        answers(asked, event),
        bg_step(pre, event, post, action),
    ensures
        answers_left(action) < answers_left(asked),
{
}

/// A tick takes at most eight steps.
pub proof fn law_tick_is_bounded<E>(run: BgRun<E>)
    requires
        run.valid(),
    ensures
        run.len() + answers_left(run.actions.last()) <= 8,
    decreases run.len(),
{
    let n = run.len() as int;
    assert(bg_step(run.pre[n - 1], run.events[n - 1], run.post[n - 1], run.actions[n - 1]));
    if n > 1 {
        lemma_shorter_valid(run);
        law_tick_is_bounded(run.shorter());
        assert(answers(run.actions[n - 1 - 1], run.events[n - 1]));
        law_answer_brings_end_closer(
            run.actions[n - 2],
            run.pre[n - 1],
            run.events[n - 1],
            run.post[n - 1],
            run.actions[n - 1],
        );
    }
}

/// A tick without its last step is one too.
pub(crate) proof fn lemma_shorter_valid<E>(run: BgRun<E>)
    requires
        run.valid(),
        run.len() > 1,
    ensures
        run.shorter().valid(),
        run.shorter().start() == run.start(),
        run.shorter().len() == run.len() - 1,
{
    let short = run.shorter();
    assert forall|i: int| 0 <= i < short.len() implies #[trigger] bg_step(
        short.pre[i],
        short.events[i],
        short.post[i],
        short.actions[i],
    ) by {
        assert(bg_step(run.pre[i], run.events[i], run.post[i], run.actions[i]));
    }
    assert forall|i: int| 0 < i < short.len() implies #[trigger] answers(
        short.actions[i - 1],
        short.events[i],
    ) && carries_over(short.actions[i - 1], short.post[i - 1], short.pre[i]) by {
        assert(answers(run.actions[i - 1], run.events[i]));
    }
}

impl ReaderModel {
    /// The chapter in `slot`, if it is a neighbour of the one being read, is
    /// cached or has failed.
    pub open spec fn settled(self, slot: Slot, failed: bool) -> bool {
        let ch = self.slot_chapter(slot);
        ch < self.spine.len() && ch != self.chapter ==> self.ch_cached[ch] || failed
    }

    /// Every chapter that the sequential scan has passed is cached.
    pub open spec fn scanned_is_cached(self) -> bool {
        forall|i: int|
            0 <= i < self.cache_chapter && i < self.spine.len() ==> #[trigger] self.ch_cached[i]
    }
}

/// A chapter that is cached in `a` is cached in `b`.
pub open spec fn keeps_cached(a: ReaderModel, b: ReaderModel) -> bool {
    &&& a.ch_cached.len() == b.ch_cached.len()
    &&& forall|i: int| 0 <= i < a.ch_cached.len() && a.ch_cached[i] ==> #[trigger] b.ch_cached[i]
}

/// Every chapter that the sequential scan has passed between `a` and `b` is
/// cached, except that the last one may have failed.
pub open spec fn passed_is_cached(a: ReaderModel, b: ReaderModel, failed: bool) -> bool {
    forall|i: int|
        a.cache_chapter <= i < b.cache_chapter && i < b.spine.len() ==> #[trigger] b.ch_cached[i]
            || failed && i == b.cache_chapter - 1
}

/// What holds after each step of a tick that caches chapters: `start` is the
/// state in which it began, `now` that which the step left, `action` what it
/// asked for, and the flags say which slots have failed.
spec fn tick_inv<E>(
    start: ReaderModel,
    now: ReaderModel,
    action: BgAction<E>,
    next_failed: bool,
    previous_failed: bool,
    scan_failed: bool,
) -> bool {
    &&& now.wf()
    &&& now.spine == start.spine
    &&& now.chapter == start.chapter
    &&& keeps_cached(start, now)
    &&& now.cache_chapter >= start.cache_chapter
    &&& start.scanned_is_cached() && !scan_failed ==> now.scanned_is_cached()
    &&& start.cache_chapter <= start.spine.len() ==> now.cache_chapter <= now.spine.len()
    &&& passed_is_cached(start, now, scan_failed)
    &&& scan_failed ==> action is Done
    &&& match action {
        BgAction::Chapter { slot, action: chapter_action } => {
            &&& now.bg_cache == BgCacheState::CacheChapter
            &&& chapter_action !is Done
            &&& now.slot_chapter(slot) < now.spine.len()
            &&& !now.ch_cached[now.slot_chapter(slot)]
            &&& slot != Slot::Next ==> now.settled(Slot::Next, next_failed)
            &&& slot == Slot::Scan ==> now.settled(Slot::Previous, previous_failed)
        },
        BgAction::Finish(finish_action) => {
            &&& now.bg_cache == BgCacheState::CacheChapter
            &&& finish_action !is Done
            &&& now.cache_chapter >= now.spine.len()
            &&& now.settled(Slot::Next, next_failed)
            &&& now.settled(Slot::Previous, previous_failed)
        },
        BgAction::DispatchNearby => {
            &&& now.bg_cache == BgCacheState::CacheChapter
            &&& start.cache_chapter < start.spine.len()
            &&& now.cache_chapter > start.cache_chapter
            &&& now.settled(Slot::Next, next_failed)
            &&& now.settled(Slot::Previous, previous_failed)
        },
        BgAction::Done => {
            &&& now.settled(Slot::Next, next_failed)
            &&& now.settled(Slot::Previous, previous_failed)
            &&& if now.bg_cache == BgCacheState::CacheImage {
                now.cache_chapter >= now.spine.len()
            } else {
                &&& now.bg_cache == BgCacheState::CacheChapter || now.bg_cache
                    == BgCacheState::WaitNearbyImage
                &&& start.cache_chapter < start.spine.len()
                &&& now.cache_chapter > start.cache_chapter
            }
        },
        _ => false,
    }
}

/// Going on to `slot` keeps the invariant, where the slots before it are
/// settled.
proof fn lemma_enters_inv<E>(
    start: ReaderModel,
    pre: ReaderModel,
    slot: Slot,
    post: ReaderModel,
    action: BgAction<E>,
    next_failed: bool,
    previous_failed: bool,
    scan_failed: bool,
)
    requires
        pre.wf(),
        pre.spine == start.spine,
        pre.chapter == start.chapter,
        pre.bg_cache == BgCacheState::CacheChapter,
        keeps_cached(start, pre),
        pre.cache_chapter >= start.cache_chapter,
        start.scanned_is_cached() && !scan_failed ==> pre.scanned_is_cached(),
        start.cache_chapter <= start.spine.len() ==> pre.cache_chapter <= pre.spine.len(),
        passed_is_cached(start, pre, false),
        !scan_failed,
        slot != Slot::Next ==> pre.settled(Slot::Next, next_failed),
        slot == Slot::Scan ==> pre.settled(Slot::Previous, previous_failed),
        enters(pre, slot, post, action),
    ensures
        tick_inv(start, post, action, next_failed, previous_failed, scan_failed),
{
}

/// The first step of a tick that caches chapters establishes the invariant.
proof fn lemma_tick_inv_begins<E>(pre: ReaderModel, post: ReaderModel, action: BgAction<E>)
    requires
        pre.wf(),
        pre.bg_cache == BgCacheState::CacheChapter,
        bg_step(pre, BgEvent::Tick, post, action),
    ensures
        tick_inv(pre, post, action, false, false, false),
{
    let skipped = next_uncached(
        pre.ch_cached,
        pre.cache_chapter as int,
        pre.spine.len() as int,
    );
    lemma_next_uncached(pre.ch_cached, pre.cache_chapter as int, pre.spine.len() as int);
    let mid = ReaderModel { cache_chapter: skipped as u16, ..pre };
    lemma_enters_inv(pre, mid, Slot::Next, post, action, false, false, false);
}

/// Each answered step keeps the invariant.
proof fn lemma_tick_inv_steps<E>(
    start: ReaderModel,
    before: ReaderModel,
    asked: BgAction<E>,
    pre: ReaderModel,
    event: BgEvent<E>,
    post: ReaderModel,
    action: BgAction<E>,
    next_failed: bool,
    previous_failed: bool,
    scan_failed: bool,
)
    requires
        tick_inv(start, before, asked, next_failed, previous_failed, scan_failed),
        carries_over(asked, before, pre),
        answers(asked, event),
        bg_step(pre, event, post, action),
    ensures
        bg_event_fits(pre, event),
        tick_inv(
            start,
            post,
            action,
            next_failed || fails(event, Slot::Next),
            previous_failed || fails(event, Slot::Previous),
            scan_failed || fails(event, Slot::Scan),
        ),
{
    let next_failed = next_failed || fails(event, Slot::Next);
    let previous_failed = previous_failed || fails(event, Slot::Previous);
    let scan_failed = scan_failed || fails(event, Slot::Scan);
    match event {
        BgEvent::Chapter { slot, event: chapter_event } => {
            let (mid, chapter_action) = choose|mid: ReaderModel, chapter_action: ChapterAction<E>|
             #[trigger]
                chapter_step(pre, pre.slot_chapter(slot), chapter_event, mid, chapter_action)
                    && match chapter_action {
                    ChapterAction::Done(result) => leaves(
                        mid,
                        slot,
                        result is Ok,
                        post,
                        action,
                    ),
                    _ => post == mid && action == (BgAction::Chapter {
                        slot,
                        action: chapter_action,
                    }),
                };
            if chapter_action is Done && slot != Slot::Scan {
                let onto = if slot == Slot::Next {
                    Slot::Previous
                } else {
                    Slot::Scan
                };
                lemma_enters_inv(
                    start,
                    mid,
                    onto,
                    post,
                    action,
                    next_failed,
                    previous_failed,
                    scan_failed,
                );
            }
        },
        _ => {},
    }
}

/// The invariant holds at the end of every tick that caches chapters.
proof fn lemma_tick_inv<E>(run: BgRun<E>)
    requires
        run.valid(),
        run.start().bg_cache == BgCacheState::CacheChapter,
    ensures
        tick_inv(
            run.start(),
            run.end(),
            run.actions.last(),
            run.failed(run.len() as int, Slot::Next),
            run.failed(run.len() as int, Slot::Previous),
            run.failed(run.len() as int, Slot::Scan),
        ),
        bg_event_fits(run.pre.last(), run.events.last()),
    decreases run.len(),
{
    let n = run.len() as int;
    assert(bg_step(run.pre[n - 1], run.events[n - 1], run.post[n - 1], run.actions[n - 1]));
    if n == 1 {
        lemma_tick_inv_begins(run.pre[0], run.post[0], run.actions[0]);
    } else {
        let short = run.shorter();
        lemma_shorter_valid(run);
        lemma_tick_inv(short);
        assert(answers(run.actions[n - 1 - 1], run.events[n - 1]));
        assert forall|slot: Slot| #[trigger]
            run.failed(n, slot) == (short.failed(n - 1, slot) || fails(
                run.events[n - 1],
                slot,
            )) by {
            if short.failed(n - 1, slot) {
                let j = choose|j: int| 0 <= j < n - 1 && fails(#[trigger] short.events[j], slot);
                assert(fails(run.events[j], slot));
            }
            if run.failed(n, slot) {
                let j = choose|j: int| 0 <= j < n && fails(#[trigger] run.events[j], slot);
                if j < n - 1 {
                    assert(fails(short.events[j], slot));
                }
            }
        }
        assert(run.failed(n, Slot::Next) == (short.failed(n - 1, Slot::Next) || fails(
            run.events[n - 1],
            Slot::Next,
        )));
        assert(run.failed(n, Slot::Previous) == (short.failed(n - 1, Slot::Previous) || fails(
            run.events[n - 1],
            Slot::Previous,
        )));
        assert(run.failed(n, Slot::Scan) == (short.failed(n - 1, Slot::Scan) || fails(
            run.events[n - 1],
            Slot::Scan,
        )));
        lemma_tick_inv_steps(
            run.start(),
            run.post[n - 2],
            run.actions[n - 2],
            run.pre[n - 1],
            run.events[n - 1],
            run.post[n - 1],
            run.actions[n - 1],
            short.failed(n - 1, Slot::Next),
            short.failed(n - 1, Slot::Previous),
            short.failed(n - 1, Slot::Scan),
        );
    }
}

/// The first steps of a tick are a tick up to that point.
pub(crate) proof fn lemma_prefix_valid<E>(run: BgRun<E>, n: int) -> (part: BgRun<E>)
    requires
        run.valid(),
        0 < n <= run.len(),
    ensures
        part.valid(),
        part.len() == n,
        part.start() == run.start(),
        part.pre.last() == run.pre[n - 1],
        part.end() == run.post[n - 1],
        part.events.last() == run.events[n - 1],
        part.actions.last() == run.actions[n - 1],
        forall|slot: Slot| #[trigger] part.failed(n, slot) == run.failed(n, slot),
{
    let part = BgRun {
        pre: run.pre.take(n),
        post: run.post.take(n),
        events: run.events.take(n),
        actions: run.actions.take(n),
    };
    assert forall|i: int| 0 <= i < n implies #[trigger] bg_step(
        part.pre[i],
        part.events[i],
        part.post[i],
        part.actions[i],
    ) by {
        assert(bg_step(run.pre[i], run.events[i], run.post[i], run.actions[i]));
    }
    assert forall|i: int| 0 < i < n implies #[trigger] answers(
        part.actions[i - 1],
        part.events[i],
    ) && carries_over(part.actions[i - 1], part.post[i - 1], part.pre[i]) by {
        assert(answers(run.actions[i - 1], run.events[i]));
    }
    assert forall|slot: Slot| #[trigger] part.failed(n, slot) == run.failed(n, slot) by {
        if part.failed(n, slot) {
            let j = choose|j: int| 0 <= j < n && fails(#[trigger] part.events[j], slot);
            assert(fails(run.events[j], slot));
        }
        if run.failed(n, slot) {
            let j = choose|j: int| 0 <= j < n && fails(#[trigger] run.events[j], slot);
            assert(fails(part.events[j], slot));
        }
    }
    part
}

/// A caller that answers each action with one of its outcomes always meets what
/// the background task asks of its events. A state that is well-formed stays so.
pub proof fn law_answers_fit<E>(run: BgRun<E>, i: int)
    requires
        run.valid(),
        0 <= i < run.len(),
    ensures
        bg_event_fits(run.pre[i], run.events[i]),
        run.start().wf() ==> run.pre[i].wf() && run.post[i].wf(),
{
    let part = lemma_prefix_valid(run, i + 1);
    if run.start().bg_cache == BgCacheState::CacheChapter {
        lemma_tick_inv(part);
        if i > 0 {
            let before = lemma_prefix_valid(run, i);
            lemma_tick_inv(before);
            assert(answers(run.actions[i - 1], run.events[i]));
        }
    } else {
        lemma_image_tick(part);
        if i > 0 {
            let before = lemma_prefix_valid(run, i);
            lemma_image_tick(before);
            assert(answers(run.actions[i - 1], run.events[i]));
        }
    }
}

/// A chapter that is cached stays cached.
pub proof fn law_cached_stays_cached<E>(run: BgRun<E>)
    requires
        run.valid(),
    ensures
        keeps_cached(run.start(), run.end()),
{
    if run.start().bg_cache == BgCacheState::CacheChapter {
        lemma_tick_inv(run);
    } else {
        lemma_image_tick(run);
    }
}

/// No cache file of a chapter that is cached is emptied, and none of a chapter
/// that is not in the book.
pub proof fn law_only_uncached_is_emptied<E>(
    pre: ReaderModel,
    event: BgEvent<E>,
    post: ReaderModel,
    action: BgAction<E>,
)
    requires
        bg_event_fits(pre, event),
        bg_step(pre, event, post, action),
    ensures
        action matches BgAction::Chapter {
            slot: _,
            action: ChapterAction::Truncate { dir: _, ch, entry: _ },
        } ==> ch < post.spine.len() && !post.ch_cached[ch as int],
{
}

/// A chapter is streamed only after its cache file was emptied.
pub proof fn law_streaming_follows_emptying<E>(
    pre: ReaderModel,
    event: BgEvent<E>,
    post: ReaderModel,
    action: BgAction<E>,
)
    requires
        bg_step(pre, event, post, action),
    ensures
        action matches BgAction::Chapter {
            slot,
            action: ChapterAction::Stream { name: _, dir: _, ch: _, entry: _ },
        } ==> (event matches BgEvent::Chapter {
            slot: of,
            event: ChapterEvent::Truncated(Ok(_)),
        } && of == slot),
{
}

/// A tick that caches chapters gets on, whatever fails: a scan that stands within
/// the book moves on, and not beyond its end, and once it has passed the last
/// chapter the task goes over to images. Every chapter that it has passed is
/// cached, but for the last one, where caching that one has failed.
pub proof fn law_chapter_tick_gets_on<E>(run: BgRun<E>)
    requires
        run.complete(),
        run.start().bg_cache == BgCacheState::CacheChapter,
    ensures
        match run.end().bg_cache {
            BgCacheState::CacheImage => run.end().cache_chapter >= run.end().spine.len(),
            BgCacheState::CacheChapter | BgCacheState::WaitNearbyImage =>
                run.end().cache_chapter > run.start().cache_chapter,
            _ => false,
        },
        run.start().cache_chapter >= run.start().spine.len() ==> run.end().bg_cache
            == BgCacheState::CacheImage,
        run.start().cache_chapter < run.start().spine.len() ==> run.start().cache_chapter
            < run.end().cache_chapter <= run.end().spine.len(),
        passed_is_cached(run.start(), run.end(), run.failed(run.len() as int, Slot::Scan)),
        run.end().spine == run.start().spine,
{
    lemma_tick_inv(run);
}

/// The chapters on either side of the one being read come first: when the
/// sequential scan has its turn, and so when the tick is over, each of them is
/// cached, unless it has failed.
pub proof fn law_neighbours_come_first<E>(run: BgRun<E>, i: int)
    requires
        run.valid(),
        run.start().bg_cache == BgCacheState::CacheChapter,
        0 <= i < run.len(),
    ensures
        match run.actions[i] {
            BgAction::Chapter { slot, action: _ } => slot == Slot::Scan,
            _ => true,
        } ==> run.post[i].settled(Slot::Next, run.failed(i + 1, Slot::Next))
            && run.post[i].settled(Slot::Previous, run.failed(i + 1, Slot::Previous)),
{
    let part = lemma_prefix_valid(run, i + 1);
    lemma_tick_inv(part);
    assert(part.failed(i + 1, Slot::Next) == run.failed(i + 1, Slot::Next));
    assert(part.failed(i + 1, Slot::Previous) == run.failed(i + 1, Slot::Previous));
}

/// The sequential scan leaves no gap but where a chapter has failed in its turn:
/// so, without such a failure, every chapter of the book is cached when the
/// background task goes over to images.
pub proof fn law_scan_leaves_no_gap<E>(run: BgRun<E>)
    requires
        run.complete(),
        run.start().bg_cache == BgCacheState::CacheChapter,
        run.start().scanned_is_cached(),
        !run.failed(run.len() as int, Slot::Scan),
    ensures
        run.end().scanned_is_cached(),
        run.end().bg_cache == BgCacheState::CacheImage ==> forall|ch: int|
            0 <= ch < run.end().spine.len() ==> #[trigger] run.end().has_chapter(ch),
{
    lemma_tick_inv(run);
}

/// The states to which a tick can go from `a`.
pub open spec fn may_follow(a: BgCacheState, b: BgCacheState) -> bool {
    match a {
        BgCacheState::CacheChapter => b == BgCacheState::CacheChapter || b
            == BgCacheState::WaitNearbyImage || b == BgCacheState::CacheImage,
        BgCacheState::WaitNearbyImage => b == BgCacheState::WaitNearbyImage || b
            == BgCacheState::CacheChapter,
        BgCacheState::CacheImage => b == BgCacheState::CacheImage || b
            == BgCacheState::WaitImage || b == BgCacheState::Idle,
        BgCacheState::WaitImage => b == BgCacheState::WaitImage || b == BgCacheState::CacheImage,
        BgCacheState::Idle => b == BgCacheState::Idle,
    }
}

/// What holds after each step of a tick that does not cache chapters.
spec fn image_tick_inv<E>(start: ReaderModel, now: ReaderModel, action: BgAction<E>) -> bool {
    &&& same_chapters(start, now)
    &&& match action {
        BgAction::Done => may_follow(start.bg_cache, now.bg_cache),
        BgAction::ReceiveNearby | BgAction::DispatchNextNearby => {
            &&& start.bg_cache == BgCacheState::WaitNearbyImage
            &&& now.bg_cache == start.bg_cache
        },
        BgAction::FindImage | BgAction::AskWorker => {
            &&& start.bg_cache == BgCacheState::CacheImage
            &&& now.bg_cache == start.bg_cache
        },
        BgAction::ReceiveImage => {
            &&& start.bg_cache == BgCacheState::WaitImage
            &&& now.bg_cache == start.bg_cache
        },
        _ => false,
    }
}

proof fn lemma_image_tick<E>(run: BgRun<E>)
    requires
        run.valid(),
        run.start().bg_cache != BgCacheState::CacheChapter,
    ensures
        image_tick_inv(run.start(), run.end(), run.actions.last()),
        bg_event_fits(run.pre.last(), run.events.last()),
        run.end() == (ReaderModel { bg_cache: run.end().bg_cache, ..run.pre.last() }),
    decreases run.len(),
{
    let n = run.len() as int;
    assert(bg_step(run.pre[n - 1], run.events[n - 1], run.post[n - 1], run.actions[n - 1]));
    if n > 1 {
        lemma_shorter_valid(run);
        lemma_image_tick(run.shorter());
        assert(answers(run.actions[n - 1 - 1], run.events[n - 1]));
    }
}

/// A tick that does not cache chapters leaves the chapters alone, and none of its
/// steps changes anything but the state of the task.
pub proof fn law_image_tick_leaves_chapters_alone<E>(run: BgRun<E>, i: int)
    requires
        run.valid(),
        run.start().bg_cache != BgCacheState::CacheChapter,
        0 <= i < run.len(),
    ensures
        same_chapters(run.start(), run.end()),
        run.post[i] == (ReaderModel { bg_cache: run.post[i].bg_cache, ..run.pre[i] }),
{
    lemma_image_tick(run);
    let part = lemma_prefix_valid(run, i + 1);
    lemma_image_tick(part);
}

/// A tick goes from one state to the next as [`may_follow`] says. An idle task
/// stays idle: its tick is over at once, asks for nothing and changes nothing.
pub proof fn law_states_follow<E>(run: BgRun<E>)
    requires
        run.complete(),
    ensures
        may_follow(run.start().bg_cache, run.end().bg_cache),
        run.start().bg_cache == BgCacheState::Idle ==> run.len() == 1 && run.end() == run.start(),
{
    let n = run.len() as int;
    assert(bg_step(run.pre[0], run.events[0], run.post[0], run.actions[0]));
    if n > 1 {
        assert(answers(run.actions[1 - 1], run.events[1]));
    }
    if run.start().bg_cache == BgCacheState::CacheChapter {
        lemma_tick_inv(run);
    } else {
        lemma_image_tick(run);
    }
}

/// A tick in a book whose chapters are all cached asks for none of them: it
/// writes the record at once.
pub proof fn law_full_cache_is_recorded<E>(
    pre: ReaderModel,
    post: ReaderModel,
    action: BgAction<E>,
)
    requires
        pre.wf(),
        pre.bg_cache == BgCacheState::CacheChapter,
        forall|ch: int| 0 <= ch < pre.spine.len() ==> #[trigger] pre.has_chapter(ch),
        bg_step(pre, BgEvent::Tick, post, action),
    ensures
        action is Finish,
{
    let from = pre.cache_chapter as int;
    let len = pre.spine.len() as int;
    lemma_next_uncached(pre.ch_cached, from, len);
    let to = next_uncached(pre.ch_cached, from, len);
    if to < len {
        assert(pre.has_chapter(to));
    }
    let mid = ReaderModel { cache_chapter: to as u16, ..pre };
    if mid.wants(Slot::Next) {
        assert(pre.has_chapter(mid.slot_chapter(Slot::Next)));
    }
    if mid.wants(Slot::Previous) {
        assert(pre.has_chapter(mid.slot_chapter(Slot::Previous)));
    }
}

/// A tick that begins in `after` finds the book, the scan and the state of the
/// task as the tick that ended in `before` left them. The reader may have moved
/// on to another chapter in between.
pub open spec fn follows_on(before: ReaderModel, after: ReaderModel) -> bool {
    &&& after.spine == before.spine
    &&& after.cache_chapter == before.cache_chapter
    &&& after.bg_cache == before.bg_cache
}

/// Ticks in a row, each of them over.
pub open spec fn in_a_row<E>(ticks: Seq<BgRun<E>>) -> bool
    decreases ticks.len(),
{
    ticks.len() > 0 ==> {
        &&& ticks.last().complete()
        &&& in_a_row(ticks.drop_last())
        &&& ticks.len() > 1 ==> follows_on(
            ticks.drop_last().last().end(),
            ticks.last().start(),
        )
    }
}

/// How many of the ticks cache chapters.
pub open spec fn chapter_ticks<E>(ticks: Seq<BgRun<E>>) -> nat
    decreases ticks.len(),
{
    if ticks.len() == 0 {
        0
    } else if ticks.last().start().bg_cache == BgCacheState::CacheChapter {
        chapter_ticks(ticks.drop_last()) + 1
    } else {
        chapter_ticks(ticks.drop_last())
    }
}

/// A tick after which the task has not gone over to images has moved the scan if
/// it cached chapters, and left it alone otherwise.
proof fn lemma_tick_moves_scan<E>(run: BgRun<E>)
    requires
        run.complete(),
        run.end().bg_cache == BgCacheState::CacheChapter || run.end().bg_cache
            == BgCacheState::WaitNearbyImage,
    ensures
        run.end().spine == run.start().spine,
        run.start().bg_cache == BgCacheState::CacheChapter || run.start().bg_cache
            == BgCacheState::WaitNearbyImage,
        if run.start().bg_cache == BgCacheState::CacheChapter {
            &&& run.start().cache_chapter < run.end().cache_chapter
            &&& run.start().cache_chapter < run.start().spine.len()
        } else {
            run.start().cache_chapter == run.end().cache_chapter
        },
{
    if run.start().bg_cache == BgCacheState::CacheChapter {
        lemma_tick_inv(run);
    } else {
        lemma_image_tick(run);
    }
}

/// Chapter caching comes to an end: as long as the task has not gone over to
/// images, it has spent no more ticks on chapters than there were left to scan,
/// and each has moved the scan.
pub proof fn law_chapter_caching_ends<E>(ticks: Seq<BgRun<E>>)
    requires
        ticks.len() > 0,
        in_a_row(ticks),
        ticks[0].start().bg_cache == BgCacheState::CacheChapter,
        ticks.last().end().bg_cache == BgCacheState::CacheChapter || ticks.last().end().bg_cache
            == BgCacheState::WaitNearbyImage,
    ensures
        ticks.last().end().spine == ticks[0].start().spine,
        ticks[0].start().cache_chapter + chapter_ticks(ticks) <= ticks.last().end().cache_chapter,
        ticks[0].start().cache_chapter + chapter_ticks(ticks) <= ticks[0].start().spine.len(),
    decreases ticks.len(),
{
    lemma_tick_moves_scan(ticks.last());
    let rest = ticks.drop_last();
    if rest.len() == 0 {
        assert(chapter_ticks(rest) == 0);
    } else {
        law_chapter_caching_ends(rest);
    }
}

/// The task has gone over to images.
pub open spec fn past_chapters(state: BgCacheState) -> bool {
    state == BgCacheState::CacheImage || state == BgCacheState::WaitImage || state
        == BgCacheState::Idle
}

/// A task that has gone over to images does not come back to chapters.
pub proof fn law_chapters_do_not_come_back<E>(ticks: Seq<BgRun<E>>, i: int)
    requires
        in_a_row(ticks),
        0 <= i < ticks.len(),
        past_chapters(ticks[i].start().bg_cache) || past_chapters(ticks[i].end().bg_cache),
    ensures
        past_chapters(ticks.last().end().bg_cache),
    decreases ticks.len(),
{
    law_states_follow(ticks.last());
    if i < ticks.len() - 1 {
        let rest = ticks.drop_last();
        assert(rest[i] == ticks[i]);
        law_chapters_do_not_come_back(rest, i);
    }
}

/// However many chapters fail, no more ticks are spent on chapters than there are
/// chapters left to scan, and one more, which goes over to images.
pub proof fn law_chapter_ticks_are_bounded<E>(ticks: Seq<BgRun<E>>)
    requires
        ticks.len() > 0,
        in_a_row(ticks),
        ticks[0].start().bg_cache == BgCacheState::CacheChapter,
        ticks[0].start().cache_chapter <= ticks[0].start().spine.len(),
    ensures
        ticks[0].start().cache_chapter + chapter_ticks(ticks) <= ticks[0].start().spine.len() + 1,
        ticks[0].start().cache_chapter + chapter_ticks(ticks) == ticks[0].start().spine.len() + 1
            ==> past_chapters(ticks.last().end().bg_cache),
    decreases ticks.len(),
{
    let rest = ticks.drop_last();
    law_states_follow(ticks.last());
    if !past_chapters(ticks.last().end().bg_cache) {
        law_chapter_caching_ends(ticks);
    } else if rest.len() == 0 {
        assert(chapter_ticks(rest) == 0);
    } else if past_chapters(rest.last().end().bg_cache) {
        law_chapter_ticks_are_bounded(rest);
    } else {
        law_chapter_caching_ends(rest);
    }
}

} // verus!
