//! What one tick of the background task comes to, in terms of what the caller
//! tells.
use vstd::prelude::*;
use crate::background::{
    bg_step, enters, leaves, lemma_next_uncached, next_uncached, BgAction, BgEvent, Found, Received,
    Slot,
};
use crate::background_laws::{answers, carries_over, in_a_row, law_states_follow, BgRun};
use crate::chapter::{chapter_step, ChapterAction, ChapterEvent};
use crate::order_laws::{law_only_chapters_in_turn_are_touched, same_but_cache};
use crate::reader::{BgCacheState, ReaderModel};
use crate::reader_laws::{law_file_goes_by_its_name, reads_as};
use crate::record::{FinishAction, FinishEvent};

verus! {

/// Each step of a run is one of the task, and each event answers the action before
/// it.
proof fn lemma_step<E>(run: BgRun<E>, i: int)
    requires
        run.valid(),
        0 <= i < run.len(),
    ensures
        bg_step(run.pre[i], run.events[i], run.post[i], run.actions[i]),
        i > 0 ==> answers(run.actions[i - 1], run.events[i]) && carries_over(
            run.actions[i - 1],
            run.post[i - 1],
            run.pre[i],
        ),
        i < run.len() - 1 ==> run.actions[i] !is Done,
{
    assert(bg_step(run.pre[i], run.events[i], run.post[i], run.actions[i]));
    if i > 0 {
        assert(answers(run.actions[i - 1], run.events[i]));
    }
    if i < run.len() - 1 {
        assert(answers(run.actions[i + 1 - 1], run.events[i + 1]));
    }
}

/// A tick that looks for an image asks for one. Where none is left the task is
/// idle, and in no other case: an image that was found is waited for where the
/// worker is busy with it, and where the worker is idle, or the image failed, the
/// next tick goes on looking.
pub proof fn law_image_search_goes_on<E>(run: BgRun<E>)
    requires
        run.complete(),
        run.start().bg_cache == BgCacheState::CacheImage,
    ensures
        run.actions[0] is FindImage,
        run.len() >= 2,
        match run.events[1] {
            BgEvent::ImageFound(Found::Nothing) => run.len() == 2 && run.end().bg_cache
                == BgCacheState::Idle,
            BgEvent::ImageFound(Found::Failed) => run.len() == 2 && run.end().bg_cache
                == BgCacheState::CacheImage,
            BgEvent::ImageFound(Found::Image) => {
                &&& run.len() == 3
                &&& run.actions[1] is AskWorker
                &&& run.events[2] matches BgEvent::WorkerIdle(idle)
                &&& idle ==> run.end().bg_cache == BgCacheState::CacheImage
                &&& !idle ==> run.end().bg_cache == BgCacheState::WaitImage
            },
            _ => false,
        },
        run.end().bg_cache == BgCacheState::Idle <==> exists|j: int|
            0 <= j < run.len() && #[trigger] run.events[j] == BgEvent::<E>::ImageFound(
                Found::Nothing,
            ),
{
    lemma_step(run, 0);
    lemma_step(run, 1);
    if run.len() > 2 {
        lemma_step(run, 2);
    }
    if run.len() > 3 {
        lemma_step(run, 3);
    }
    if run.events[1] == BgEvent::<E>::ImageFound(Found::Nothing) {
        assert(run.events[1] == BgEvent::<E>::ImageFound(Found::Nothing));
    }
}

/// A tick that waits for an image asks the worker for it, and goes on looking for
/// images exactly where the worker had something to say, good or bad.
pub proof fn law_image_is_waited_for<E>(run: BgRun<E>)
    requires
        run.complete(),
        run.start().bg_cache == BgCacheState::WaitImage,
    ensures
        run.len() == 2,
        run.actions[0] is ReceiveImage,
        match run.events[1] {
            BgEvent::ImageReceived(Received::Nothing) => run.end().bg_cache
                == BgCacheState::WaitImage,
            BgEvent::ImageReceived(_) => run.end().bg_cache == BgCacheState::CacheImage,
            _ => false,
        },
{
    lemma_step(run, 0);
    lemma_step(run, 1);
    if run.len() > 2 {
        lemma_step(run, 2);
    }
}

/// A tick that waits for an image close to the reading position asks the worker
/// for it. One that has come makes room for another; chapters have their turn
/// again where there is no other, or where the image failed, and in no other case.
pub proof fn law_nearby_image_is_waited_for<E>(run: BgRun<E>)
    requires
        run.complete(),
        run.start().bg_cache == BgCacheState::WaitNearbyImage,
    ensures
        run.actions[0] is ReceiveNearby,
        run.len() >= 2,
        match run.events[1] {
            BgEvent::NearbyReceived(Received::Nothing) => run.len() == 2 && run.end().bg_cache
                == BgCacheState::WaitNearbyImage,
            BgEvent::NearbyReceived(Received::Failed) => run.len() == 2 && run.end().bg_cache
                == BgCacheState::CacheChapter,
            BgEvent::NearbyReceived(Received::Image) => {
                &&& run.len() == 3
                &&& run.actions[1] is DispatchNextNearby
                &&& run.events[2] matches BgEvent::NextNearbyDispatched(sent)
                &&& sent ==> run.end().bg_cache == BgCacheState::WaitNearbyImage
                &&& !sent ==> run.end().bg_cache == BgCacheState::CacheChapter
            },
            _ => false,
        },
{
    lemma_step(run, 0);
    lemma_step(run, 1);
    if run.len() > 2 {
        lemma_step(run, 2);
    }
    if run.len() > 3 {
        lemma_step(run, 3);
    }
}

/// In that tick the search for images came to an end.
pub open spec fn finds_nothing<E>(run: BgRun<E>) -> bool {
    exists|j: int|
        0 <= j < run.len() && #[trigger] run.events[j] == BgEvent::<E>::ImageFound(Found::Nothing)
}

/// All images of the book have their turn: a task that was not idle becomes idle
/// only in a tick in which the search for images found that none is left.
pub proof fn law_images_are_searched_until_none_is_left<E>(ticks: Seq<BgRun<E>>)
    requires
        ticks.len() > 0,
        in_a_row(ticks),
        ticks[0].start().bg_cache != BgCacheState::Idle,
        ticks.last().end().bg_cache == BgCacheState::Idle,
    ensures
        exists|t: int|
            0 <= t < ticks.len() && #[trigger] finds_nothing(ticks[t]) && ticks[t].start().bg_cache
                == BgCacheState::CacheImage,
    decreases ticks.len(),
{
    let last = ticks.last();
    let rest = ticks.drop_last();
    law_states_follow(last);
    if last.start().bg_cache == BgCacheState::Idle {
        law_images_are_searched_until_none_is_left(rest);
        let t = choose|t: int|
            0 <= t < rest.len() && #[trigger] finds_nothing(rest[t]) && rest[t].start().bg_cache
                == BgCacheState::CacheImage;
        assert(ticks[t] == rest[t]);
        assert(finds_nothing(ticks[t]));
    } else {
        law_image_search_goes_on(last);
        assert(finds_nothing(ticks[ticks.len() - 1]));
    }
}

/// `c` is the first chapter from the scan on that is not cached, or the end of the
/// book where there is none; a scan that stands beyond the end stays there.
pub open spec fn is_first_uncached(start: ReaderModel, c: int) -> bool {
    &&& start.cache_chapter <= c
    &&& forall|k: int|
        start.cache_chapter <= k < c ==> k < start.spine.len() && #[trigger] start.ch_cached[k]
    &&& if c < start.spine.len() {
        !start.ch_cached[c]
    } else {
        c == start.spine.len() || c == start.cache_chapter
    }
}

/// There is exactly one such chapter.
proof fn lemma_first_uncached(start: ReaderModel, c: int)
    requires
        start.wf(),
        is_first_uncached(start, c),
    ensures
        c == next_uncached(
            start.ch_cached,
            start.cache_chapter as int,
            start.spine.len() as int,
        ),
{
    let from = start.cache_chapter as int;
    let len = start.spine.len() as int;
    lemma_next_uncached(start.ch_cached, from, len);
    let to = next_uncached(start.ch_cached, from, len);
    if to < c {
        assert(start.ch_cached[to]);
    } else if c < to {
        assert(start.ch_cached[c]);
    }
}

/// The number of the chapter in a slot of a tick that begins in `start`, where the
/// scan comes to chapter `c`.
pub open spec fn number_of(start: ReaderModel, c: int, slot: Slot) -> int {
    match slot {
        Slot::Next => start.chapter + 1,
        Slot::Previous => start.chapter - 1,
        Slot::Scan => c,
    }
}

/// The chapter in the scan's slot has failed.
pub open spec fn scan_fails<E>(event: BgEvent<E>) -> bool {
    match event {
        BgEvent::Chapter { slot: Slot::Scan, event: ChapterEvent::Truncated(Err(_)) } => true,
        BgEvent::Chapter { slot: Slot::Scan, event: ChapterEvent::Streamed(Err(_)) } => true,
        _ => false,
    }
}

/// Where a tick that caches chapters stands: `event` is what it was told last, and
/// `action` what it asks for.
pub open spec fn stands_at<E>(
    start: ReaderModel,
    c: int,
    now: ReaderModel,
    event: BgEvent<E>,
    action: BgAction<E>,
) -> bool {
    &&& now.spine == start.spine
    &&& now.chapter == start.chapter
    &&& now.ch_cached.len() == start.ch_cached.len()
    &&& now.chapter_sizes.len() == start.chapter_sizes.len()
    &&& match action {
        BgAction::Chapter { slot, action: chapter_action } => {
            &&& now.bg_cache == BgCacheState::CacheChapter
            &&& now.chapters_cached == start.chapters_cached
            &&& now.cache_chapter == c
            &&& chapter_action !is Done
            &&& 0 <= number_of(start, c, slot) < start.spine.len()
        },
        BgAction::Finish(finish_action) => {
            &&& now.bg_cache == BgCacheState::CacheChapter
            &&& now.chapters_cached == start.chapters_cached
            &&& now.cache_chapter == c
            &&& c >= start.spine.len()
            &&& finish_action !is Done
        },
        BgAction::DispatchNearby => {
            &&& now.bg_cache == BgCacheState::CacheChapter
            &&& now.chapters_cached == start.chapters_cached
            &&& now.cache_chapter == c + 1
            &&& c < start.spine.len()
            &&& now.ch_cached[c]
        },
        BgAction::Done => match event {
            BgEvent::NearbyDispatched(sent) => {
                &&& now.chapters_cached == start.chapters_cached
                &&& now.cache_chapter == c + 1
                &&& c < start.spine.len()
                &&& now.ch_cached[c]
                &&& sent ==> now.bg_cache == BgCacheState::WaitNearbyImage
                &&& !sent ==> now.bg_cache == BgCacheState::CacheChapter
            },
            BgEvent::Finish(FinishEvent::Written(written)) => {
                &&& now.chapters_cached <==> written is Ok || start.chapters_cached
                &&& now.cache_chapter == c
                &&& c >= start.spine.len()
                &&& now.bg_cache == BgCacheState::CacheImage
                &&& now.img_cache_ch == start.chapter
                &&& now.img_cache_offset == 0
                &&& !now.img_scan_wrapped
            },
            _ => {
                &&& scan_fails(event)
                &&& now.chapters_cached == start.chapters_cached
                &&& now.cache_chapter == c + 1
                &&& c < start.spine.len()
                &&& now.bg_cache == BgCacheState::CacheChapter
            },
        },
        _ => false,
    }
}

/// Going on to a slot keeps the place.
proof fn lemma_enters_stands<E>(
    start: ReaderModel,
    c: int,
    pre: ReaderModel,
    slot: Slot,
    post: ReaderModel,
    event: BgEvent<E>,
    action: BgAction<E>,
)
    requires
        start.wf(),
        pre.spine == start.spine,
        pre.chapter == start.chapter,
        pre.ch_cached.len() == start.ch_cached.len(),
        pre.chapter_sizes.len() == start.chapter_sizes.len(),
        pre.bg_cache == BgCacheState::CacheChapter,
        pre.chapters_cached == start.chapters_cached,
        pre.cache_chapter == c,
        enters(pre, slot, post, action),
    ensures
        stands_at(start, c, post, event, action),
{
}

/// Each answered step keeps the place.
proof fn lemma_step_stands<E>(
    start: ReaderModel,
    c: int,
    before: ReaderModel,
    heard: BgEvent<E>,
    asked: BgAction<E>,
    pre: ReaderModel,
    event: BgEvent<E>,
    post: ReaderModel,
    action: BgAction<E>,
)
    requires
        start.wf(),
        stands_at(start, c, before, heard, asked),
        carries_over(asked, before, pre),
        answers(asked, event),
        bg_step(pre, event, post, action),
    ensures
        stands_at(start, c, post, event, action),
{
    if let BgEvent::Chapter { slot, event: chapter_event } = event {
        let (mid, chapter_action) = choose|mid: ReaderModel, chapter_action: ChapterAction<E>|
         #[trigger]
            chapter_step(pre, pre.slot_chapter(slot), chapter_event, mid, chapter_action)
                && match chapter_action {
                ChapterAction::Done(result) => leaves(mid, slot, result is Ok, post, action),
                _ => post == mid && action == (BgAction::Chapter { slot, action: chapter_action }),
            };
        if chapter_action is Done && slot != Slot::Scan {
            let onto = if slot == Slot::Next {
                Slot::Previous
            } else {
                Slot::Scan
            };
            lemma_enters_stands(start, c, mid, onto, post, event, action);
        }
    }
}

/// Where a tick that caches chapters comes to, exactly. The scan comes to the first
/// chapter that is not cached. Where there is one, the tick leaves the scan behind
/// it; the chapter is then cached and an image close to the reading position is let
/// in, which the task waits for exactly where one was handed out; or the chapter
/// has failed, and the tick is over without. Where there is none the record is
/// written, the cache is complete if that went well, or was complete before, and
/// the task goes over to images, from the chapter being read on.
pub proof fn law_where_a_chapter_tick_comes_to<E>(run: BgRun<E>, c: int, i: int)
    requires
        run.valid(),
        run.start().bg_cache == BgCacheState::CacheChapter,
        is_first_uncached(run.start(), c),
        0 <= i < run.len(),
    ensures
        stands_at(run.start(), c, run.post[i], run.events[i], run.actions[i]),
    decreases i,
{
    let start = run.start();
    lemma_step(run, i);
    lemma_first_uncached(start, c);
    if i == 0 {
        let mid = ReaderModel { cache_chapter: c as u16, ..start };
        lemma_next_uncached(start.ch_cached, start.cache_chapter as int, start.spine.len() as int);
        lemma_enters_stands(
            start,
            c,
            mid,
            Slot::Next,
            run.post[0],
            run.events[0],
            run.actions[0],
        );
    } else {
        law_where_a_chapter_tick_comes_to(run, c, i - 1);
        lemma_step_stands(
            start,
            c,
            run.post[i - 1],
            run.events[i - 1],
            run.actions[i - 1],
            run.pre[i],
            run.events[i],
            run.post[i],
            run.actions[i],
        );
    }
}

/// What one step changes, going by what it was told.
pub open spec fn changes_only<E>(pre: ReaderModel, event: BgEvent<E>, post: ReaderModel) -> bool {
    match event {
        BgEvent::Tick => post == ReaderModel { cache_chapter: post.cache_chapter, ..pre },
        BgEvent::Chapter { slot: _, event: ChapterEvent::Streamed(Ok(_)) } => post == ReaderModel {
            chapter_sizes: post.chapter_sizes,
            ch_cached: post.ch_cached,
            cache_chapter: post.cache_chapter,
            ..pre
        },
        BgEvent::Chapter { slot: _, event: _ } => post == ReaderModel {
            cache_chapter: post.cache_chapter,
            ..pre
        },
        BgEvent::Finish(FinishEvent::Written(_)) => post == ReaderModel {
            chapters_cached: post.chapters_cached,
            bg_cache: post.bg_cache,
            img_cache_ch: post.img_cache_ch,
            img_cache_offset: post.img_cache_offset,
            img_scan_wrapped: post.img_scan_wrapped,
            ..pre
        },
        BgEvent::Finish(_) => post == pre,
        _ => post == ReaderModel { bg_cache: post.bg_cache, ..pre },
    }
}

/// No step of a tick changes more than it was told of: the tables change where a
/// chapter was streamed, the place in the search for images and whether the cache
/// is complete where the record was written, the state of the task with an image
/// or the record, and the scan with a chapter or at the beginning.
pub proof fn law_step_changes_only_what_it_is_told<E>(run: BgRun<E>, i: int)
    requires
        run.valid(),
        0 <= i < run.len(),
    ensures
        changes_only(run.pre[i], run.events[i], run.post[i]),
{
    lemma_step(run, i);
}

/// What a tick that caches chapters asks for, in terms of the book: `text` is the
/// name of the archive, and `c` the chapter to which the scan comes. Each chapter
/// that is emptied or streamed is the one after that being read, the one before
/// it, or the one of the scan; it goes to the file with its number in the cache
/// directory, from the entry that the book has in its place. The record holds the
/// sizes of all chapters as they are then, and what it was encoded to is written,
/// whole, to the same directory.
pub proof fn law_what_a_chapter_tick_asks_for<E>(run: BgRun<E>, c: int, text: Seq<char>, i: int)
    requires
        run.valid(),
        run.start().bg_cache == BgCacheState::CacheChapter,
        is_first_uncached(run.start(), c),
        reads_as(run.start().name, text),
        0 <= i < run.len(),
    ensures
        ({
            let start = run.start();
            match run.actions[i] {
                BgAction::Chapter { slot, action } => {
                    let ch = number_of(start, c, slot);
                    &&& 0 <= ch < start.spine.len()
                    &&& !run.post[i].ch_cached[ch]
                    &&& match action {
                        ChapterAction::Truncate { dir, ch: number, entry } => dir@
                            == start.cache_dir && number == ch && entry == start.spine[ch],
                        ChapterAction::Stream { name, dir, ch: number, entry } => name@ == text
                            && dir@ == start.cache_dir && number == ch && entry
                            == start.spine[ch] && (run.events[i] matches BgEvent::Chapter {
                            slot: of,
                            event: ChapterEvent::Truncated(Ok(_)),
                        } && of == slot),
                        ChapterAction::Done(_) => false,
                    }
                },
                BgAction::Finish(FinishAction::Encode { archive_size, name_hash, sizes }) => {
                    &&& archive_size == start.archive_size
                    &&& name_hash == start.name_hash
                    &&& sizes@.len() == start.spine.len()
                    &&& forall|k: int|
                        0 <= k < start.spine.len() ==> #[trigger] sizes@[k]
                            == run.post[i].chapter_sizes[k]
                },
                BgAction::Finish(FinishAction::Write { dir, data }) => {
                    &&& dir@ == start.cache_dir
                    &&& run.events[i] matches BgEvent::Finish(FinishEvent::Encoded(record))
                    &&& data@ == record@
                },
                _ => true,
            }
        }),
{
    let start = run.start();
    lemma_step(run, i);
    lemma_first_uncached(start, c);
    law_where_a_chapter_tick_comes_to(run, c, i);
    law_only_chapters_in_turn_are_touched(run, i);
    law_file_goes_by_its_name(start, text);
    lemma_kept_until_done(run, c, i);
}

/// Until a tick is over, and before an image helper has its turn, nothing has
/// changed beyond the tables, the scan and the place in the search for images.
proof fn lemma_kept_until_done<E>(run: BgRun<E>, c: int, i: int)
    requires
        run.valid(),
        run.start().bg_cache == BgCacheState::CacheChapter,
        is_first_uncached(run.start(), c),
        0 <= i < run.len(),
    ensures
        run.actions[i] !is Done ==> same_but_cache(run.start(), run.post[i]),
    decreases i,
{
    lemma_step(run, i);
    law_step_changes_only_what_it_is_told(run, i);
    law_where_a_chapter_tick_comes_to(run, c, i);
    if i > 0 {
        lemma_kept_until_done(run, c, i - 1);
        law_where_a_chapter_tick_comes_to(run, c, i - 1);
    }
}

/// A step leaves the size of a chapter that is cached alone.
proof fn lemma_size_stays<E>(run: BgRun<E>, c: int, i: int, k: int)
    requires
        run.valid(),
        run.start().bg_cache == BgCacheState::CacheChapter,
        is_first_uncached(run.start(), c),
        0 <= i < run.len(),
        0 <= k < run.start().spine.len(),
        run.pre[i].ch_cached[k],
    ensures
        run.post[i].ch_cached[k],
        run.post[i].chapter_sizes[k] == run.pre[i].chapter_sizes[k],
{
    lemma_step(run, i);
    law_step_changes_only_what_it_is_told(run, i);
    if i > 0 {
        law_where_a_chapter_tick_comes_to(run, c, i - 1);
        lemma_first_uncached(run.start(), c);
        law_only_chapters_in_turn_are_touched(run, i - 1);
        if let BgEvent::Chapter { slot, event: chapter_event } = run.events[i] {
            let (mid, chapter_action) = choose|
                mid: ReaderModel,
                chapter_action: ChapterAction<E>,
            | #[trigger]
                chapter_step(
                    run.pre[i],
                    run.pre[i].slot_chapter(slot),
                    chapter_event,
                    mid,
                    chapter_action,
                ) && match chapter_action {
                    ChapterAction::Done(result) => leaves(
                        mid,
                        slot,
                        result is Ok,
                        run.post[i],
                        run.actions[i],
                    ),
                    _ => run.post[i] == mid && run.actions[i] == (BgAction::Chapter {
                        slot,
                        action: chapter_action,
                    }),
                };
            assert(run.pre[i].slot_chapter(slot) != k);
        }
    }
}

/// A chapter that is cached in step `i` keeps its size to the end.
proof fn lemma_size_stays_to_the_end<E>(run: BgRun<E>, c: int, i: int, k: int)
    requires
        run.valid(),
        run.start().bg_cache == BgCacheState::CacheChapter,
        is_first_uncached(run.start(), c),
        0 <= i < run.len(),
        0 <= k < run.start().spine.len(),
        run.post[i].ch_cached[k],
    ensures
        run.end().ch_cached[k],
        run.end().chapter_sizes[k] == run.post[i].chapter_sizes[k],
    decreases run.len() - i,
{
    if i < run.len() - 1 {
        lemma_step(run, i + 1);
        lemma_size_stays(run, c, i + 1, k);
        lemma_size_stays_to_the_end(run, c, i + 1, k);
    }
}

/// What was streamed is kept: a chapter that was streamed in a tick is cached at
/// the end of it, with the size that the stream reported.
pub proof fn law_streamed_size_is_kept<E>(run: BgRun<E>, c: int, i: int, slot: Slot, size: u32)
    requires
        run.valid(),
        run.start().bg_cache == BgCacheState::CacheChapter,
        is_first_uncached(run.start(), c),
        0 <= i < run.len(),
        run.events[i] == (BgEvent::<E>::Chapter { slot, event: ChapterEvent::Streamed(Ok(size)) }),
    ensures
        ({
            let ch = number_of(run.start(), c, slot);
            &&& 0 <= ch < run.start().spine.len()
            &&& run.end().ch_cached[ch]
            &&& run.end().chapter_sizes[ch] == size
        }),
{
    let start = run.start();
    let ch = number_of(start, c, slot);
    lemma_step(run, i);
    lemma_step(run, 0);
    lemma_first_uncached(start, c);
    assert(i > 0);
    law_where_a_chapter_tick_comes_to(run, c, i - 1);
    law_only_chapters_in_turn_are_touched(run, i - 1);
    assert(run.post[i].ch_cached[ch] && run.post[i].chapter_sizes[ch] == size);
    lemma_size_stays_to_the_end(run, c, i, ch);
}

/// A chapter that was cached before a tick has the size that it had.
pub proof fn law_size_of_a_cached_chapter_stays<E>(run: BgRun<E>, c: int, k: int)
    requires
        run.valid(),
        run.start().bg_cache == BgCacheState::CacheChapter,
        is_first_uncached(run.start(), c),
        0 <= k < run.start().spine.len(),
        run.start().ch_cached[k],
    ensures
        run.end().ch_cached[k],
        run.end().chapter_sizes[k] == run.start().chapter_sizes[k],
{
    lemma_size_stays(run, c, 0, k);
    lemma_size_stays_to_the_end(run, c, 0, k);
}

} // verus!
