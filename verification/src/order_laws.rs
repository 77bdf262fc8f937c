//! Which chapters a tick of the background task tries, and in which order.
use vstd::prelude::*;
use crate::background::{
    bg_step, enters, leaves, lemma_next_uncached, next_uncached, BgAction, BgEvent, Slot,
};
use crate::background_laws::{
    answers, answers_left, carries_over, law_answer_brings_end_closer, lemma_prefix_valid,
    lemma_shorter_valid, same_but_images, BgRun,
};
use crate::chapter::{chapter_step, ChapterAction, ChapterEvent};
use crate::reader::{BgCacheState, ReaderModel};

verus! {

impl ReaderModel {
    /// The chapter whose turn comes in `slot` of a tick that begins in this
    /// state: the neighbours of the chapter being read, then the first chapter
    /// from the scan on that is not cached.
    pub open spec fn turn(self, slot: Slot) -> int {
        match slot {
            Slot::Scan => next_uncached(
                self.ch_cached,
                self.cache_chapter as int,
                self.spine.len() as int,
            ),
            _ => self.slot_chapter(slot),
        }
    }
}

/// The chapter in `slot` is tried: its cache file is to be emptied.
pub open spec fn tries<E>(action: BgAction<E>, slot: Slot) -> bool {
    action matches BgAction::Chapter {
        slot: of,
        action: ChapterAction::Truncate { dir: _, ch: _, entry: _ },
    } && of == slot
}

/// The chapter in `slot` has been streamed.
pub open spec fn succeeds<E>(event: BgEvent<E>, slot: Slot) -> bool {
    event matches BgEvent::Chapter { slot: of, event: ChapterEvent::Streamed(Ok(_)) } && of == slot
}

/// The place of a slot in a tick.
pub open spec fn place(slot: Slot) -> int {
    match slot {
        Slot::Next => 0,
        Slot::Previous => 1,
        Slot::Scan => 2,
    }
}

impl<E> BgRun<E> {
    /// The chapter in `slot` has been tried in one of the first `n` steps.
    pub open spec fn tried(self, n: int, slot: Slot) -> bool {
        exists|j: int| 0 <= j < n && tries(#[trigger] self.actions[j], slot)
    }

    /// The chapter in `slot` has been streamed in one of the first `n` steps.
    pub open spec fn succeeded(self, n: int, slot: Slot) -> bool {
        exists|j: int| 0 <= j < n && succeeds(#[trigger] self.events[j], slot)
    }

    /// Chapter `ch` has been streamed in one of the first `n` steps.
    pub open spec fn made(self, n: int, ch: int) -> bool {
        ||| self.succeeded(n, Slot::Next) && ch == self.start().turn(Slot::Next)
        ||| self.succeeded(n, Slot::Previous) && ch == self.start().turn(Slot::Previous)
        ||| self.succeeded(n, Slot::Scan) && ch == self.start().turn(Slot::Scan)
    }
}

/// What has happened to one slot.
struct Turn {
    tried: bool,
    ok: bool,
}

/// What has happened to the three slots.
struct Turns {
    next: Turn,
    previous: Turn,
    scan: Turn,
}

spec fn turn_of<E>(run: BgRun<E>, slot: Slot) -> Turn {
    Turn { tried: run.tried(run.len() as int, slot), ok: run.succeeded(run.len() as int, slot) }
}

spec fn turns_of<E>(run: BgRun<E>) -> Turns {
    Turns {
        next: turn_of(run, Slot::Next),
        previous: turn_of(run, Slot::Previous),
        scan: turn_of(run, Slot::Scan),
    }
}

/// One slot after one more step.
spec fn turn_after<E>(turn: Turn, slot: Slot, event: BgEvent<E>, action: BgAction<E>) -> Turn {
    Turn { tried: turn.tried || tries(action, slot), ok: turn.ok || succeeds(event, slot) }
}

/// The three slots after one more step.
spec fn turns_after<E>(turns: Turns, event: BgEvent<E>, action: BgAction<E>) -> Turns {
    Turns {
        next: turn_after(turns.next, Slot::Next, event, action),
        previous: turn_after(turns.previous, Slot::Previous, event, action),
        scan: turn_after(turns.scan, Slot::Scan, event, action),
    }
}

/// Chapter `ch` has been streamed.
spec fn made_in(start: ReaderModel, turns: Turns, ch: int) -> bool {
    ||| turns.next.ok && ch == start.turn(Slot::Next)
    ||| turns.previous.ok && ch == start.turn(Slot::Previous)
    ||| turns.scan.ok && ch == start.turn(Slot::Scan)
}

/// The chapter at which the scan stands has yet to be cached when its turn
/// comes.
spec fn scan_wanted(start: ReaderModel, turns: Turns) -> bool {
    let ch = start.turn(Slot::Scan);
    &&& ch < start.spine.len()
    &&& !(turns.next.ok && ch == start.turn(Slot::Next))
    &&& !(turns.previous.ok && ch == start.turn(Slot::Previous))
}

/// Nothing has changed beyond the tables, the scan, the state of the task, whether
/// the cache is complete and the place in the search for images.
pub open spec fn same_but_cache(a: ReaderModel, b: ReaderModel) -> bool {
    b == ReaderModel {
        chapter_sizes: b.chapter_sizes,
        ch_cached: b.ch_cached,
        chapters_cached: b.chapters_cached,
        cache_chapter: b.cache_chapter,
        bg_cache: b.bg_cache,
        img_cache_ch: b.img_cache_ch,
        img_cache_offset: b.img_cache_offset,
        img_scan_wrapped: b.img_scan_wrapped,
        ..a
    }
}

/// The action is for the chapter `ch`.
pub open spec fn is_for<E>(pre: ReaderModel, action: ChapterAction<E>, ch: int) -> bool {
    match action {
        ChapterAction::Truncate { dir, ch: number, entry } => {
            &&& dir@ == pre.cache_dir
            &&& number == ch
            &&& entry == pre.spine[ch]
        },
        ChapterAction::Stream { name, dir, ch: number, entry } => {
            &&& name@ == pre.file_name()
            &&& dir@ == pre.cache_dir
            &&& number == ch
            &&& entry == pre.spine[ch]
        },
        ChapterAction::Done(_) => false,
    }
}

/// What the steps so far have made of the two tables.
spec fn tables_inv(start: ReaderModel, now: ReaderModel, turns: Turns) -> bool {
    &&& now.wf()
    &&& now.spine == start.spine
    &&& now.chapter == start.chapter
    &&& now.ch_cached.len() == start.ch_cached.len()
    &&& now.chapter_sizes.len() == start.chapter_sizes.len()
    &&& forall|i: int|
        0 <= i < start.ch_cached.len() ==> #[trigger] now.ch_cached[i] == (start.ch_cached[i]
            || made_in(start, turns, i))
    &&& forall|i: int|
        0 <= i < start.chapter_sizes.len() && !made_in(start, turns, i)
            ==> #[trigger] now.chapter_sizes[i] == start.chapter_sizes[i]
    &&& turns.next.ok ==> turns.next.tried
    &&& turns.previous.ok ==> turns.previous.tried
    &&& turns.scan.ok ==> turns.scan.tried
}

/// The slots that have had their turn before the one in `slot`.
spec fn turns_before(start: ReaderModel, turns: Turns, slot: Slot) -> bool {
    match slot {
        Slot::Next => {
            &&& !turns.next.tried
            &&& !turns.previous.tried
            &&& !turns.scan.tried
        },
        Slot::Previous => {
            &&& turns.next.tried == start.wants(Slot::Next)
            &&& !turns.previous.tried
            &&& !turns.scan.tried
        },
        Slot::Scan => {
            &&& turns.next.tried == start.wants(Slot::Next)
            &&& turns.previous.tried == start.wants(Slot::Previous)
            &&& !turns.scan.tried
        },
    }
}

/// All slots have had their turn.
spec fn turns_over(start: ReaderModel, turns: Turns) -> bool {
    &&& turns.next.tried == start.wants(Slot::Next)
    &&& turns.previous.tried == start.wants(Slot::Previous)
    &&& turns.scan.tried == scan_wanted(start, turns)
}

/// What holds after each step of a tick that caches chapters.
spec fn order_inv<E>(
    start: ReaderModel,
    now: ReaderModel,
    action: BgAction<E>,
    turns: Turns,
) -> bool {
    &&& tables_inv(start, now, turns)
    &&& action !is Done ==> same_but_cache(start, now)
    &&& match action {
        BgAction::Chapter { slot, action: chapter_action } => {
            let ch = start.turn(slot);
            &&& now.cache_chapter == start.turn(Slot::Scan)
            &&& ch < start.spine.len()
            &&& !now.ch_cached[ch]
            &&& is_for(start, chapter_action, ch)
            &&& match slot {
                Slot::Next => turns.next == (Turn { tried: true, ok: false }) && turns_before(
                    start,
                    Turns { next: Turn { tried: false, ok: false }, ..turns },
                    Slot::Next,
                ) && start.wants(Slot::Next),
                Slot::Previous => turns.previous == (Turn { tried: true, ok: false })
                    && turns_before(
                    start,
                    Turns { previous: Turn { tried: false, ok: false }, ..turns },
                    Slot::Previous,
                ) && start.wants(Slot::Previous),
                Slot::Scan => turns.scan == (Turn { tried: true, ok: false }) && turns_before(
                    start,
                    Turns { scan: Turn { tried: false, ok: false }, ..turns },
                    Slot::Scan,
                ) && scan_wanted(start, turns),
            }
        },
        BgAction::Finish(_) | BgAction::DispatchNearby | BgAction::Done => turns_over(
            start,
            turns,
        ),
        _ => false,
    }
}

/// Going on to `slot` keeps the invariant, where the slots before it have had
/// their turn.
proof fn lemma_enters_order<E>(
    start: ReaderModel,
    pre: ReaderModel,
    slot: Slot,
    post: ReaderModel,
    action: BgAction<E>,
    turns: Turns,
)
    requires
        start.wf(),
        tables_inv(start, pre, turns),
        same_but_cache(start, pre),
        pre.cache_chapter == start.turn(Slot::Scan),
        turns_before(start, turns, slot),
        enters(pre, slot, post, action),
    ensures
        order_inv(start, post, action, turns_after(turns, BgEvent::Tick, action)),
{
    lemma_next_uncached(start.ch_cached, start.cache_chapter as int, start.spine.len() as int);
    let after = turns_after(turns, BgEvent::Tick, action);
    assert forall|i: int| 0 <= i < start.ch_cached.len() implies #[trigger] post.ch_cached[i] == (
    start.ch_cached[i] || made_in(start, after, i)) by {
        assert(pre.ch_cached[i] == (start.ch_cached[i] || made_in(start, turns, i)));
    }
    assert(pre.wants(Slot::Next) == (start.wants(Slot::Next) && !turns.next.ok)) by {
        let ch = start.turn(Slot::Next);
        if ch < start.spine.len() {
            assert(pre.ch_cached[ch] == (start.ch_cached[ch] || made_in(start, turns, ch)));
        }
    }
    assert(pre.wants(Slot::Previous) == (start.wants(Slot::Previous) && !turns.previous.ok)) by {
        let ch = start.turn(Slot::Previous);
        if ch < start.spine.len() {
            assert(pre.ch_cached[ch] == (start.ch_cached[ch] || made_in(start, turns, ch)));
        }
    }
    let ch = start.turn(Slot::Scan);
    if ch < start.spine.len() {
        assert(pre.ch_cached[ch] == (start.ch_cached[ch] || made_in(start, turns, ch)));
    }
}

/// Before a tick nothing has happened to the slots.
spec fn no_turns() -> Turns {
    let none = Turn { tried: false, ok: false };
    Turns { next: none, previous: none, scan: none }
}

/// The first step of a tick that caches chapters establishes the invariant.
proof fn lemma_order_begins<E>(pre: ReaderModel, post: ReaderModel, action: BgAction<E>)
    requires
        pre.wf(),
        pre.bg_cache == BgCacheState::CacheChapter,
        bg_step(pre, BgEvent::Tick, post, action),
    ensures
        order_inv(pre, post, action, turns_after(no_turns(), BgEvent::Tick, action)),
{
    lemma_next_uncached(pre.ch_cached, pre.cache_chapter as int, pre.spine.len() as int);
    let mid = ReaderModel { cache_chapter: pre.turn(Slot::Scan) as u16, ..pre };
    lemma_enters_order(pre, mid, Slot::Next, post, action, no_turns());
}

/// Each answered step keeps the invariant.
proof fn lemma_order_steps<E>(
    start: ReaderModel,
    before: ReaderModel,
    asked: BgAction<E>,
    pre: ReaderModel,
    event: BgEvent<E>,
    post: ReaderModel,
    action: BgAction<E>,
    turns: Turns,
)
    requires
        start.wf(),
        order_inv(start, before, asked, turns),
        carries_over(asked, before, pre),
        answers(asked, event),
        bg_step(pre, event, post, action),
    ensures
        order_inv(start, post, action, turns_after(turns, event, action)),
{
    match event {
        BgEvent::Chapter { slot, event: chapter_event } => {
            let (mid, chapter_action) = choose|mid: ReaderModel, chapter_action: ChapterAction<E>|
             #[trigger]
                chapter_step(pre, pre.slot_chapter(slot), chapter_event, mid, chapter_action)
                    && match chapter_action {
                    ChapterAction::Done(result) => leaves(mid, slot, result is Ok, post, action),
                    _ => post == mid && action == (BgAction::Chapter {
                        slot,
                        action: chapter_action,
                    }),
                };
            let ch = start.turn(slot);
            assert(pre.slot_chapter(slot) == ch);
            // what the event alone makes of the slots
            let heard = turns_after(turns, event, BgAction::<E>::Done);
            assert(tables_inv(start, mid, heard)) by {
                assert forall|i: int| 0 <= i < start.ch_cached.len() implies #[trigger]
                    mid.ch_cached[i] == (start.ch_cached[i] || made_in(start, heard, i)) by {
                    assert(before.ch_cached[i] == (start.ch_cached[i] || made_in(
                        start,
                        turns,
                        i,
                    )));
                }
                assert forall|i: int|
                    0 <= i < start.chapter_sizes.len() && !made_in(
                        start,
                        heard,
                        i,
                    ) implies #[trigger] mid.chapter_sizes[i] == start.chapter_sizes[i] by {
                    assert(before.chapter_sizes[i] == start.chapter_sizes[i]);
                }
            }
            if chapter_action is Done && slot != Slot::Scan {
                let onto = if slot == Slot::Next {
                    Slot::Previous
                } else {
                    Slot::Scan
                };
                lemma_enters_order(start, mid, onto, post, action, heard);
                assert(turns_after(heard, BgEvent::Tick, action) == turns_after(
                    turns,
                    event,
                    action,
                ));
            } else {
                assert(turns_after(turns, event, action) == heard);
                assert(post.ch_cached == mid.ch_cached);
                assert(post.chapter_sizes == mid.chapter_sizes);
            }
        },
        _ => {
            assert(turns_after(turns, event, action) == turns);
            assert(post.ch_cached == before.ch_cached);
            assert(post.chapter_sizes == before.chapter_sizes);
        },
    }
}

/// What has happened to the slots of a run follows from what had happened before
/// its last step.
proof fn lemma_turns<E>(run: BgRun<E>, slot: Slot)
    requires
        run.valid(),
    ensures
        turn_of(run, slot) == turn_after(
            if run.len() == 1 {
                Turn { tried: false, ok: false }
            } else {
                turn_of(run.shorter(), slot)
            },
            slot,
            run.events.last(),
            run.actions.last(),
        ),
{
    let n = run.len() as int;
    let short = run.shorter();
    if tries(run.actions[n - 1], slot) {
        assert(run.tried(n, slot));
    }
    if succeeds(run.events[n - 1], slot) {
        assert(run.succeeded(n, slot));
    }
    if run.tried(n, slot) {
        let j = choose|j: int| 0 <= j < n && tries(#[trigger] run.actions[j], slot);
        if j < n - 1 {
            assert(tries(short.actions[j], slot));
        }
    }
    if run.succeeded(n, slot) {
        let j = choose|j: int| 0 <= j < n && succeeds(#[trigger] run.events[j], slot);
        if j < n - 1 {
            assert(succeeds(short.events[j], slot));
        }
    }
    if n > 1 {
        if short.tried(n - 1, slot) {
            let j = choose|j: int| 0 <= j < n - 1 && tries(#[trigger] short.actions[j], slot);
            assert(tries(run.actions[j], slot));
        }
        if short.succeeded(n - 1, slot) {
            let j = choose|j: int| 0 <= j < n - 1 && succeeds(#[trigger] short.events[j], slot);
            assert(succeeds(run.events[j], slot));
        }
    }
}

/// The invariant holds at the end of every tick that caches chapters.
proof fn lemma_order_inv<E>(run: BgRun<E>)
    requires
        run.valid(),
        run.start().bg_cache == BgCacheState::CacheChapter,
    ensures
        order_inv(run.start(), run.end(), run.actions.last(), turns_of(run)),
    decreases run.len(),
{
    let n = run.len() as int;
    assert(bg_step(run.pre[n - 1], run.events[n - 1], run.post[n - 1], run.actions[n - 1]));
    lemma_turns(run, Slot::Next);
    lemma_turns(run, Slot::Previous);
    lemma_turns(run, Slot::Scan);
    if n == 1 {
        lemma_order_begins(run.pre[0], run.post[0], run.actions[0]);
    } else {
        lemma_shorter_valid(run);
        lemma_order_inv(run.shorter());
        assert(answers(run.actions[n - 1 - 1], run.events[n - 1]));
        lemma_order_steps(
            run.start(),
            run.post[n - 2],
            run.actions[n - 2],
            run.pre[n - 1],
            run.events[n - 1],
            run.post[n - 1],
            run.actions[n - 1],
            turns_of(run.shorter()),
        );
    }
}

/// Later actions of a tick leave fewer answers to come.
proof fn lemma_answers_run_out<E>(run: BgRun<E>, i: int, j: int)
    requires
        run.valid(),
        0 <= i < j < run.len(),
    ensures
        answers_left(run.actions[j]) < answers_left(run.actions[i]),
    decreases j - i,
{
    assert(answers(run.actions[j - 1], run.events[j]));
    assert(bg_step(run.pre[j], run.events[j], run.post[j], run.actions[j]));
    law_answer_brings_end_closer(
        run.actions[j - 1],
        run.pre[j],
        run.events[j],
        run.post[j],
        run.actions[j],
    );
    if i < j - 1 {
        lemma_answers_run_out(run, i, j - 1);
    }
}

/// The chapters that a tick tries come in the order of their slots: the chapter
/// after the one being read, the one before it, the one at which the scan stands.
/// Each slot comes at most once.
pub proof fn law_slots_come_in_order<E>(run: BgRun<E>, i: int, a: Slot, j: int, b: Slot)
    requires
        run.valid(),
        0 <= i < j < run.len(),
        tries(run.actions[i], a),
        tries(run.actions[j], b),
    ensures
        place(a) < place(b),
{
    lemma_answers_run_out(run, i, j);
}

/// No file is written but that of the chapter whose turn it is, in the book's
/// cache directory and from the archive entry of that chapter; and that chapter
/// is in the book, is not the one before the first, and is not yet cached.
pub proof fn law_only_chapters_in_turn_are_touched<E>(run: BgRun<E>, i: int)
    requires
        run.valid(),
        run.start().bg_cache == BgCacheState::CacheChapter,
        0 <= i < run.len(),
    ensures
        run.actions[i] matches BgAction::Chapter { slot, action } ==> {
            let ch = run.start().turn(slot);
            &&& is_for(run.start(), action, ch)
            &&& ch < run.start().spine.len()
            &&& !run.post[i].ch_cached[ch]
            &&& slot == Slot::Previous ==> run.start().chapter > 0
        },
{
    let part = lemma_prefix_valid(run, i + 1);
    lemma_order_inv(part);
}

/// Every chapter whose turn comes is tried, if it is in the book and not yet
/// cached when its turn comes, and no other: the one after the chapter being
/// read; the one before it, unless that is the first; and the first from the scan
/// on that is not cached, unless the tick has just cached it as a neighbour. That
/// a neighbour fails stops none of this.
pub proof fn law_every_turn_is_taken<E>(run: BgRun<E>)
    requires
        run.complete(),
        run.start().bg_cache == BgCacheState::CacheChapter,
    ensures
        ({
            let n = run.len() as int;
            let start = run.start();
            let next = start.chapter + 1;
            let previous = start.chapter - 1;
            let scan = start.turn(Slot::Scan);
            &&& run.tried(n, Slot::Next) <==> next < start.spine.len() && !start.ch_cached[next]
            &&& run.tried(n, Slot::Previous) <==> 0 <= previous < start.spine.len()
                && !start.ch_cached[previous]
            &&& run.tried(n, Slot::Scan) <==> {
                &&& scan < start.spine.len()
                &&& !(scan == next && run.succeeded(n, Slot::Next))
                &&& !(scan == previous && run.succeeded(n, Slot::Previous))
            }
        }),
{
    lemma_order_inv(run);
}

/// A tick that caches chapters changes the tables only for the chapters that it
/// has streamed, which it has tried before, and never from cached to not cached;
/// the book and the chapter being read stay the same. Beyond the tables, the scan,
/// the state of the task, whether the cache is complete and the place in the search
/// for images no step changes anything.
pub proof fn law_only_streamed_chapters_change<E>(run: BgRun<E>)
    requires
        run.valid(),
        run.start().bg_cache == BgCacheState::CacheChapter,
    ensures
        run.end().spine == run.start().spine,
        run.end().chapter == run.start().chapter,
        forall|i: int|
            0 <= i < run.len() ==> same_but_cache(#[trigger] run.pre[i], run.post[i]),
        run.end().ch_cached.len() == run.start().ch_cached.len(),
        run.end().chapter_sizes.len() == run.start().chapter_sizes.len(),
        forall|i: int|
            0 <= i < run.start().ch_cached.len() ==> #[trigger] run.end().ch_cached[i] == (
            run.start().ch_cached[i] || run.made(run.len() as int, i)),
        forall|i: int|
            0 <= i < run.start().chapter_sizes.len() && !run.made(run.len() as int, i)
                ==> #[trigger] run.end().chapter_sizes[i] == run.start().chapter_sizes[i],
        forall|slot: Slot| #[trigger]
            run.succeeded(run.len() as int, slot) ==> run.tried(run.len() as int, slot),
{
    lemma_order_inv(run);
    let n = run.len() as int;
    let turns = turns_of(run);
    assert forall|i: int| 0 <= i < n implies same_but_cache(
        #[trigger] run.pre[i],
        run.post[i],
    ) by {
        assert(bg_step(run.pre[i], run.events[i], run.post[i], run.actions[i]));
    }
    assert forall|i: int| 0 <= i < run.start().ch_cached.len() implies #[trigger]
        run.end().ch_cached[i] == (run.start().ch_cached[i] || run.made(n, i)) by {
        assert(run.made(n, i) == made_in(run.start(), turns, i));
    }
    assert forall|i: int|
        0 <= i < run.start().chapter_sizes.len() && !run.made(n, i) implies #[trigger]
        run.end().chapter_sizes[i] == run.start().chapter_sizes[i] by {
        assert(run.made(n, i) == made_in(run.start(), turns, i));
    }
    assert forall|slot: Slot| #[trigger] run.succeeded(n, slot) implies run.tried(n, slot) by {
        match slot {
            Slot::Next => assert(turns.next.ok ==> turns.next.tried),
            Slot::Previous => assert(turns.previous.ok ==> turns.previous.tried),
            Slot::Scan => assert(turns.scan.ok ==> turns.scan.tried),
        }
    }
}

/// Where the caller, too, changes nothing but the place in the search for images,
/// a whole tick changes nothing beyond the tables, the scan, the state of the task,
/// whether the cache is complete and that place.
pub proof fn law_tick_keeps_the_rest<E>(run: BgRun<E>)
    requires
        run.valid(),
        forall|i: int|
            0 < i < run.len() ==> same_but_images(run.post[i - 1], #[trigger] run.pre[i]),
    ensures
        same_but_cache(run.start(), run.end()),
    decreases run.len(),
{
    let n = run.len() as int;
    assert(bg_step(run.pre[n - 1], run.events[n - 1], run.post[n - 1], run.actions[n - 1]));
    if n > 1 {
        let short = run.shorter();
        lemma_shorter_valid(run);
        assert forall|i: int| 0 < i < short.len() implies same_but_images(
            short.post[i - 1],
            #[trigger] short.pre[i],
        ) by {
            assert(same_but_images(run.post[i - 1], run.pre[i]));
        }
        law_tick_keeps_the_rest(short);
        assert(same_but_images(run.post[n - 2], run.pre[n - 1]));
    }
}

} // verus!
