//! The background task: one tick per call of the scheduler. It caches the
//! chapters next to the reading position first, then the rest in order, lets
//! images close to the reading position in between, and looks for the remaining
//! images once every chapter has had its turn.
use vstd::prelude::*;
use crate::chapter::{chapter_step, ChapterAction, ChapterEvent};
use crate::reader::{BgCacheState, ReaderApp, ReaderModel};
use crate::record::{finish_event_fits, finish_step, FinishAction, FinishEvent};

verus! {

/// The three chapters that one tick may cache, in the order of their turns.
#[derive(Clone, Copy, Debug, PartialEq, Eq, Structural)]
pub enum Slot {
    /// The chapter after the one being read.
    Next,
    /// The chapter before the one being read.
    Previous,
    /// The chapter at which the sequential scan stands.
    Scan,
}

/// What the image worker had to say.
#[derive(Clone, Copy, Debug, PartialEq, Eq, Structural)]
pub enum Received {
    /// An image has been decoded.
    Image,
    /// Nothing yet.
    Nothing,
    /// The image failed.
    Failed,
}

/// What a search for an image came to.
#[derive(Clone, Copy, Debug, PartialEq, Eq, Structural)]
pub enum Found {
    /// An image was found, and handed to the worker or decoded on the spot.
    Image,
    /// No image is left.
    Nothing,
    /// The image failed.
    Failed,
}

/// What has happened to the background task.
#[derive(Debug, PartialEq, Eq)]
pub enum BgEvent<E> {
    /// A tick begins.
    Tick,
    /// Something has happened to the chapter in that slot.
    Chapter { slot: Slot, event: ChapterEvent<E> },
    /// Something has happened to the cache record.
    Finish(FinishEvent<E>),
    /// The outcome of [`BgAction::DispatchNearby`]: whether an image went out.
    NearbyDispatched(bool),
    /// The outcome of [`BgAction::ReceiveNearby`].
    NearbyReceived(Received),
    /// The outcome of [`BgAction::DispatchNextNearby`]: whether an image went
    /// out.
    NextNearbyDispatched(bool),
    /// The outcome of [`BgAction::FindImage`].
    ImageFound(Found),
    /// The outcome of [`BgAction::AskWorker`]: whether the worker is idle.
    WorkerIdle(bool),
    /// The outcome of [`BgAction::ReceiveImage`].
    ImageReceived(Received),
}

/// What the background task wants done.
#[derive(Debug, PartialEq, Eq)]
pub enum BgAction<E> {
    /// Do this for the chapter in that slot.
    Chapter { slot: Slot, action: ChapterAction<E> },
    /// Do this for the cache record.
    Finish(FinishAction<E>),
    /// A chapter is cached: hand an image close to the reading position to the
    /// worker, if there is one.
    DispatchNearby,
    /// Ask the worker for the image close to the reading position.
    ReceiveNearby,
    /// That image is there: hand out another one, if there is one.
    DispatchNextNearby,
    /// Look for the next image of the book and see to it.
    FindImage,
    /// Find out whether the worker is idle.
    AskWorker,
    /// Ask the worker for the image that it was given.
    ReceiveImage,
    /// The tick is over.
    Done,
}

/// The first place at or after `from` that is not cached, or `len`, or `from`
/// where that lies beyond `len`.
pub open spec fn next_uncached(cached: Seq<bool>, from: int, len: int) -> int
    decreases len - from,
{
    if from < len && cached[from] {
        next_uncached(cached, from + 1, len)
    } else {
        from
    }
}

impl ReaderModel {
    /// The number of the chapter in a slot. The first chapter counts as its own
    /// predecessor.
    pub open spec fn slot_chapter(self, slot: Slot) -> int {
        match slot {
            Slot::Next => self.chapter + 1,
            Slot::Previous => if self.chapter == 0 {
                0
            } else {
                self.chapter - 1
            },
            Slot::Scan => self.cache_chapter as int,
        }
    }

    /// The chapter in `slot` is a neighbour of the one being read that still
    /// has to be cached.
    pub open spec fn wants(self, slot: Slot) -> bool {
        let ch = self.slot_chapter(slot);
        ch < self.spine.len() && ch != self.chapter && !self.ch_cached[ch]
    }
}

/// The chapter in `slot` is begun.
pub open spec fn begins_chapter<E>(
    pre: ReaderModel,
    slot: Slot,
    post: ReaderModel,
    action: BgAction<E>,
) -> bool {
    &&& action matches BgAction::Chapter { slot: in_slot, action: chapter_action }
    &&& in_slot == slot
    &&& chapter_step(pre, pre.slot_chapter(slot), ChapterEvent::Begin, post, chapter_action)
}

/// A tick goes on to the sequential scan: it writes the record once the scan has
/// passed the last chapter, steps over a chapter that is cached, and caches one
/// that is not.
pub open spec fn enters_scan<E>(pre: ReaderModel, post: ReaderModel, action: BgAction<E>) -> bool {
    if pre.cache_chapter >= pre.spine.len() {
        &&& action matches BgAction::Finish(finish_action)
        &&& finish_step(pre, FinishEvent::Begin, post, finish_action)
    } else if pre.ch_cached[pre.cache_chapter as int] {
        &&& post == ReaderModel { cache_chapter: (pre.cache_chapter + 1) as u16, ..pre }
        &&& action == BgAction::<E>::DispatchNearby
    } else {
        begins_chapter(pre, Slot::Scan, post, action)
    }
}

/// A tick goes on to the chapter in `slot`. A neighbour that needs no caching is
/// passed over.
pub open spec fn enters<E>(
    pre: ReaderModel,
    slot: Slot,
    post: ReaderModel,
    action: BgAction<E>,
) -> bool {
    if slot == Slot::Next && pre.wants(Slot::Next) {
        begins_chapter(pre, Slot::Next, post, action)
    } else if slot != Slot::Scan && pre.wants(Slot::Previous) {
        begins_chapter(pre, Slot::Previous, post, action)
    } else {
        enters_scan(pre, post, action)
    }
}

/// A tick goes on after the chapter in `slot` has ended, well or not. A failure
/// costs a chapter its turn and nothing else.
pub open spec fn leaves<E>(
    pre: ReaderModel,
    slot: Slot,
    ok: bool,
    post: ReaderModel,
    action: BgAction<E>,
) -> bool {
    match slot {
        Slot::Next => enters(pre, Slot::Previous, post, action),
        Slot::Previous => enters(pre, Slot::Scan, post, action),
        Slot::Scan => {
            &&& post == ReaderModel { cache_chapter: (pre.cache_chapter + 1) as u16, ..pre }
            &&& action == if ok {
                BgAction::<E>::DispatchNearby
            } else {
                BgAction::<E>::Done
            }
        },
    }
}

/// What a [`BgEvent`] must meet: chapters are cached in a well-formed state, and
/// a chapter to which something happened is in the book. Images ask for nothing.
pub open spec fn bg_event_fits<E>(pre: ReaderModel, event: BgEvent<E>) -> bool {
    match event {
        BgEvent::Tick => pre.bg_cache == BgCacheState::CacheChapter ==> pre.wf(),
        BgEvent::Chapter { slot, event: _ } => pre.wf() && pre.slot_chapter(slot)
            < pre.spine.len(),
        BgEvent::Finish(finish_event) => finish_event_fits(pre, finish_event),
        _ => true,
    }
}

/// One step of the background task.
pub open spec fn bg_step<E>(
    pre: ReaderModel,
    event: BgEvent<E>,
    post: ReaderModel,
    action: BgAction<E>,
) -> bool {
    match event {
        BgEvent::Tick => match pre.bg_cache {
            BgCacheState::CacheChapter => enters(
                ReaderModel {
                    cache_chapter: next_uncached(
                        pre.ch_cached,
                        pre.cache_chapter as int,
                        pre.spine.len() as int,
                    ) as u16,
                    ..pre
                },
                Slot::Next,
                post,
                action,
            ),
            BgCacheState::WaitNearbyImage => post == pre && action
                == BgAction::<E>::ReceiveNearby,
            BgCacheState::CacheImage => post == pre && action == BgAction::<E>::FindImage,
            BgCacheState::WaitImage => post == pre && action == BgAction::<E>::ReceiveImage,
            BgCacheState::Idle => post == pre && action == BgAction::<E>::Done,
        },
        BgEvent::Chapter { slot, event: chapter_event } => {
            // The chapter's own step either asks for more or ends it.
            exists|mid: ReaderModel, chapter_action: ChapterAction<E>| #[trigger]
                chapter_step(pre, pre.slot_chapter(slot), chapter_event, mid, chapter_action)
                    && match chapter_action {
                    ChapterAction::Done(result) => leaves(mid, slot, result is Ok, post, action),
                    _ => post == mid && action == (BgAction::Chapter {
                        slot,
                        action: chapter_action,
                    }),
                }
        },
        BgEvent::Finish(finish_event) => {
            exists|mid: ReaderModel, finish_action: FinishAction<E>| #[trigger]
                finish_step(pre, finish_event, mid, finish_action) && match finish_action {
                    // Whether or not the record was written, images come next.
                    FinishAction::Done(_) => post == (ReaderModel {
                        img_cache_ch: mid.chapter,
                        img_cache_offset: 0,
                        img_scan_wrapped: false,
                        bg_cache: BgCacheState::CacheImage,
                        ..mid
                    }) && action == BgAction::<E>::Done,
                    _ => post == mid && action == BgAction::Finish(finish_action),
                }
        },
        BgEvent::NearbyDispatched(sent) => {
            &&& post == if sent {
                ReaderModel { bg_cache: BgCacheState::WaitNearbyImage, ..pre }
            } else {
                pre
            }
            &&& action == BgAction::<E>::Done
        },
        BgEvent::NearbyReceived(received) => match received {
            Received::Image => post == pre && action == BgAction::<E>::DispatchNextNearby,
            Received::Nothing => post == pre && action == BgAction::<E>::Done,
            Received::Failed => post == (ReaderModel {
                bg_cache: BgCacheState::CacheChapter,
                ..pre
            }) && action == BgAction::<E>::Done,
        },
        BgEvent::NextNearbyDispatched(sent) => {
            &&& post == if sent {
                pre
            } else {
                ReaderModel { bg_cache: BgCacheState::CacheChapter, ..pre }
            }
            &&& action == BgAction::<E>::Done
        },
        BgEvent::ImageFound(found) => match found {
            Found::Image => post == pre && action == BgAction::<E>::AskWorker,
            Found::Nothing => post == (ReaderModel { bg_cache: BgCacheState::Idle, ..pre })
                && action == BgAction::<E>::Done,
            Found::Failed => post == pre && action == BgAction::<E>::Done,
        },
        BgEvent::WorkerIdle(idle) => {
            &&& post == if idle {
                pre
            } else {
                ReaderModel { bg_cache: BgCacheState::WaitImage, ..pre }
            }
            &&& action == BgAction::<E>::Done
        },
        BgEvent::ImageReceived(received) => {
            &&& post == if received == Received::Nothing {
                pre
            } else {
                ReaderModel { bg_cache: BgCacheState::CacheImage, ..pre }
            }
            &&& action == BgAction::<E>::Done
        },
    }
}

/// Everything before the first uncached place is cached, and that place is not.
pub proof fn lemma_next_uncached(cached: Seq<bool>, from: int, len: int)
    requires
        0 <= from,
        len <= cached.len(),
    ensures
        from <= next_uncached(cached, from, len),
        from <= len ==> next_uncached(cached, from, len) <= len,
        from > len ==> next_uncached(cached, from, len) == from,
        forall|i: int| from <= i < next_uncached(cached, from, len) ==> cached[i],
        next_uncached(cached, from, len) < len ==> !cached[next_uncached(cached, from, len)],
    decreases len - from,
{
    if from < len && cached[from] {
        lemma_next_uncached(cached, from + 1, len);
    }
}

impl ReaderApp {
    /// Runs one tick of the background task, one step per call, starting with
    /// [`BgEvent::Tick`].
    pub fn bg_cache_step<E>(&mut self, event: BgEvent<E>) -> (action: BgAction<E>)
        requires
            bg_event_fits(old(self)@, event),
        ensures
            old(self)@.wf() ==> final(self)@.wf(),
            bg_step(old(self)@, event, final(self)@, action),
    {
        match event {
            BgEvent::Tick => match self.epub.bg_cache {
                BgCacheState::CacheChapter => {
                    self.skip_cached();
                    self.enter_slot(Slot::Next)
                },
                BgCacheState::WaitNearbyImage => BgAction::ReceiveNearby,
                BgCacheState::CacheImage => BgAction::FindImage,
                BgCacheState::WaitImage => BgAction::ReceiveImage,
                BgCacheState::Idle => BgAction::Done,
            },
            BgEvent::Chapter { slot, event } => {
                let ch = self.chapter_in(slot);
                let action = self.epub_cache_chapter_async(ch, event);
                let ghost mid = self@;
                assert(chapter_step(old(self)@, ch as int, event, mid, action));
                match action {
                    ChapterAction::Done(result) => self.leave_slot(slot, result.is_ok()),
                    _ => BgAction::Chapter { slot, action },
                }
            },
            BgEvent::Finish(event) => {
                let action = self.epub_finish_cache(event);
                assert(finish_step(old(self)@, event, self@, action));
                match action {
                    FinishAction::Done(_) => {
                        self.epub.img_cache_ch = self.epub.chapter;
                        self.epub.img_cache_offset = 0;
                        self.epub.img_scan_wrapped = false;
                        self.epub.bg_cache = BgCacheState::CacheImage;
                        BgAction::Done
                    },
                    _ => BgAction::Finish(action),
                }
            },
            BgEvent::NearbyDispatched(sent) => {
                if sent {
                    self.epub.bg_cache = BgCacheState::WaitNearbyImage;
                }
                BgAction::Done
            },
            BgEvent::NearbyReceived(received) => match received {
                Received::Image => BgAction::DispatchNextNearby,
                Received::Nothing => BgAction::Done,
                Received::Failed => {
                    self.epub.bg_cache = BgCacheState::CacheChapter;
                    BgAction::Done
                },
            },
            BgEvent::NextNearbyDispatched(sent) => {
                if !sent {
                    self.epub.bg_cache = BgCacheState::CacheChapter;
                }
                BgAction::Done
            },
            BgEvent::ImageFound(found) => match found {
                Found::Image => BgAction::AskWorker,
                Found::Nothing => {
                    self.epub.bg_cache = BgCacheState::Idle;
                    BgAction::Done
                },
                Found::Failed => BgAction::Done,
            },
            BgEvent::WorkerIdle(idle) => {
                if !idle {
                    self.epub.bg_cache = BgCacheState::WaitImage;
                }
                BgAction::Done
            },
            BgEvent::ImageReceived(received) => {
                if received != Received::Nothing {
                    self.epub.bg_cache = BgCacheState::CacheImage;
                }
                BgAction::Done
            },
        }
    }

    /// Moves the sequential scan past the chapters that are cached.
    fn skip_cached(&mut self)
        requires
            old(self)@.wf(),
        ensures
            final(self)@ == (ReaderModel {
                cache_chapter: next_uncached(
                    old(self)@.ch_cached,
                    old(self)@.cache_chapter as int,
                    old(self)@.spine.len() as int,
                ) as u16,
                ..old(self)@
            }),
            final(self)@.wf(),
    {
        let spine_len = self.epub.spine.len();
        let ghost before = self@;
        while (self.epub.cache_chapter as usize) < spine_len
            && self.epub.ch_cached[self.epub.cache_chapter as usize]
            invariant
                before.wf(),
                spine_len == before.spine.len(),
                self@ == (ReaderModel { cache_chapter: self@.cache_chapter, ..before }),
                next_uncached(before.ch_cached, before.cache_chapter as int, spine_len as int)
                    == next_uncached(
                    before.ch_cached,
                    self@.cache_chapter as int,
                    spine_len as int,
                ),
            decreases spine_len - self.epub.cache_chapter,
        {
            self.epub.cache_chapter = self.epub.cache_chapter + 1;
        }
    }

    /// The number of the chapter in a slot.
    fn chapter_in(&self, slot: Slot) -> (ch: usize)
        ensures
            ch == self@.slot_chapter(slot),
    {
        match slot {
            Slot::Next => self.epub.chapter as usize + 1,
            Slot::Previous => (self.epub.chapter as usize).saturating_sub(1),
            Slot::Scan => self.epub.cache_chapter as usize,
        }
    }

    /// Whether the chapter in `slot` is a neighbour that has to be cached.
    fn is_wanted(&self, slot: Slot) -> (wanted: bool)
        requires
            self@.wf(),
        ensures
            wanted == self@.wants(slot),
    {
        let ch = self.chapter_in(slot);
        ch < self.epub.spine.len() && ch != self.epub.chapter as usize && !self.epub.ch_cached[ch]
    }

    /// Goes on to the chapter in `slot`.
    fn enter_slot<E>(&mut self, slot: Slot) -> (action: BgAction<E>)
        requires
            old(self)@.wf(),
        ensures
            final(self)@.wf(),
            enters(old(self)@, slot, final(self)@, action),
    {
        if slot == Slot::Next && self.is_wanted(Slot::Next) {
            self.begin_slot(Slot::Next)
        } else if slot != Slot::Scan && self.is_wanted(Slot::Previous) {
            self.begin_slot(Slot::Previous)
        } else if self.epub.cache_chapter as usize >= self.epub.spine.len() {
            BgAction::Finish(self.epub_finish_cache(FinishEvent::Begin))
        } else if self.epub.ch_cached[self.epub.cache_chapter as usize] {
            self.end_scan(true)
        } else {
            self.begin_slot(Slot::Scan)
        }
    }

    /// Begins the chapter in `slot`.
    fn begin_slot<E>(&mut self, slot: Slot) -> (action: BgAction<E>)
        requires
            old(self)@.wf(),
        ensures
            final(self)@.wf(),
            begins_chapter(old(self)@, slot, final(self)@, action),
    {
        let ch = self.chapter_in(slot);
        BgAction::Chapter { slot, action: self.epub_cache_chapter_async(ch, ChapterEvent::Begin) }
    }

    /// Goes on after the chapter in `slot`.
    fn leave_slot<E>(&mut self, slot: Slot, ok: bool) -> (action: BgAction<E>)
        requires
            old(self)@.wf(),
            slot == Slot::Scan ==> old(self)@.cache_chapter < old(self)@.spine.len(),
        ensures
            final(self)@.wf(),
            leaves(old(self)@, slot, ok, final(self)@, action),
    {
        match slot {
            Slot::Next => self.enter_slot(Slot::Previous),
            Slot::Previous => self.enter_slot(Slot::Scan),
            Slot::Scan => self.end_scan(ok),
        }
    }

    /// Moves the sequential scan past a chapter that has had its turn.
    fn end_scan<E>(&mut self, ok: bool) -> (action: BgAction<E>)
        requires
            old(self)@.wf(),
            old(self)@.cache_chapter < old(self)@.spine.len(),
        ensures
            final(self)@.wf(),
            leaves(old(self)@, Slot::Scan, ok, final(self)@, action),
    {
        self.epub.cache_chapter = self.epub.cache_chapter + 1;
        if ok {
            BgAction::DispatchNearby
        } else {
            BgAction::Done
        }
    }
}

} // verus!
