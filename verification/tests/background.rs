use epub_cache::background::{BgAction, BgEvent, Found, Received, Slot};
use epub_cache::chapter::{ChapterAction, ChapterEvent};
use epub_cache::error::{Error, STREAM_SOURCE};
use epub_cache::reader::{BgCacheState, EpubState, Limits, ReaderApp};
use epub_cache::record::{FinishAction, FinishEvent};
use epub_cache::stream::{ReadAction, ReadEvent, StreamReader, StreamWriter, WriteAction, WriteEvent};

/// A reader of a book with three chapters, in a table of four.
fn reader() -> ReaderApp {
    ReaderApp {
        limits: Limits { eocd_tail: 512, page_buf: 8, chapter_cache_max: 64, meta_max: 100 },
        name: b"book.epub".to_vec(),
        is_epub: true,
        title: vec![b'-'; 6],
        title_len: 0,
        file_size: 0,
        epub: EpubState {
            archive_size: 1000,
            name_hash: 0xabcd,
            cache_dir: "_ABCD".to_string(),
            spine: vec![11, 12, 13],
            meta_title: Vec::new(),
            meta_title_len: 0,
            chapter: 0,
            chapter_sizes: vec![0; 4],
            ch_cached: vec![false; 4],
            chapters_cached: false,
            ch_cache: Vec::new(),
            cache_chapter: 0,
            bg_cache: BgCacheState::CacheChapter,
            img_cache_ch: 9,
            img_cache_offset: 77,
            img_scan_wrapped: true,
        },
    }
}

type Event = BgEvent<&'static str>;
type Action = BgAction<&'static str>;

fn truncate(slot: Slot, ch: u16, entry: usize) -> Action {
    BgAction::Chapter {
        slot,
        action: ChapterAction::Truncate { dir: "_ABCD".to_string(), ch, entry },
    }
}

fn stream(slot: Slot, ch: u16, entry: usize) -> Action {
    BgAction::Chapter {
        slot,
        action: ChapterAction::Stream {
            name: "book.epub".to_string(),
            dir: "_ABCD".to_string(),
            ch,
            entry,
        },
    }
}

fn truncated(slot: Slot) -> Event {
    BgEvent::Chapter { slot, event: ChapterEvent::Truncated(Ok(())) }
}

fn streamed(slot: Slot, size: u32) -> Event {
    BgEvent::Chapter { slot, event: ChapterEvent::Streamed(Ok(size)) }
}

/// Answers every action of one tick, with chapters of 100 bytes and upward and
/// no image, and returns the chapters that were streamed.
fn tick(app: &mut ReaderApp) -> Vec<u16> {
    let mut seen: Vec<u16> = Vec::new();
    let mut event: Event = BgEvent::Tick;
    for _ in 0..8 {
        assert!(app.is_wf());
        event = match app.bg_cache_step(event) {
            BgAction::Chapter { slot, action: ChapterAction::Truncate { ch, .. } } => {
                assert!(!app.epub.ch_cached[ch as usize]);
                truncated(slot)
            }
            BgAction::Chapter { slot, action: ChapterAction::Stream { ch, .. } } => {
                seen.push(ch);
                streamed(slot, 100 + ch as u32)
            }
            BgAction::Finish(FinishAction::Encode { sizes, .. }) => {
                BgEvent::Finish(FinishEvent::Encoded(sizes.iter().map(|s| *s as u8).collect()))
            }
            BgAction::Finish(FinishAction::Write { .. }) => {
                BgEvent::Finish(FinishEvent::Written(Ok(())))
            }
            BgAction::DispatchNearby => BgEvent::NearbyDispatched(false),
            BgAction::FindImage => BgEvent::ImageFound(Found::Nothing),
            BgAction::Done => return seen,
            other => panic!("{:?}", other),
        };
    }
    panic!("more than eight steps");
}

#[test]
fn chapter_outside_the_book_is_left_alone() {
    let mut app = reader();
    let action: ChapterAction<u8> = app.epub_cache_chapter_async(3, ChapterEvent::Begin);
    assert_eq!(action, ChapterAction::Done(Ok(())));
}

#[test]
fn cached_chapter_is_left_alone() {
    let mut app = reader();
    app.epub.ch_cached[1] = true;
    let action: ChapterAction<u8> = app.epub_cache_chapter_async(1, ChapterEvent::Begin);
    assert_eq!(action, ChapterAction::Done(Ok(())));
}

#[test]
fn chapter_is_emptied_then_streamed() {
    let mut app = reader();
    let action: ChapterAction<u8> = app.epub_cache_chapter_async(1, ChapterEvent::Begin);
    assert_eq!(
        action,
        ChapterAction::Truncate { dir: "_ABCD".to_string(), ch: 1, entry: 12 }
    );
    let action: ChapterAction<u8> =
        app.epub_cache_chapter_async(1, ChapterEvent::Truncated(Ok(())));
    assert_eq!(
        action,
        ChapterAction::Stream {
            name: "book.epub".to_string(),
            dir: "_ABCD".to_string(),
            ch: 1,
            entry: 12
        }
    );
    let action: ChapterAction<u8> =
        app.epub_cache_chapter_async(1, ChapterEvent::Streamed(Ok(321)));
    assert_eq!(action, ChapterAction::Done(Ok(())));
    assert_eq!(app.epub.chapter_sizes, vec![0, 321, 0, 0]);
    assert_eq!(app.epub.ch_cached, vec![false, true, false, false]);
}

#[test]
fn name_that_is_not_text_counts_as_empty() {
    let mut app = reader();
    app.name = vec![b'a', 0xff];
    assert_eq!(app.file_name(), "");
    match app.epub_cache_chapter_async::<u8>(0, ChapterEvent::Truncated(Ok(()))) {
        ChapterAction::Stream { name, .. } => assert_eq!(name, ""),
        other => panic!("{:?}", other),
    }
    app.name = "b\u{fc}cher.epub".as_bytes().to_vec();
    assert_eq!(app.file_name(), "b\u{fc}cher.epub");
}

#[test]
fn failures_of_a_chapter_pass_through() {
    let mut app = reader();
    let action = app.epub_cache_chapter_async(0, ChapterEvent::Truncated(Err("disk full")));
    assert_eq!(action, ChapterAction::Done(Err(Error::Kernel("disk full"))));
    let action: ChapterAction<&'static str> =
        app.epub_cache_chapter_async(0, ChapterEvent::Streamed(Err("bad deflate")));
    assert_eq!(action, ChapterAction::Done(Err(Error::Stream("bad deflate"))));
    assert_eq!(STREAM_SOURCE, "epub_cache_chapter_async: stream");
    assert_eq!(app.epub.ch_cached, vec![false; 4]);
}

#[test]
fn next_chapter_comes_before_the_scan() {
    let mut app = reader();
    assert_eq!(app.bg_cache_step(Event::Tick), truncate(Slot::Next, 1, 12));
    assert_eq!(app.bg_cache_step(truncated(Slot::Next)), stream(Slot::Next, 1, 12));
    // chapter 0 is its own predecessor, and the scan stands there
    assert_eq!(app.bg_cache_step(streamed(Slot::Next, 50)), truncate(Slot::Scan, 0, 11));
    assert_eq!(app.bg_cache_step(truncated(Slot::Scan)), stream(Slot::Scan, 0, 11));
    assert_eq!(app.bg_cache_step(streamed(Slot::Scan, 40)), Action::DispatchNearby);
    assert_eq!(app.epub.cache_chapter, 1);
    assert_eq!(app.epub.chapter_sizes, vec![40, 50, 0, 0]);
    assert_eq!(app.bg_cache_step(Event::NearbyDispatched(false)), Action::Done);
    assert_eq!(app.epub.bg_cache, BgCacheState::CacheChapter);
}

#[test]
fn both_neighbours_come_before_the_scan() {
    let mut app = reader();
    app.epub.spine = vec![11, 12, 13, 14];
    app.epub.chapter = 2;
    assert_eq!(tick(&mut app), vec![3, 1, 0]);
    assert_eq!(app.epub.ch_cached, vec![true, true, false, true]);
}

#[test]
fn chapter_that_just_came_early_is_stepped_over() {
    let mut app = reader();
    app.epub.ch_cached[0] = true;
    assert_eq!(app.bg_cache_step(Event::Tick), truncate(Slot::Next, 1, 12));
    assert_eq!(app.epub.cache_chapter, 1);
    app.bg_cache_step(truncated(Slot::Next));
    assert_eq!(app.bg_cache_step(streamed(Slot::Next, 5)), Action::DispatchNearby);
    assert_eq!(app.epub.cache_chapter, 2);
}

#[test]
fn failed_neighbour_costs_its_turn_only() {
    let mut app = reader();
    app.bg_cache_step(Event::Tick);
    let failed: Event = BgEvent::Chapter {
        slot: Slot::Next,
        event: ChapterEvent::Truncated(Err("disk full")),
    };
    assert_eq!(app.bg_cache_step(failed), truncate(Slot::Scan, 0, 11));
    assert!(!app.epub.ch_cached[1]);
}

#[test]
fn failed_scan_goes_on_without_images() {
    let mut app = reader();
    app.epub.ch_cached[1] = true;
    assert_eq!(app.bg_cache_step(Event::Tick), truncate(Slot::Scan, 0, 11));
    let failed: Event = BgEvent::Chapter {
        slot: Slot::Scan,
        event: ChapterEvent::Streamed(Err("bad deflate")),
    };
    assert_eq!(app.bg_cache_step(failed), Action::Done);
    assert_eq!(app.epub.cache_chapter, 1);
    assert_eq!(app.epub.bg_cache, BgCacheState::CacheChapter);
}

#[test]
fn book_is_cached_without_a_gap() {
    let mut app = reader();
    assert_eq!(tick(&mut app), vec![1, 0]);
    assert_eq!(tick(&mut app), vec![2]);
    assert_eq!(app.epub.cache_chapter, 3);
    assert_eq!(app.epub.bg_cache, BgCacheState::CacheChapter);
    assert_eq!(tick(&mut app), Vec::<u16>::new());
    assert_eq!(app.epub.bg_cache, BgCacheState::CacheImage);
    assert_eq!(app.epub.ch_cached, vec![true, true, true, false]);
    assert_eq!(app.epub.chapter_sizes, vec![100, 101, 102, 0]);
    assert!(app.epub.chapters_cached);
    assert_eq!(tick(&mut app), Vec::<u16>::new());
    assert_eq!(app.epub.bg_cache, BgCacheState::Idle);
    assert_eq!(tick(&mut app), Vec::<u16>::new());
    assert_eq!(app.epub.bg_cache, BgCacheState::Idle);
}

#[test]
fn full_cache_is_recorded_at_once() {
    let mut app = reader();
    app.epub.chapter = 1;
    app.epub.ch_cached = vec![true, true, true, false];
    app.epub.chapter_sizes = vec![4, 5, 6, 7];
    assert_eq!(
        app.bg_cache_step(Event::Tick),
        BgAction::Finish(FinishAction::Encode {
            archive_size: 1000,
            name_hash: 0xabcd,
            sizes: vec![4, 5, 6]
        })
    );
    assert_eq!(
        app.bg_cache_step(Event::Finish(FinishEvent::Encoded(vec![1, 2]))),
        BgAction::Finish(FinishAction::Write { dir: "_ABCD".to_string(), data: vec![1, 2] })
    );
    // the record that cannot be written does not hold up the images
    assert_eq!(
        app.bg_cache_step(Event::Finish(FinishEvent::Written(Err("disk full")))),
        Action::Done
    );
    assert!(!app.epub.chapters_cached);
    assert_eq!(app.epub.bg_cache, BgCacheState::CacheImage);
    assert_eq!(app.epub.img_cache_ch, 1);
    assert_eq!(app.epub.img_cache_offset, 0);
    assert!(!app.epub.img_scan_wrapped);
}

#[test]
fn nearby_image_is_waited_for() {
    let mut app = reader();
    assert_eq!(app.bg_cache_step(Event::NearbyDispatched(true)), Action::Done);
    assert_eq!(app.epub.bg_cache, BgCacheState::WaitNearbyImage);
    assert_eq!(app.bg_cache_step(Event::Tick), Action::ReceiveNearby);
    assert_eq!(app.bg_cache_step(Event::NearbyReceived(Received::Nothing)), Action::Done);
    assert_eq!(app.epub.bg_cache, BgCacheState::WaitNearbyImage);
    assert_eq!(
        app.bg_cache_step(Event::NearbyReceived(Received::Image)),
        Action::DispatchNextNearby
    );
    assert_eq!(app.bg_cache_step(Event::NextNearbyDispatched(true)), Action::Done);
    assert_eq!(app.epub.bg_cache, BgCacheState::WaitNearbyImage);
    assert_eq!(app.bg_cache_step(Event::NextNearbyDispatched(false)), Action::Done);
    assert_eq!(app.epub.bg_cache, BgCacheState::CacheChapter);
}

#[test]
fn nearby_image_that_fails_is_given_up() {
    let mut app = reader();
    app.epub.bg_cache = BgCacheState::WaitNearbyImage;
    assert_eq!(app.bg_cache_step(Event::NearbyReceived(Received::Failed)), Action::Done);
    assert_eq!(app.epub.bg_cache, BgCacheState::CacheChapter);
}

#[test]
fn image_search_waits_only_for_a_busy_worker() {
    let mut app = reader();
    app.epub.bg_cache = BgCacheState::CacheImage;
    assert_eq!(app.bg_cache_step(Event::Tick), Action::FindImage);
    assert_eq!(app.bg_cache_step(Event::ImageFound(Found::Image)), Action::AskWorker);
    assert_eq!(app.bg_cache_step(Event::WorkerIdle(true)), Action::Done);
    assert_eq!(app.epub.bg_cache, BgCacheState::CacheImage);
    assert_eq!(app.bg_cache_step(Event::ImageFound(Found::Failed)), Action::Done);
    assert_eq!(app.epub.bg_cache, BgCacheState::CacheImage);
    assert_eq!(app.bg_cache_step(Event::WorkerIdle(false)), Action::Done);
    assert_eq!(app.epub.bg_cache, BgCacheState::WaitImage);
    assert_eq!(app.bg_cache_step(Event::Tick), Action::ReceiveImage);
    assert_eq!(app.bg_cache_step(Event::ImageReceived(Received::Nothing)), Action::Done);
    assert_eq!(app.epub.bg_cache, BgCacheState::WaitImage);
    assert_eq!(app.bg_cache_step(Event::ImageReceived(Received::Failed)), Action::Done);
    assert_eq!(app.epub.bg_cache, BgCacheState::CacheImage);
    app.epub.bg_cache = BgCacheState::WaitImage;
    assert_eq!(app.bg_cache_step(Event::ImageReceived(Received::Image)), Action::Done);
    assert_eq!(app.epub.bg_cache, BgCacheState::CacheImage);
}

#[test]
fn spine_beyond_the_tables_is_noticed() {
    let mut app = reader();
    assert!(app.is_wf());
    app.epub.spine = vec![1, 2, 3, 4, 5];
    assert!(!app.is_wf());
}

/// Runs ticks in which every chapter fails until the task goes over to images,
/// and returns how many there were.
fn ticks_with_failures(app: &mut ReaderApp) -> usize {
    let mut ticks: usize = 0;
    while app.epub.bg_cache == BgCacheState::CacheChapter {
        ticks += 1;
        let from = app.epub.cache_chapter;
        let mut event: Event = BgEvent::Tick;
        loop {
            event = match app.bg_cache_step(event) {
                BgAction::Chapter { slot, action: ChapterAction::Truncate { .. } } => {
                    BgEvent::Chapter { slot, event: ChapterEvent::Truncated(Err("disk full")) }
                }
                BgAction::Finish(FinishAction::Encode { .. }) => {
                    BgEvent::Finish(FinishEvent::Encoded(Vec::new()))
                }
                BgAction::Finish(FinishAction::Write { .. }) => {
                    BgEvent::Finish(FinishEvent::Written(Err("disk full")))
                }
                BgAction::Done => break,
                other => panic!("{:?}", other),
            };
        }
        let to = app.epub.cache_chapter;
        assert!(from < to || app.epub.bg_cache == BgCacheState::CacheImage);
        assert!(to as usize <= app.epub.spine.len());
        for i in from..to.saturating_sub(1) {
            assert!(app.epub.ch_cached[i as usize]);
        }
    }
    ticks
}

#[test]
fn chapter_caching_ends_though_every_chapter_fails() {
    let mut app = reader();
    assert_eq!(ticks_with_failures(&mut app), 4);
    assert_eq!(app.epub.cache_chapter, 3);
    assert_eq!(app.epub.ch_cached, vec![false; 4]);
    let mut app = reader();
    app.epub.ch_cached = vec![true, true, false, false];
    assert_eq!(ticks_with_failures(&mut app), 2);
}

#[test]
fn failed_neighbours_do_not_stop_the_rest() {
    let mut app = reader();
    app.epub.chapter = 1;
    assert_eq!(app.bg_cache_step(Event::Tick), truncate(Slot::Next, 2, 13));
    let failed = |slot: Slot| -> Event {
        BgEvent::Chapter { slot, event: ChapterEvent::Truncated(Err("disk full")) }
    };
    assert_eq!(app.bg_cache_step(failed(Slot::Next)), truncate(Slot::Previous, 0, 11));
    // the scan stands at the same chapter, which is still not cached
    assert_eq!(app.bg_cache_step(failed(Slot::Previous)), truncate(Slot::Scan, 0, 11));
    app.bg_cache_step(truncated(Slot::Scan));
    assert_eq!(app.bg_cache_step(streamed(Slot::Scan, 9)), Action::DispatchNearby);
    assert_eq!(app.epub.ch_cached, vec![true, false, false, false]);
    assert_eq!(app.epub.chapter_sizes, vec![9, 0, 0, 0]);
    assert_eq!(app.epub.chapter, 1);
}

#[test]
fn idle_task_changes_nothing() {
    let mut app = reader();
    app.epub.bg_cache = BgCacheState::Idle;
    // not even a well-formed state is asked for
    app.epub.spine = vec![1, 2, 3, 4, 5];
    let before = format!("{:?}", app);
    assert_eq!(app.bg_cache_step(Event::Tick), Action::Done);
    assert_eq!(format!("{:?}", app), before);
}

#[test]
fn any_number_is_good_to_begin_with() {
    let mut app = reader();
    let action: ChapterAction<u8> = app.epub_cache_chapter_async(usize::MAX, ChapterEvent::Begin);
    assert_eq!(action, ChapterAction::Done(Ok(())));
}

/// Writes `chunk` to the end of `file` as the streamer does.
fn write(end: &StreamWriter, file: &mut Vec<u8>, chunk: &[u8]) -> Result<(), &'static str> {
    let mut event: WriteEvent<&'static str> = WriteEvent::Asked { data: chunk };
    loop {
        event = match end.write_chunk(event) {
            WriteAction::Append { dir, ch, data } => {
                assert_eq!((dir, ch), ("_ABCD", 1));
                file.extend_from_slice(data);
                WriteEvent::Written(Ok(()))
            }
            WriteAction::Done(result) => return result,
        };
    }
}

/// Caches chapter 1 into `file` with `chunks`, or fails with the last of them
/// missing.
fn cache_into(app: &mut ReaderApp, file: &mut Vec<u8>, chunks: &[&[u8]], ok: bool) -> bool {
    let mut event: ChapterEvent<&'static str> = ChapterEvent::Begin;
    loop {
        event = match app.epub_cache_chapter_async(1, event) {
            ChapterAction::Truncate { .. } => {
                file.clear();
                ChapterEvent::Truncated(Ok(()))
            }
            ChapterAction::Stream { dir, ch, .. } => {
                let end = StreamWriter { dir: &dir, ch };
                let kept = if ok { chunks.len() } else { chunks.len() - 1 };
                let mut size: u32 = 0;
                for chunk in &chunks[..kept] {
                    assert_eq!(write(&end, file, chunk), Ok(()));
                    size += chunk.len() as u32;
                }
                ChapterEvent::Streamed(if ok { Ok(size) } else { Err("bad deflate") })
            }
            ChapterAction::Done(result) => return result.is_ok(),
        };
    }
}

#[test]
fn stale_text_does_not_survive() {
    let mut app = reader();
    let mut file = b"stale".to_vec();
    assert!(!cache_into(&mut app, &mut file, &[b"one ", b"two"], false));
    assert_eq!(file, b"one ".to_vec());
    assert!(cache_into(&mut app, &mut file, &[b"one ", b"two"], true));
    assert_eq!(file, b"one two".to_vec());
    assert_eq!(app.epub.chapter_sizes[1], 7);
    // a second call leaves the file alone
    file.push(b'!');
    assert!(cache_into(&mut app, &mut file, &[b"three"], true));
    assert_eq!(file, b"one two!".to_vec());
}

#[test]
fn streamer_reads_from_the_archive() {
    let end = StreamReader { name: "book.epub" };
    let asked: ReadEvent<&'static str> = ReadEvent::Asked { offset: 70, len: 16 };
    assert_eq!(
        end.read_at(asked),
        ReadAction::ReadChunk { name: "book.epub", offset: 70, len: 16 }
    );
    let read: ReadEvent<&'static str> = ReadEvent::Read(Ok(9));
    assert_eq!(end.read_at(read), ReadAction::Done(Ok(9)));
    assert_eq!(end.read_at(ReadEvent::Read(Err("no card"))), ReadAction::Done(Err("no card")));
}

#[test]
fn streamer_writes_to_the_end_of_the_cache_file() {
    let end = StreamWriter { dir: "_ABCD", ch: 4 };
    let asked: WriteEvent<&'static str> = WriteEvent::Asked { data: b"text" };
    assert_eq!(
        end.write_chunk(asked),
        WriteAction::Append { dir: "_ABCD", ch: 4, data: b"text" }
    );
    let written: WriteEvent<&'static str> = WriteEvent::Written(Ok(()));
    assert_eq!(end.write_chunk(written), WriteAction::Done(Ok(())));
    assert_eq!(
        end.write_chunk(WriteEvent::Written(Err("disk full"))),
        WriteAction::Done(Err("disk full"))
    );
}

#[test]
fn image_helper_may_free_the_text_in_memory() {
    let mut app = reader();
    app.epub.bg_cache = BgCacheState::CacheImage;
    app.epub.ch_cache = vec![1, 2, 3];
    // images ask for no well-formed state
    app.epub.spine = vec![1, 2, 3, 4, 5];
    assert_eq!(app.bg_cache_step(Event::Tick), Action::FindImage);
    app.epub.ch_cache = Vec::new();
    app.title_len = 1;
    assert_eq!(app.bg_cache_step(Event::ImageFound(Found::Image)), Action::AskWorker);
    assert_eq!(app.bg_cache_step(Event::WorkerIdle(false)), Action::Done);
    assert_eq!(app.epub.bg_cache, BgCacheState::WaitImage);
    assert_eq!(app.epub.ch_cached, vec![false; 4]);
    assert!(app.epub.ch_cache.is_empty());
    assert_eq!(app.title_len, 1);
}
