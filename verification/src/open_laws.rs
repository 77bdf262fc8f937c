//! What holds of opening a book, and of the cache record, as a whole.
use vstd::prelude::*;
use crate::archive::{zip_event_fits, zip_step, ZipAction, ZipEvent, MIN_ARCHIVE};
use crate::error::{Error, Fault};
use crate::memory::{reserves, same_room, zeros};
use crate::package::{opf_event_fits, opf_step, OpfAction, OpfEvent};
use crate::reader::ReaderModel;
use crate::record::{
    check_event_fits, check_step, finish_step, CheckAction, CheckEvent, FinishAction, FinishEvent,
};
use crate::text::{dir_of, lemma_dir_of_plain, lemma_dir_of_split};

verus! {

/// `event` is an outcome of `action`, for an archive that is being opened.
pub open spec fn zip_answers<E>(action: ZipAction<E>, event: ZipEvent<E>) -> bool {
    match action {
        ZipAction::AskFileSize { name: _ } => event is FileSize,
        ZipAction::HashName { name: _ } => event is NameHashed,
        ZipAction::ReadTail { name: _, offset: _, len: _ } => event is TailRead,
        ZipAction::ParseEocd { len: _, archive_size: _ } => event is EocdParsed,
        ZipAction::ReserveDirectory { offset, size } => event matches ZipEvent::DirectoryReserved {
            offset: of,
            room,
        } && of == offset && reserves(size as nat, room),
        ZipAction::ReadDirectory { name: _, offset: _, buf: _ } => event is DirectoryRead,
        ZipAction::ParseDirectory { data: _ } => event is DirectoryParsed,
        ZipAction::Done(_) => false,
    }
}

/// The events of opening one archive, with the states around them and the action
/// that each step asked for.
pub struct ZipRun<E> {
    /// The state before each step, and that after the last one.
    pub states: Seq<ReaderModel>,
    pub events: Seq<ZipEvent<E>>,
    pub actions: Seq<ZipAction<E>>,
}

impl<E> ZipRun<E> {
    pub open spec fn len(self) -> nat {
        self.events.len()
    }

    /// The run starts at the beginning, each step is one of opening, and each
    /// event answers the action before it.
    pub open spec fn valid(self) -> bool {
        &&& self.len() > 0
        &&& self.states.len() == self.len() + 1
        &&& self.actions.len() == self.len()
        &&& self.events[0] is Begin
        &&& forall|i: int|
            0 <= i < self.len() ==> #[trigger] zip_step(
                self.states[i],
                self.events[i],
                self.states[i + 1],
                self.actions[i],
            )
        &&& forall|i: int|
            0 < i < self.len() ==> #[trigger] zip_answers(self.actions[i - 1], self.events[i])
    }

    pub open spec fn start(self) -> ReaderModel {
        self.states[0]
    }

    pub open spec fn end(self) -> ReaderModel {
        self.states.last()
    }
}

/// Where in the run each action comes, if it comes at all.
spec fn zip_place<E>(action: ZipAction<E>) -> int {
    match action {
        ZipAction::AskFileSize { name: _ } => 0,
        ZipAction::HashName { name: _ } => 1,
        ZipAction::ReadTail { name: _, offset: _, len: _ } => 2,
        ZipAction::ParseEocd { len: _, archive_size: _ } => 3,
        ZipAction::ReserveDirectory { offset: _, size: _ } => 4,
        ZipAction::ReadDirectory { name: _, offset: _, buf: _ } => 5,
        ZipAction::ParseDirectory { data: _ } => 6,
        ZipAction::Done(_) => 7,
    }
}

/// What holds after step `i` of an opening.
spec fn zip_inv<E>(run: ZipRun<E>, i: int) -> bool {
    let start = run.start();
    let now = run.states[i + 1];
    &&& i <= 7
    &&& run.actions[i] is Done || zip_place(run.actions[i]) == i
    &&& if i == 0 {
        now == start
    } else {
        match run.events[1] {
            ZipEvent::FileSize(Ok(size)) => if size < MIN_ARCHIVE {
                i == 1 && now == start && run.actions[i] is Done
            } else if i == 1 {
                now == ReaderModel { archive_size: size, ..start }
            } else {
                &&& run.events[2] matches ZipEvent::NameHashed { hash, dir }
                &&& now == ReaderModel {
                    archive_size: size,
                    name_hash: hash,
                    cache_dir: dir@,
                    ..start
                }
            },
            _ => i == 1 && now == start && run.actions[i] is Done,
        }
    }
    &&& run.actions[i] == ZipAction::<E>::Done(Ok(())) <==> i == 7 && run.events[7]
        == ZipEvent::<E>::DirectoryParsed(true)
}

proof fn lemma_zip_inv<E>(run: ZipRun<E>, i: int)
    requires
        run.valid(),
        0 <= i < run.len(),
    ensures
        zip_inv(run, i),
    decreases i,
{
    assert(zip_step(run.states[i], run.events[i], run.states[i + 1], run.actions[i]));
    if i > 0 {
        lemma_zip_inv(run, i - 1);
        assert(zip_answers(run.actions[i - 1], run.events[i]));
    }
}

/// An archive opens in eight steps or fails in fewer, except that the last of
/// the eight can fail too. Where it opens, the reader has taken the size, the
/// hash and the cache directory that it was given, and the size is that of an
/// archive.
pub proof fn law_archive_opens<E>(run: ZipRun<E>)
    requires
        run.valid(),
    ensures
        run.len() <= 8,
        run.actions.last() == ZipAction::<E>::Done(Ok(())) <==> run.len() == 8 && run.events[7]
            == ZipEvent::<E>::DirectoryParsed(true),
        run.actions.last() == ZipAction::<E>::Done(Ok(())) ==> {
            &&& run.events[1] matches ZipEvent::FileSize(Ok(size))
            &&& run.events[2] matches ZipEvent::NameHashed { hash, dir }
            &&& size >= MIN_ARCHIVE
            &&& run.end() == ReaderModel {
                archive_size: size,
                name_hash: hash,
                cache_dir: dir@,
                ..run.start()
            }
        },
{
    lemma_zip_inv(run, run.len() - 1);
}

/// Opening an archive, whether it succeeds or fails, changes nothing of the
/// reader but its size, its hash and its cache directory; a file that is too
/// small, or whose size is not known, changes nothing at all.
pub proof fn law_opening_archive_keeps_the_rest<E>(run: ZipRun<E>)
    requires
        run.valid(),
    ensures
        run.end() == (ReaderModel {
            archive_size: run.end().archive_size,
            name_hash: run.end().name_hash,
            cache_dir: run.end().cache_dir,
            ..run.start()
        }),
        run.len() > 1 && !(run.events[1] matches ZipEvent::FileSize(Ok(size)) && size
            >= MIN_ARCHIVE) ==> run.end() == run.start() && run.actions.last() is Done,
{
    lemma_zip_inv(run, run.len() - 1);
}

/// The cache directory goes with the hash: where the one was derived from the
/// other by `dir_for` before an opening, and the caller derives it so, the same
/// holds after every step, and so however the opening ends.
pub proof fn law_directory_goes_with_hash<E>(
    run: ZipRun<E>,
    dir_for: spec_fn(u32) -> Seq<char>,
)
    requires
        run.valid(),
        run.start().cache_dir == dir_for(run.start().name_hash),
        forall|i: int|
            0 <= i < run.len() ==> (#[trigger] run.events[i] matches ZipEvent::NameHashed {
                hash,
                dir,
            } ==> dir@ == dir_for(hash)),
    ensures
        run.end().cache_dir == dir_for(run.end().name_hash),
{
    lemma_zip_inv(run, run.len() - 1);
    if run.len() > 2 {
        assert(run.events[2] matches ZipEvent::NameHashed { hash, dir } ==> dir@ == dir_for(hash));
    }
}

/// Two events hold the same.
pub open spec fn same_zip_event<E>(a: ZipEvent<E>, b: ZipEvent<E>) -> bool {
    match (a, b) {
        (
            ZipEvent::NameHashed { hash, dir },
            ZipEvent::NameHashed { hash: other_hash, dir: other_dir },
        ) => hash == other_hash && dir@ == other_dir@,
        (
            ZipEvent::DirectoryReserved { offset, room },
            ZipEvent::DirectoryReserved { offset: other_offset, room: other_room },
        ) => offset == other_offset && same_room(room, other_room),
        (ZipEvent::DirectoryRead(Ok(data)), ZipEvent::DirectoryRead(Ok(other))) => data@ == other@,
        _ => a == b,
    }
}

/// Two actions ask for the same.
pub open spec fn same_zip_action<E>(a: ZipAction<E>, b: ZipAction<E>) -> bool {
    match (a, b) {
        (ZipAction::AskFileSize { name }, ZipAction::AskFileSize { name: other }) => name@
            == other@,
        (ZipAction::HashName { name }, ZipAction::HashName { name: other }) => name@ == other@,
        (
            ZipAction::ReadTail { name, offset, len },
            ZipAction::ReadTail { name: other, offset: other_offset, len: other_len },
        ) => name@ == other@ && offset == other_offset && len == other_len,
        (
            ZipAction::ReadDirectory { name, offset, buf },
            ZipAction::ReadDirectory { name: other, offset: other_offset, buf: other_buf },
        ) => name@ == other@ && offset == other_offset && buf@ == other_buf@,
        (ZipAction::ParseDirectory { data }, ZipAction::ParseDirectory { data: other }) => data@
            == other@,
        _ => a == b,
    }
}

/// The same question is answered alike in both runs; there is memory in both, or
/// in neither.
pub open spec fn answered_alike<E>(a: ZipRun<E>, b: ZipRun<E>) -> bool {
    forall|i: int|
        0 < i < a.len() && i < b.len() && same_zip_action(a.actions[i - 1], b.actions[i - 1])
            ==> same_zip_event(#[trigger] a.events[i], b.events[i])
}

proof fn lemma_openings_agree<E>(a: ZipRun<E>, b: ZipRun<E>, i: int)
    requires
        a.valid(),
        b.valid(),
        a.start().file_name() == b.start().file_name(),
        a.start().limits == b.start().limits,
        answered_alike(a, b),
        0 <= i < a.len(),
        i < b.len(),
    ensures
        same_zip_action(a.actions[i], b.actions[i]),
        i > 0 ==> same_zip_event(a.events[i], b.events[i]),
        i == 1 && a.actions[1] !is Done || i > 1 ==> a.states[i + 1].archive_size == b.states[i
            + 1].archive_size,
        i > 1 ==> a.states[i + 1].name_hash == b.states[i + 1].name_hash && a.states[i
            + 1].cache_dir == b.states[i + 1].cache_dir,
    decreases i,
{
    lemma_zip_inv(a, i);
    lemma_zip_inv(b, i);
    assert(zip_step(a.states[i], a.events[i], a.states[i + 1], a.actions[i]));
    assert(zip_step(b.states[i], b.events[i], b.states[i + 1], b.actions[i]));
    if i > 0 {
        lemma_zip_inv(a, i - 1);
        lemma_zip_inv(b, i - 1);
        lemma_openings_agree(a, b, i - 1);
        assert(zip_answers(a.actions[i - 1], a.events[i]));
        assert(zip_answers(b.actions[i - 1], b.events[i]));
        assert(same_zip_event(a.events[i], b.events[i]));
    }
}

/// Two openings of one file agree, whatever the readers held before: where the
/// same questions are answered alike, both take the same steps and end alike; and where the archive opens, both readers have the same
/// size, hash and cache directory. So to open a file once more changes nothing.
pub proof fn law_openings_agree<E>(a: ZipRun<E>, b: ZipRun<E>)
    requires
        a.valid(),
        b.valid(),
        a.actions.last() is Done,
        b.actions.last() is Done,
        a.start().file_name() == b.start().file_name(),
        a.start().limits == b.start().limits,
        answered_alike(a, b),
    ensures
        a.len() == b.len(),
        forall|i: int| 0 <= i < a.len() ==> same_zip_action(#[trigger] a.actions[i], b.actions[i]),
        a.actions.last() == b.actions.last(),
        a.actions.last() == ZipAction::<E>::Done(Ok(())) ==> {
            &&& a.end().archive_size == b.end().archive_size
            &&& a.end().name_hash == b.end().name_hash
            &&& a.end().cache_dir == b.end().cache_dir
            &&& b.start() == a.end() ==> b.end() == a.end()
        },
{
    let n = if a.len() <= b.len() {
        a.len() as int
    } else {
        b.len() as int
    };
    lemma_openings_agree(a, b, n - 1);
    if n < a.len() {
        assert(zip_answers(a.actions[n - 1], a.events[n]));
    }
    if n < b.len() {
        assert(zip_answers(b.actions[n - 1], b.events[n]));
    }
    assert forall|i: int| 0 <= i < a.len() implies same_zip_action(
        #[trigger] a.actions[i],
        b.actions[i],
    ) by {
        lemma_openings_agree(a, b, i);
    }
    lemma_zip_inv(a, n - 1);
    lemma_zip_inv(b, n - 1);
}

/// The central directory is read whole, from where the tail says that it lies:
/// memory is asked for exactly its size, and where there is memory the buffer to
/// be filled has that size. Where there is none the opening fails for want of
/// memory, and for nothing else; an empty directory never fails so.
pub proof fn law_directory_is_read_from_its_place<E>(run: ZipRun<E>, offset: u32, size: u32)
    requires
        run.valid(),
        run.len() > 4,
        run.events[4] == ZipEvent::<E>::EocdParsed(Some((offset, size))),
    ensures
        run.actions[4] == (ZipAction::<E>::ReserveDirectory { offset, size: size as usize }),
        run.len() > 5 ==> match run.events[5] {
            ZipEvent::DirectoryReserved { offset: _, room: Some(_) } => {
                &&& run.actions[5] matches ZipAction::ReadDirectory { name, offset: from, buf }
                &&& name@ == run.start().file_name()
                &&& from == offset
                &&& buf@ == zeros(size as nat)
            },
            ZipEvent::DirectoryReserved { offset: _, room: None } => {
                &&& size > 0
                &&& run.actions[5] == ZipAction::<E>::Done(
                    Err(Error::Fault(Fault::DirectoryAlloc)),
                )
            },
            _ => false,
        },
        forall|i: int|
            0 <= i < run.len() && #[trigger] run.actions[i] == ZipAction::<E>::Done(
                Err(Error::Fault(Fault::DirectoryAlloc)),
            ) ==> i == 5 && (run.events[5] matches ZipEvent::DirectoryReserved {
                offset: _,
                room: None,
            }),
{
    lemma_zip_inv(run, 4);
    assert(zip_step(run.states[4], run.events[4], run.states[5], run.actions[4]));
    if run.len() > 5 {
        lemma_zip_inv(run, 5);
        assert(zip_answers(run.actions[5 - 1], run.events[5]));
        assert(zip_step(run.states[5], run.events[5], run.states[6], run.actions[5]));
    }
    assert forall|i: int|
        0 <= i < run.len() && #[trigger] run.actions[i] == ZipAction::<E>::Done(
            Err(Error::Fault(Fault::DirectoryAlloc)),
        ) implies i == 5 && (run.events[5] matches ZipEvent::DirectoryReserved {
        offset: _,
        room: None,
    }) by {
        assert(zip_step(run.states[i], run.events[i], run.states[i + 1], run.actions[i]));
        if i > 0 {
            lemma_zip_inv(run, i - 1);
            assert(zip_answers(run.actions[i - 1], run.events[i]));
        }
    }
}

/// The part of the file that is searched for the directory is its end: all of a
/// file that is small enough, and never more than fits into the page buffer.
pub proof fn law_tail_is_the_end<E>(
    pre: ReaderModel,
    event: ZipEvent<E>,
    post: ReaderModel,
    action: ZipAction<E>,
)
    requires
        zip_event_fits(pre, event),
        zip_step(pre, event, post, action),
    ensures
        action matches ZipAction::ReadTail { name: _, offset, len } ==> {
            &&& offset + len == post.archive_size
            &&& len <= post.limits.eocd_tail
            &&& len <= post.limits.page_buf
            &&& post.archive_size <= post.limits.eocd_tail ==> offset == 0
        },
{
}

/// `event` is an outcome of `action`, for a package that is being opened. What
/// an action hands out comes back with its outcome.
pub open spec fn opf_answers(action: OpfAction, event: OpfEvent) -> bool {
    match action {
        OpfAction::FindContainer { container: _ } => event is ContainerFound,
        OpfAction::ExtractContainer { name: _, entry: _ } => event is ContainerRead,
        OpfAction::ParseContainer { data: _ } => event is ContainerParsed,
        OpfAction::ScanForOpf => event is OpfScanned,
        OpfAction::FindOpf { path: asked } => event matches OpfEvent::OpfFound { path, entry: _ }
            && path@ == asked@,
        OpfAction::FindOpfIcase { path: asked } => event matches OpfEvent::OpfFoundIcase {
            path,
            entry: _,
        } && path@ == asked@,
        OpfAction::ExtractOpf { name: _, path: asked, entry: _ } =>
            event matches OpfEvent::OpfRead { path, document: _ } && path@ == asked@,
        OpfAction::ParseOpf { data: document, dir: of } => event matches OpfEvent::OpfParsed {
            data,
            dir,
            ok: _,
            spine: _,
            title: _,
            title_len: _,
        } && data@ == document@ && dir@ == of@,
        OpfAction::FindToc { data: _, dir: _ } => event is TocSearched,
        OpfAction::SaveTitle { name: _, title: _ } => event is TitleSaved,
        OpfAction::ClearToc => event is TocCleared,
        OpfAction::Done(_) => false,
    }
}

/// How many more answers an action can lead to.
pub open spec fn opf_answers_left(action: OpfAction) -> nat {
    match action {
        OpfAction::FindContainer { container: _ } => 10,
        OpfAction::ExtractContainer { name: _, entry: _ } => 9,
        OpfAction::ParseContainer { data: _ } => 8,
        OpfAction::ScanForOpf => 8,
        OpfAction::FindOpf { path: _ } => 7,
        OpfAction::FindOpfIcase { path: _ } => 6,
        OpfAction::ExtractOpf { name: _, path: _, entry: _ } => 5,
        OpfAction::ParseOpf { data: _, dir: _ } => 4,
        OpfAction::FindToc { data: _, dir: _ } => 3,
        OpfAction::SaveTitle { name: _, title: _ } => 2,
        OpfAction::ClearToc => 1,
        OpfAction::Done(_) => 0,
    }
}

/// Each answer brings the opening of a package closer to its end, and it is the
/// last answer alone that makes it a success.
pub proof fn law_package_opens(
    asked: OpfAction,
    pre: ReaderModel,
    event: OpfEvent,
    post: ReaderModel,
    action: OpfAction,
)
    requires
        opf_answers(asked, event),
        opf_step(pre, event, post, action),
    ensures
        opf_answers_left(action) < opf_answers_left(asked),
        action == OpfAction::Done(Ok(())) <==> asked is ClearToc,
{
}

/// The package document is looked for by its exact path first: upper and lower
/// case are taken as one only where that finds nothing.
pub proof fn law_exact_path_comes_first(
    pre: ReaderModel,
    event: OpfEvent,
    post: ReaderModel,
    action: OpfAction,
)
    requires
        opf_step(pre, event, post, action),
    ensures
        action matches OpfAction::FindOpfIcase { path } ==> (event matches OpfEvent::OpfFound {
            path: tried,
            entry: None,
        } && tried@ == path@),
{
}

/// The paths in a package document are taken relative to the directory in which
/// it lies: that of the path under which it was extracted, and the same when it
/// is parsed and when it is searched for the table of contents.
pub proof fn law_paths_are_relative_to_the_package(
    extract: OpfAction,
    read: OpfEvent,
    parse: OpfAction,
    parsed: OpfEvent,
    search: OpfAction,
    s0: ReaderModel,
    s1: ReaderModel,
    s2: ReaderModel,
)
    requires
        extract is ExtractOpf,
        opf_answers(extract, read),
        opf_step(s0, read, s1, parse),
        opf_answers(parse, parsed),
        opf_step(s1, parsed, s2, search),
        search !is Done,
    ensures
        match (extract, parse, search) {
            (
                OpfAction::ExtractOpf { name: _, path, entry: _ },
                OpfAction::ParseOpf { data, dir },
                OpfAction::FindToc { data: same_data, dir: same_dir },
            ) => dir@ == dir_of(path@) && same_dir@ == dir@ && same_data@ == data@,
            _ => false,
        },
{
}

/// The events of opening one package, with the states around them and the action
/// that each step asked for.
pub struct OpfRun {
    /// The state before each step, and that after the last one.
    pub states: Seq<ReaderModel>,
    pub events: Seq<OpfEvent>,
    pub actions: Seq<OpfAction>,
}

impl OpfRun {
    pub open spec fn len(self) -> nat {
        self.events.len()
    }

    /// The run starts at the beginning, each step is one of opening, and each
    /// event answers the action before it.
    pub open spec fn valid(self) -> bool {
        &&& self.len() > 0
        &&& self.states.len() == self.len() + 1
        &&& self.actions.len() == self.len()
        &&& self.events[0] is Begin
        &&& forall|i: int|
            0 <= i < self.len() ==> #[trigger] opf_step(
                self.states[i],
                self.events[i],
                self.states[i + 1],
                self.actions[i],
            )
        &&& forall|i: int|
            0 < i < self.len() ==> #[trigger] opf_answers(self.actions[i - 1], self.events[i])
    }

    pub open spec fn start(self) -> ReaderModel {
        self.states[0]
    }

    pub open spec fn end(self) -> ReaderModel {
        self.states.last()
    }
}

/// The state that a package document leads to when it is parsed.
pub open spec fn after_parse(pre: ReaderModel, event: OpfEvent) -> ReaderModel {
    match event {
        OpfEvent::OpfParsed { data: _, dir: _, ok: _, spine, title, title_len } => ReaderModel {
            spine: spine@,
            meta_title: title@,
            meta_title_len: title_len,
            ..pre
        },
        _ => pre,
    }
}

/// What holds after step `i` of opening a package: `p` is the step that parsed
/// the package document, if it has come.
spec fn opf_inv(run: OpfRun, i: int, p: Option<int>) -> bool {
    let start = run.start();
    let now = run.states[i + 1];
    match p {
        None => {
            &&& now == start
            &&& match run.actions[i] {
                OpfAction::FindToc { data: _, dir: _ }
                | OpfAction::SaveTitle { name: _, title: _ }
                | OpfAction::ClearToc => false,
                OpfAction::Done(result) => result is Err,
                _ => true,
            }
            &&& forall|j: int|
                0 <= j <= i ==> #[trigger] run.actions[j] !is SaveTitle
        },
        Some(p) => {
            let parsed = after_parse(start, run.events[p]);
            let titled = parsed.meta_title_len > 0;
            &&& 0 <= p <= i
            &&& run.events[p] is OpfParsed
            &&& forall|j: int|
                0 <= j <= i && (j != p + 1 || !titled) ==> #[trigger] run.actions[j] !is SaveTitle
            &&& match run.actions[i] {
                OpfAction::FindToc { data: _, dir: _ } => i == p && now == parsed,
                OpfAction::SaveTitle { name: _, title: _ } => {
                    &&& i == p + 1
                    &&& titled
                    &&& now == parsed.with_title()
                    &&& saves_title(start, run.events[p + 1], run.actions[p + 1])
                },
                OpfAction::ClearToc => {
                    &&& i == if titled {
                        p + 2
                    } else {
                        p + 1
                    }
                    &&& now == parsed.with_title()
                    &&& titled ==> saves_title(start, run.events[p + 1], run.actions[p + 1])
                },
                OpfAction::Done(Ok(_)) => {
                    &&& i == if titled {
                        p + 3
                    } else {
                        p + 2
                    }
                    &&& now == parsed.with_title()
                    &&& titled ==> saves_title(start, run.events[p + 1], run.actions[p + 1])
                },
                OpfAction::Done(Err(_)) => i == p && now == parsed,
                _ => false,
            }
        },
    }
}

/// The title that `event` gives, whole, is to be saved as the title of the file.
pub open spec fn saves_title(start: ReaderModel, event: OpfEvent, action: OpfAction) -> bool {
    &&& event matches OpfEvent::TocSearched { text }
    &&& action matches OpfAction::SaveTitle { name, title }
    &&& name@ == start.file_name()
    &&& title@ == text@
}

proof fn lemma_opf_inv(run: OpfRun, i: int) -> (p: Option<int>)
    requires
        run.valid(),
        0 <= i < run.len(),
    ensures
        opf_inv(run, i, p),
    decreases i,
{
    assert(opf_step(run.states[i], run.events[i], run.states[i + 1], run.actions[i]));
    if i == 0 {
        None
    } else {
        let before = lemma_opf_inv(run, i - 1);
        assert(opf_answers(run.actions[i - 1], run.events[i]));
        if run.events[i] is OpfParsed {
            Some(i)
        } else {
            before
        }
    }
}

/// Where a package opens, its document was parsed in the step `p`, and the reader
/// has the spine and the title that the parser left, and nothing else has
/// changed. A book that has a title has it on display, cut to the room for it,
/// and its whole title is handed out once to be saved, whether or not that
/// succeeds; for a book without one nothing is saved.
pub proof fn law_title_is_shown_and_saved(run: OpfRun) -> (p: int)
    requires
        run.valid(),
        run.actions.last() matches OpfAction::Done(Ok(_)),
    ensures
        0 <= p < run.len() - 1,
        run.events[p] is OpfParsed,
        run.end() == after_parse(run.start(), run.events[p]).with_title(),
        after_parse(run.start(), run.events[p]).meta_title_len > 0 ==> saves_title(
            run.start(),
            run.events[p + 1],
            run.actions[p + 1],
        ),
        forall|j: int|
            0 <= j < run.len() && #[trigger] run.actions[j] is SaveTitle ==> j == p + 1
                && after_parse(run.start(), run.events[p]).meta_title_len > 0,
{
    let p = lemma_opf_inv(run, run.len() - 1);
    p->0
}

/// The directory of a path is what stands before its last slash.
pub proof fn law_directory_of_a_path(dir: Seq<char>, file: Seq<char>)
    requires
        !file.contains('/'),
    ensures
        dir_of(dir + seq!['/'] + file) == dir,
        dir_of(file) == Seq::<char>::empty(),
{
    lemma_dir_of_split(dir, file);
    lemma_dir_of_plain(file);
}

/// Opening a package changes nothing of the reader but the spine and the title,
/// and a title never outgrows the room for it.
pub proof fn law_opening_package_keeps_the_rest(
    pre: ReaderModel,
    event: OpfEvent,
    post: ReaderModel,
    action: OpfAction,
)
    requires
        opf_event_fits(pre, event),
        opf_step(pre, event, post, action),
    ensures
        post == (ReaderModel {
            spine: post.spine,
            meta_title: post.meta_title,
            meta_title_len: post.meta_title_len,
            title: post.title,
            title_len: post.title_len,
            ..pre
        }),
        post.title.len() == pre.title.len(),
        pre.title_len <= pre.title.len() ==> post.title_len <= post.title.len(),
{
}

/// `event` is an outcome of `action`, for a cache that is looked up.
pub open spec fn check_answers<E>(action: CheckAction<E>, event: CheckEvent<E>) -> bool {
    match action {
        CheckAction::ReadRecord { dir: _, cap: _ } => event is RecordRead,
        CheckAction::ParseRecord { len: _, archive_size: _, name_hash: _, spine_len: _ } =>
            event is RecordParsed,
        CheckAction::EnsureDir { dir: _ } => event is DirReady,
        CheckAction::Done(_) => false,
    }
}

/// How many more answers an action can lead to.
pub open spec fn check_answers_left<E>(action: CheckAction<E>) -> nat {
    match action {
        CheckAction::ReadRecord { dir: _, cap: _ } => 3,
        CheckAction::ParseRecord { len: _, archive_size: _, name_hash: _, spine_len: _ } => 2,
        CheckAction::EnsureDir { dir: _ } => 1,
        CheckAction::Done(_) => 0,
    }
}

/// Each answer brings the look-up of a cache closer to its end; it finds a cache
/// exactly where a record was parsed that matches, and it fails exactly where
/// the cache directory cannot be made: a record that cannot be read is no
/// failure.
pub proof fn law_cache_is_looked_up<E>(
    asked: CheckAction<E>,
    pre: ReaderModel,
    event: CheckEvent<E>,
    post: ReaderModel,
    action: CheckAction<E>,
)
    requires
        check_answers(asked, event),
        check_step(pre, event, post, action),
    ensures
        check_answers_left(action) < check_answers_left(asked),
        action == CheckAction::<E>::Done(Ok(true)) <==> (event matches CheckEvent::RecordParsed {
            sizes: _,
            count: Some(_),
        }),
        action matches CheckAction::Done(Err(_)) <==> event matches CheckEvent::DirReady(Err(_)),
{
}

/// What a record of sizes is encoded to, and what a record is parsed to: the
/// table of sizes as it is left, given what it was, and the number of chapters
/// that the record lists, where it matches.
pub struct RecordFormat {
    pub encode: spec_fn(u32, u32, Seq<u32>) -> Seq<u8>,
    pub parse: spec_fn(Seq<u8>, u32, u32, int, Seq<u32>) -> (Seq<u32>, Option<int>),
}

impl RecordFormat {
    /// To parse the record of a book of this size and hash whose chapters have
    /// these sizes undoes encoding it, whatever the table held.
    pub open spec fn inverts(self, size: u32, hash: u32, sizes: Seq<u32>, table: Seq<u32>) -> bool {
        let (after, count) = (self.parse)(
            (self.encode)(size, hash, sizes),
            size,
            hash,
            sizes.len() as int,
            table,
        );
        &&& count == Some(sizes.len() as int)
        &&& after.len() == table.len()
        &&& after.subrange(0, sizes.len() as int) == sizes
    }
}

/// The cache record is written, from `written` on: it was encoded as `format`
/// says, which gave `record`, and `record` was written to the directory `dir`.
pub open spec fn writes_record<E>(
    written: ReaderModel,
    format: RecordFormat,
    record: Seq<u8>,
    dir: Seq<char>,
    finished: ReaderModel,
) -> bool {
    exists|encode: FinishAction<E>, data: Vec<u8>, write: FinishAction<E>, done: FinishAction<E>|
        {
            &&& #[trigger] finish_step(written, FinishEvent::Begin, written, encode)
            &&& encode matches FinishAction::Encode { archive_size, name_hash, sizes }
            &&& data@ == (format.encode)(archive_size, name_hash, sizes@)
            &&& #[trigger] finish_step(written, FinishEvent::Encoded(data), written, write)
            &&& write matches FinishAction::Write { dir: to, data: bytes }
            &&& to@ == dir
            &&& bytes@ == record
            &&& #[trigger] finish_step(written, FinishEvent::Written(Ok(())), finished, done)
            &&& done matches FinishAction::Done(Ok(_))
        }
}

/// A cache that was recorded is found again. Take a book whose record was
/// written, and the same book, going by its size, its hash, its cache directory
/// and its spine, opened later. Its record is looked for where it was written,
/// and all of it is asked for; where the read gives back the bytes that were
/// written, and they are parsed, the cache is there: every chapter is cached,
/// with the size that it had.
pub proof fn law_recorded_cache_is_found<E>(
    format: RecordFormat,
    written: ReaderModel,
    record: Seq<u8>,
    dir: Seq<char>,
    finished: ReaderModel,
    opened: ReaderModel,
    read: CheckAction<E>,
    n: usize,
    page: Seq<u8>,
    parse: CheckAction<E>,
    sizes: Vec<u32>,
    count: Option<usize>,
    post: ReaderModel,
    action: CheckAction<E>,
)
    requires
        format.inverts(
            written.archive_size,
            written.name_hash,
            written.chapter_sizes.subrange(0, written.spine.len() as int),
            opened.chapter_sizes,
        ),
        written.spine.len() <= written.chapter_sizes.len(),
        writes_record::<E>(written, format, record, dir, finished),
        opened.wf(),
        opened.archive_size == finished.archive_size,
        opened.name_hash == finished.name_hash,
        opened.cache_dir == finished.cache_dir,
        opened.spine == finished.spine,
        opened.limits.meta_max <= opened.limits.page_buf,
        record.len() <= opened.limits.meta_max,
        // the three steps of the look-up
        check_step(opened, CheckEvent::<E>::Begin, opened, read),
        n == record.len(),
        n <= page.len(),
        page.subrange(0, n as int) == record,
        check_step(opened, CheckEvent::<E>::RecordRead(Ok(n)), opened, parse),
        parse matches CheckAction::ParseRecord { len, archive_size, name_hash, spine_len } && (
        format.parse)(
            page.subrange(0, len as int),
            archive_size,
            name_hash,
            spine_len as int,
            opened.chapter_sizes,
        ) == (
            sizes@,
            match count {
                Some(count) => Some(count as int),
                None => None,
            },
        ),
        check_step(opened, CheckEvent::<E>::RecordParsed { sizes, count }, post, action),
    ensures
        read matches CheckAction::ReadRecord { dir: from, cap } && from@ == dir && record.len()
            <= cap,
        check_event_fits(opened, CheckEvent::<E>::RecordParsed { sizes, count }),
        action == CheckAction::<E>::Done(Ok(true)),
        finished.chapters_cached,
        post.chapters_cached,
        post.spine == written.spine,
        post.chapter_sizes.subrange(0, post.spine.len() as int)
            == written.chapter_sizes.subrange(0, written.spine.len() as int),
        forall|ch: int| 0 <= ch < post.spine.len() ==> #[trigger] post.has_chapter(ch),
{
    let saved = written.chapter_sizes.subrange(0, written.spine.len() as int);
    assert(record == (format.encode)(written.archive_size, written.name_hash, saved));
}

/// A cache that is not there is built from the first chapter on: the background
/// scan has passed none of them.
pub proof fn law_missing_cache_is_built_anew<E>(
    pre: ReaderModel,
    event: CheckEvent<E>,
    post: ReaderModel,
    action: CheckAction<E>,
)
    requires
        check_step(pre, event, post, action),
        action == CheckAction::<E>::Done(Ok(false)),
    ensures
        post.cache_chapter == 0,
        post.scanned_is_cached(),
        post.ch_cached == pre.ch_cached,
{
}

} // verus!
