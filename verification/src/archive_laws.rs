//! What opening an archive comes to, in terms of the file that is opened.
use vstd::prelude::*;
use crate::archive::{zip_event_fits, zip_step, ZipAction, ZipEvent};
use crate::error::{Error, Fault};
use crate::open_laws::{zip_answers, ZipRun};
use crate::reader::ReaderModel;
use crate::reader_laws::{law_file_goes_by_its_name, law_room_is_as_large_as_asked, reads_as};

verus! {

/// The size of the file, where the caller has told one that an archive can have.
pub open spec fn told_size<E>(run: ZipRun<E>, i: int) -> Option<u32> {
    if i < 1 {
        None
    } else {
        match run.events[1] {
            ZipEvent::FileSize(Ok(size)) => if size >= 22 {
                Some(size)
            } else {
                None
            },
            _ => None,
        }
    }
}

/// The reader has taken what it was told up to step `i`, and nothing else has
/// changed.
pub open spec fn has_taken<E>(run: ZipRun<E>, i: int) -> bool {
    let start = run.start();
    let now = run.states[i + 1];
    &&& now == ReaderModel {
        archive_size: now.archive_size,
        name_hash: now.name_hash,
        cache_dir: now.cache_dir,
        ..start
    }
    &&& now.archive_size == match told_size(run, i) {
        Some(size) => size,
        None => start.archive_size,
    }
    &&& if i < 2 {
        now.name_hash == start.name_hash && now.cache_dir == start.cache_dir
    } else {
        run.events[2] matches ZipEvent::NameHashed { hash, dir } && now.name_hash == hash
            && now.cache_dir == dir@
    }
}

/// What is asked for in step `i`, in terms of what the caller has told before:
/// `text` is the name of the file.
pub open spec fn asks_rightly<E>(run: ZipRun<E>, text: Seq<char>, i: int) -> bool {
    let tail_max = run.start().limits.eocd_tail;
    match run.actions[i] {
        ZipAction::AskFileSize { name } => i == 0 && name@ == text,
        ZipAction::HashName { name } => i == 1 && name@ == text && told_size(run, 1) is Some,
        ZipAction::ReadTail { name, offset, len } => {
            &&& i == 2
            &&& name@ == text
            &&& told_size(run, 1) matches Some(size)
            &&& offset + len == size
            &&& len == size && size <= tail_max || len == tail_max && tail_max < size
        },
        ZipAction::ParseEocd { len, archive_size } => {
            &&& i == 3
            &&& run.events[3] matches ZipEvent::TailRead(Ok(n))
            &&& len == n
            &&& told_size(run, 1) == Some(archive_size)
        },
        ZipAction::ReserveDirectory { offset, size } => {
            &&& i == 4
            &&& run.events[4] matches ZipEvent::EocdParsed(Some((at, length)))
            &&& offset == at
            &&& size == length
        },
        ZipAction::ReadDirectory { name, offset, buf } => {
            &&& i == 5
            &&& name@ == text
            &&& run.events[4] matches ZipEvent::EocdParsed(Some((at, length)))
            &&& offset == at
            &&& buf@.len() == length
            &&& forall|k: int| 0 <= k < length ==> buf@[k] == 0
        },
        ZipAction::ParseDirectory { data } => {
            &&& i == 6
            &&& run.events[6] matches ZipEvent::DirectoryRead(Ok(directory))
            &&& data@ == directory@
        },
        ZipAction::Done(result) => match run.events[i] {
            ZipEvent::FileSize(Ok(size)) => size < 22 && result == Err::<(), Error<E>>(
                Error::Fault(Fault::ZipTooSmall),
            ),
            ZipEvent::FileSize(Err(e))
            | ZipEvent::TailRead(Err(e))
            | ZipEvent::DirectoryRead(Err(e)) => result == Err::<(), Error<E>>(Error::Kernel(e)),
            ZipEvent::EocdParsed(None) => result == Err::<(), Error<E>>(Error::Fault(Fault::Eocd)),
            ZipEvent::DirectoryReserved { offset: _, room: None } => result == Err::<(), Error<E>>(
                Error::Fault(Fault::DirectoryAlloc),
            ),
            ZipEvent::DirectoryParsed(true) => i == 7 && result is Ok,
            ZipEvent::DirectoryParsed(false) => result == Err::<(), Error<E>>(
                Error::Fault(Fault::DirectoryParse),
            ),
            _ => false,
        },
    }
}

/// Whatever the caller tells, each step of an opening asks for what follows from
/// it: the size of the file; the hash of its name; its last bytes, as many as are
/// searched, or all of a file that has fewer; what the bytes that were read say;
/// memory for the directory of which they speak; that directory, whole; and what
/// the bytes of it say, all of them and no others. It ends with a success only
/// after that, and otherwise with the failure that it was told. Meanwhile the
/// reader takes the size, the hash and the cache directory as they are told, and
/// changes nothing else.
pub proof fn law_opening_asks_for_what_follows<E>(run: ZipRun<E>, text: Seq<char>, i: int)
    requires
        run.valid(),
        reads_as(run.start().name, text),
        0 <= i < run.len(),
    ensures
        has_taken(run, i),
        asks_rightly(run, text, i),
    decreases i,
{
    assert(zip_step(run.states[i], run.events[i], run.states[i + 1], run.actions[i]));
    if i == 0 {
        law_file_goes_by_its_name(run.start(), text);
    } else {
        law_opening_asks_for_what_follows(run, text, i - 1);
        law_file_goes_by_its_name(run.states[i], text);
        assert(zip_answers(run.actions[i - 1], run.events[i]));
        if let ZipEvent::DirectoryReserved { offset: _, room } = run.events[i] {
            if let ZipAction::ReserveDirectory { offset: _, size } = run.actions[i - 1] {
                law_room_is_as_large_as_asked(size as nat, room);
            }
        }
    }
}

/// An opening asks nothing of its events beyond that the tail that is searched
/// fits into the page buffer, and so does what was read of it.
pub proof fn law_opening_answers_fit<E>(run: ZipRun<E>, text: Seq<char>, i: int)
    requires
        run.valid(),
        reads_as(run.start().name, text),
        0 <= i < run.len(),
        run.start().limits.eocd_tail <= run.start().limits.page_buf || (told_size(
            run,
            i,
        ) matches Some(size) ==> size <= run.start().limits.page_buf),
        run.events[i] matches ZipEvent::TailRead(Ok(n)) ==> n <= run.start().limits.page_buf,
    ensures
        zip_event_fits(run.states[i], run.events[i]),
{
    law_opening_asks_for_what_follows(run, text, i);
    if i > 0 {
        law_opening_asks_for_what_follows(run, text, i - 1);
        assert(zip_answers(run.actions[i - 1], run.events[i]));
    }
}

/// The files on a disk, and what names and formats come to.
pub struct Disk {
    /// What each file holds.
    pub file: spec_fn(Seq<char>) -> Seq<u8>,
    pub hash: spec_fn(Seq<char>) -> u32,
    /// The cache directory that goes with a hash.
    pub dir: spec_fn(u32) -> Seq<char>,
    /// Where the tail of an archive of some size says that the directory lies.
    pub eocd: spec_fn(Seq<u8>, u32) -> Option<(u32, u32)>,
    /// Whether bytes are a central directory.
    pub directory: spec_fn(Seq<u8>) -> bool,
}

/// `event` is what `action` comes to on the disk, with memory enough; `page` is
/// what the page buffer holds behind the tail read.
pub open spec fn disk_answers<E>(
    disk: Disk,
    page: Seq<u8>,
    action: ZipAction<E>,
    event: ZipEvent<E>,
) -> bool {
    match action {
        ZipAction::AskFileSize { name } => event matches ZipEvent::FileSize(Ok(size)) && size == (
        disk.file)(name@).len(),
        ZipAction::HashName { name } => event matches ZipEvent::NameHashed { hash, dir } && hash
            == (disk.hash)(name@) && dir@ == (disk.dir)(hash),
        ZipAction::ReadTail { name, offset, len } => event matches ZipEvent::TailRead(Ok(n)) && n
            == len && n <= page.len() && (offset + n <= (disk.file)(name@).len() ==> page.subrange(
            0,
            n as int,
        ) == (disk.file)(name@).subrange(offset as int, offset + n)),
        ZipAction::ParseEocd { len, archive_size } => event == ZipEvent::<E>::EocdParsed(
            (disk.eocd)(page.subrange(0, len as int), archive_size),
        ),
        ZipAction::ReserveDirectory { offset: _, size: _ } =>
            event matches ZipEvent::DirectoryReserved { offset: _, room: Some(_) },
        ZipAction::ReadDirectory { name, offset, buf } => if offset + buf@.len() <= (disk.file)(
            name@,
        ).len() {
            event matches ZipEvent::DirectoryRead(Ok(data)) && data@ == (disk.file)(
                name@,
            ).subrange(offset as int, offset + buf@.len())
        } else {
            event matches ZipEvent::DirectoryRead(Err(_))
        },
        ZipAction::ParseDirectory { data } => event == ZipEvent::<E>::DirectoryParsed(
            (disk.directory)(data@),
        ),
        ZipAction::Done(_) => false,
    }
}

/// What becomes of opening a file is settled by what the file holds. Its last
/// bytes say where its directory lies; the archive opens exactly where the bytes
/// of the file at that very place, all of them, are a directory; and the reader
/// then has the size of the file, the hash of its name and the cache directory of
/// that hash.
pub proof fn law_archive_is_opened_from_its_file<E>(
    run: ZipRun<E>,
    disk: Disk,
    page: Seq<u8>,
    text: Seq<char>,
)
    requires
        run.valid(),
        run.actions.last() is Done,
        reads_as(run.start().name, text),
        forall|i: int|
            0 < i < run.len() ==> disk_answers(
                disk,
                page,
                run.actions[i - 1],
                #[trigger] run.events[i],
            ),
    ensures
        ({
            let file = (disk.file)(text);
            let most = run.start().limits.eocd_tail as int;
            let searched = if file.len() <= most {
                file
            } else {
                file.subrange(file.len() - most, file.len() as int)
            };
            let result = run.actions.last();
            if file.len() < 22 {
                &&& run.end() == run.start()
                &&& result == ZipAction::<E>::Done(Err(Error::Fault(Fault::ZipTooSmall)))
            } else {
                &&& run.end().archive_size == file.len()
                &&& run.end().name_hash == (disk.hash)(text)
                &&& run.end().cache_dir == (disk.dir)((disk.hash)(text))
                &&& match (disk.eocd)(searched, file.len() as u32) {
                    None => result == ZipAction::<E>::Done(Err(Error::Fault(Fault::Eocd))),
                    Some((at, size)) => if at + size > file.len() {
                        result matches ZipAction::Done(Err(Error::Kernel(_)))
                    } else if (disk.directory)(file.subrange(at as int, at + size)) {
                        result matches ZipAction::Done(Ok(_))
                    } else {
                        result == ZipAction::<E>::Done(Err(Error::Fault(Fault::DirectoryParse)))
                    },
                }
            }
        }),
{
    let n = run.len() as int;
    let file = (disk.file)(text);
    let most = run.start().limits.eocd_tail as int;
    law_opening_asks_for_what_follows(run, text, n - 1);
    assert forall|i: int| 0 <= i < n implies #[trigger] asks_rightly(run, text, i) && has_taken(
        run,
        i,
    ) by {
        law_opening_asks_for_what_follows(run, text, i);
    }
    assert forall|i: int| 0 <= i < n - 1 implies #[trigger] run.actions[i] !is Done by {
        assert(zip_answers(run.actions[i + 1 - 1], run.events[i + 1]));
    }
    assert(asks_rightly(run, text, 0));
    assert(zip_step(run.states[0], run.events[0], run.states[1], run.actions[0]));
    assert(n > 1);
    assert(disk_answers(disk, page, run.actions[0], run.events[1]));
    assert(asks_rightly(run, text, 1));
    if file.len() >= 22 {
        assert(n > 2);
        assert(disk_answers(disk, page, run.actions[1], run.events[2]));
        assert(asks_rightly(run, text, 2));
        assert(n > 3);
        assert(disk_answers(disk, page, run.actions[2], run.events[3]));
        assert(asks_rightly(run, text, 3));
        assert(n > 4);
        assert(disk_answers(disk, page, run.actions[3], run.events[4]));
        assert(asks_rightly(run, text, 4));
        assert(file.subrange(0, file.len() as int) =~= file);
        if n > 5 {
            assert(disk_answers(disk, page, run.actions[4], run.events[5]));
            assert(asks_rightly(run, text, 5));
            assert(n > 6);
            assert(disk_answers(disk, page, run.actions[5], run.events[6]));
            assert(asks_rightly(run, text, 6));
            if n > 7 {
                assert(disk_answers(disk, page, run.actions[6], run.events[7]));
                assert(asks_rightly(run, text, 7));
            }
        }
    }
}

} // verus!
