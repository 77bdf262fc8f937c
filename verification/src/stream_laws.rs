//! What the streamer gets and leaves, in terms of what is stored.
use vstd::prelude::*;
use crate::stream::{read_step, write_step, ReadAction, ReadEvent, WriteAction, WriteEvent};

verus! {

/// `got` is what the storage, whose files hold `files`, delivers for `action`: the
/// bytes of a file from some place on, no more than were asked for, and, where the
/// read is `complete`, no fewer than that and the end of the file allow.
pub open spec fn delivers<E>(
    files: spec_fn(Seq<char>) -> Seq<u8>,
    action: ReadAction<'_, E>,
    got: Seq<u8>,
    complete: bool,
) -> bool {
    &&& action matches ReadAction::ReadChunk { name, offset, len }
    &&& got.len() <= len
    &&& got.len() > 0 ==> offset + got.len() <= files(name@).len()
    &&& forall|k: int| 0 <= k < got.len() ==> #[trigger] got[k] == files(name@)[offset + k]
    &&& complete ==> got.len() == len || offset + got.len() >= files(name@).len()
}

/// The reads of one stream from the archive `name`, with the action that each
/// asked for and the bytes that it brought.
pub struct ReadRun<'a, E> {
    pub name: Seq<char>,
    /// From where on each read is wanted, and how much.
    pub wanted: Seq<(u32, usize)>,
    pub actions: Seq<ReadAction<'a, E>>,
    pub got: Seq<Seq<u8>>,
    /// What the streamer is told of each read.
    pub told: Seq<ReadAction<'a, E>>,
}

impl<'a, E> ReadRun<'a, E> {
    pub open spec fn len(self) -> nat {
        self.wanted.len()
    }

    /// Each read is served as the end of the stream says, and the caller has
    /// performed what that asked for.
    pub open spec fn valid(
        self,
        files: spec_fn(Seq<char>) -> Seq<u8>,
        complete: bool,
    ) -> bool {
        &&& self.actions.len() == self.len()
        &&& self.got.len() == self.len()
        &&& self.told.len() == self.len()
        &&& forall|i: int| 0 <= i < self.len() ==> #[trigger] self.serves(files, complete, i)
    }

    /// Read `i` is served.
    pub open spec fn serves(
        self,
        files: spec_fn(Seq<char>) -> Seq<u8>,
        complete: bool,
        i: int,
    ) -> bool {
        let (offset, len) = self.wanted[i];
        &&& read_step(self.name, ReadEvent::<E>::Asked { offset, len }, self.actions[i])
        &&& delivers(files, self.actions[i], self.got[i], complete)
        &&& read_step(
            self.name,
            ReadEvent::<E>::Read(Ok(self.got[i].len() as usize)),
            self.told[i],
        )
    }
}

/// What the streamer gets is what the archive holds where it asked, and it is told
/// how much that is: each read brings the bytes of the archive from the offset on
/// that was asked for, no more than there is room for, and, of a storage that
/// delivers all it can, as many as there is room for or as the archive has left.
pub proof fn law_streamer_gets_what_the_archive_holds<E>(
    run: ReadRun<'_, E>,
    files: spec_fn(Seq<char>) -> Seq<u8>,
    complete: bool,
    i: int,
)
    requires
        run.valid(files, complete),
        0 <= i < run.len(),
    ensures
        ({
            let archive = files(run.name);
            let (offset, len) = run.wanted[i];
            let got = run.got[i];
            &&& got.len() <= len
            &&& got.len() > 0 ==> offset + got.len() <= archive.len() && got == archive.subrange(
                offset as int,
                offset + got.len(),
            )
            &&& complete ==> got.len() == len || offset + got.len() >= archive.len()
            &&& run.told[i] == ReadAction::<E>::Done(Ok(got.len() as usize))
        }),
{
    let archive = files(run.name);
    let (offset, len) = run.wanted[i];
    let got = run.got[i];
    assert(run.serves(files, complete, i));
    if got.len() > 0 {
        assert(got =~= archive.subrange(offset as int, offset + got.len()));
    }
}

/// Two reads of one stream agree wherever they overlap.
pub proof fn law_reads_agree<E>(
    run: ReadRun<'_, E>,
    files: spec_fn(Seq<char>) -> Seq<u8>,
    i: int,
    j: int,
    at: int,
)
    requires
        run.valid(files, false),
        0 <= i < run.len(),
        0 <= j < run.len(),
        run.wanted[i].0 <= at < run.wanted[i].0 + run.got[i].len(),
        run.wanted[j].0 <= at < run.wanted[j].0 + run.got[j].len(),
    ensures
        run.got[i][at - run.wanted[i].0] == run.got[j][at - run.wanted[j].0],
{
    law_streamer_gets_what_the_archive_holds(run, files, false, i);
    law_streamer_gets_what_the_archive_holds(run, files, false, j);
    let archive = files(run.name);
    let a = run.wanted[i].0 as int;
    let b = run.wanted[j].0 as int;
    assert(archive.subrange(a, a + run.got[i].len())[at - a] == archive[at]);
    assert(archive.subrange(b, b + run.got[j].len())[at - b] == archive[at]);
}

/// The streamer is told what became of each read and each write, good or bad, and
/// nothing else.
pub proof fn law_streamer_is_told_the_outcome<E>(
    name: Seq<char>,
    read: Result<usize, E>,
    read_told: ReadAction<'_, E>,
    dir: Seq<char>,
    ch: u16,
    written: Result<(), E>,
    write_told: WriteAction<'_, E>,
)
    requires
        read_step(name, ReadEvent::Read(read), read_told),
        write_step(dir, ch, WriteEvent::Written(written), write_told),
    ensures
        match read {
            Ok(n) => read_told == ReadAction::<E>::Done(Ok(n)),
            Err(e) => read_told == ReadAction::<E>::Done(Err(e)),
        },
        match written {
            Ok(_) => write_told matches WriteAction::Done(Ok(_)),
            Err(e) => write_told == WriteAction::<E>::Done(Err(e)),
        },
{
}

} // verus!
