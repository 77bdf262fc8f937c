//! What holds of a chapter from the archive to the page.
use vstd::prelude::*;
use crate::chapter::ChapterAction;
use crate::chapter_laws::{
    acts_on_file, law_cache_file_is_what_was_streamed, ChapterRun, StreamRun,
};
use crate::load::LoadAction;
use crate::load_laws::{can_be_kept, files_answer, law_load_brings_the_file, LoadRun};

verus! {

/// What is read is what was streamed. Take a chapter that was cached: its cache
/// file is then what `files` says, and the stream reported how much text it gave.
/// When that chapter is loaded, from the cache directory of the same book and with
/// the size that caching has left in the table, the text in memory is the text
/// that was streamed, all of it and nothing else, whatever the file, the table and
/// the memory held before.
pub proof fn law_text_that_is_read_was_streamed<E>(
    caching: ChapterRun<E>,
    before: Seq<Seq<u8>>,
    stream: StreamRun<'_, E>,
    loading: LoadRun<E>,
    files: spec_fn(Seq<char>, u16) -> Seq<u8>,
)
    requires
        caching.valid(),
        caching.is_wanted(),
        caching.actions.last() == ChapterAction::<E>::Done(Ok(())),
        acts_on_file(caching, before, stream),
        files(stream.dir, stream.ch) == before.last(),
        caching.end().chapter_sizes[caching.ch as int] == stream.chunks().flatten().len(),
        loading.valid(),
        loading.actions.last() is Done,
        loading.start().cache_dir == caching.start().cache_dir,
        loading.start().chapter == caching.ch,
        loading.start().chapter_sizes == caching.end().chapter_sizes,
        can_be_kept(loading.start()),
        loading.start().ch_cache.len() != loading.start().chapter_sizes[caching.ch as int],
        loading.start().limits.page_buf > 0,
        forall|i: int|
            0 < i < loading.len() ==> files_answer(
                files,
                loading.states[i].ch_cache,
                loading.actions[i - 1],
                #[trigger] loading.events[i],
            ),
    ensures
        loading.actions.last() == LoadAction::Done(true),
        loading.end().ch_cache == stream.chunks().flatten(),
{
    law_cache_file_is_what_was_streamed(caching, before, stream);
    law_load_brings_the_file(loading, files);
    assert(loading.end().ch_cache =~= stream.chunks().flatten());
}

} // verus!
