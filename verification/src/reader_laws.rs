//! What the words mean in which the contracts are written.
use vstd::prelude::*;
use vstd::utf8::{encode_utf8, encode_utf8_decode_utf8, encode_utf8_valid_utf8, valid_utf8};
use crate::memory::{reserves, zeros, Room};
use crate::reader::{ReaderApp, ReaderModel};

verus! {

/// `text` is what `bytes` say: the text that they encode, or nothing where they
/// are not UTF-8.
pub open spec fn reads_as(bytes: Seq<u8>, text: Seq<char>) -> bool {
    if valid_utf8(bytes) {
        bytes == encode_utf8(text)
    } else {
        text.len() == 0
    }
}

/// A file whose name encodes a text goes by that text, and one whose name encodes
/// none goes by no name. So two files with different text names are told apart.
pub proof fn law_file_goes_by_its_name(reader: ReaderModel, text: Seq<char>)
    requires
        reads_as(reader.name, text),
    ensures
        reader.file_name() == text,
        valid_utf8(reader.name) ==> encode_utf8(reader.file_name()) == reader.name,
{
    if valid_utf8(reader.name) {
        encode_utf8_decode_utf8(text);
    } else {
        assert(reader.file_name() =~= text);
    }
}

/// Every text is the name of a file: the one whose name encodes it.
pub proof fn law_every_text_is_a_name(reader: ReaderModel, text: Seq<char>)
    requires
        reader.name == encode_utf8(text),
    ensures
        reader.file_name() == text,
{
    encode_utf8_valid_utf8(text);
    encode_utf8_decode_utf8(text);
}

/// Chapter `ch` has a slot in each of the two tables, and a number that a scan can
/// pass.
pub open spec fn has_room_for(reader: ReaderModel, ch: int) -> bool {
    &&& ch < reader.chapter_sizes.len()
    &&& ch < reader.ch_cached.len()
    &&& ch < 65535
}

/// A state is well-formed exactly where there is room for every chapter of the
/// book.
pub proof fn law_well_formed_has_room_for_every_chapter(reader: ReaderModel)
    ensures
        reader.wf() <==> forall|ch: int|
            0 <= ch < reader.spine.len() ==> #[trigger] has_room_for(reader, ch),
{
    if !reader.wf() {
        assert(!has_room_for(reader, reader.spine.len() - 1));
    }
}

/// What the contracts say of a reader they say of its fields: each is in the model
/// as it is.
pub proof fn law_model_is_the_state(app: ReaderApp)
    ensures
        app@.limits == app.limits,
        app@.name == app.name@,
        app@.is_epub == app.is_epub,
        app@.title == app.title@,
        app@.title_len == app.title_len,
        app@.file_size == app.file_size,
        app@.archive_size == app.epub.archive_size,
        app@.name_hash == app.epub.name_hash,
        app@.cache_dir == app.epub.cache_dir@,
        app@.spine == app.epub.spine@,
        app@.meta_title == app.epub.meta_title@,
        app@.meta_title_len == app.epub.meta_title_len,
        app@.chapter == app.epub.chapter,
        app@.chapter_sizes == app.epub.chapter_sizes@,
        app@.ch_cached == app.epub.ch_cached@,
        app@.chapters_cached == app.epub.chapters_cached,
        app@.ch_cache == app.epub.ch_cache@,
        app@.cache_chapter == app.epub.cache_chapter,
        app@.bg_cache == app.epub.bg_cache,
        app@.img_cache_ch == app.epub.img_cache_ch,
        app@.img_cache_offset == app.epub.img_cache_offset,
        app@.img_scan_wrapped == app.epub.img_scan_wrapped,
{
}

/// A chapter that the reader has is one of the book, and marked as cached.
pub proof fn law_reader_has_cached_chapters_of_the_book(reader: ReaderModel, ch: int)
    ensures
        reader.has_chapter(ch) <==> 0 <= ch < reader.spine.len() && reader.ch_cached[ch] == true,
{
}

/// Memory for `size` bytes that is there is for exactly that many, and is as many
/// bytes of zero once it is filled. It can be missing only where there is
/// something to be stored.
pub proof fn law_room_is_as_large_as_asked(size: nat, room: Option<Room>)
    ensures
        reserves(size, room) <==> match room {
            Some(room) => room.spec_size() == size,
            None => size != 0,
        },
        zeros(size).len() == size,
        forall|i: int| 0 <= i < size ==> #[trigger] zeros(size)[i] == 0,
{
}

} // verus!
