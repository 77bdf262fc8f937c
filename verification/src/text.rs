//! Text: decoding UTF-8 and splitting a path.
use vstd::prelude::*;
use vstd::string::*;
use vstd::utf8::{
    char_u32_cast, decode_utf8, decode_utf8_split, encode_scalar, encode_utf8,
    encode_utf8_decode_utf8, encode_utf8_first_scalar, encode_utf8_valid_utf8, is_char_boundary,
    is_char_boundary_iff_not_is_continuation_byte, valid_utf8,
};

verus! {

/// Calls `core::str::from_utf8`: the bytes are UTF-8 exactly where it returns
/// text, and the text is what the bytes encode.
#[verifier::external_body]
fn from_utf8(bytes: &[u8]) -> (text: Option<&str>)
    ensures
        text is Some <==> valid_utf8(bytes@),
        text matches Some(text) ==> text@ == decode_utf8(bytes@),
{
    core::str::from_utf8(bytes).ok()
}

/// The text that `bytes` encode, if they are UTF-8.
pub fn utf8_text(bytes: &[u8]) -> (text: Option<String>)
    ensures
        text is Some <==> valid_utf8(bytes@),
        text matches Some(text) ==> text@ == decode_utf8(bytes@),
{
    match from_utf8(bytes) {
        Some(text) => Some(text.to_owned()),
        None => None,
    }
}

/// What stands before the last slash of `path`, or nothing where it has none.
pub open spec fn dir_of(path: Seq<char>) -> Seq<char>
    decreases path.len(),
{
    if path.len() == 0 {
        path
    } else if path.last() == '/' {
        path.drop_last()
    } else {
        dir_of(path.drop_last())
    }
}

/// A path without a slash has no directory.
pub proof fn lemma_dir_of_plain(path: Seq<char>)
    requires
        !path.contains('/'),
    ensures
        dir_of(path) == Seq::<char>::empty(),
    decreases path.len(),
{
    if path.len() != 0 {
        assert(path.contains(path.last()));
        assert forall|i: int| 0 <= i < path.drop_last().len() implies path.drop_last()[i]
            != '/' by {
            assert(path.contains(path[i]));
        }
        lemma_dir_of_plain(path.drop_last());
    }
}

/// The directory of a path whose last slash stands behind `dir`.
pub proof fn lemma_dir_of_split(dir: Seq<char>, file: Seq<char>)
    requires
        !file.contains('/'),
    ensures
        dir_of(dir + seq!['/'] + file) == dir,
    decreases file.len(),
{
    let path = dir + seq!['/'] + file;
    if file.len() == 0 {
        assert(path.drop_last() =~= dir);
    } else {
        assert(file.contains(file.last()));
        assert(path.drop_last() =~= dir + seq!['/'] + file.drop_last());
        assert forall|i: int| 0 <= i < file.drop_last().len() implies file.drop_last()[i]
            != '/' by {
            assert(file.contains(file[i]));
        }
        lemma_dir_of_split(dir, file.drop_last());
    }
}

/// The bytes of a text begin with those of its first character, of which there
/// is at least one.
proof fn lemma_encode_head(chars: Seq<char>)
    requires
        chars.len() > 0,
    ensures
        encode_utf8(chars) == encode_scalar(chars[0] as u32) + encode_utf8(chars.drop_first()),
        encode_scalar(chars[0] as u32).len() >= 1,
{
}

/// A slash is a single byte.
proof fn lemma_slash_scalar()
    ensures
        encode_scalar('/' as u32) == seq![0x2fu8],
{
    char_u32_cast('/', 0x2f);
    assert((0x2fu32 & 0x7f) as u8 == 0x2f) by (bit_vector);
}

/// A slash in a text shows in the bytes that encode it, no earlier than in the
/// text.
#[verifier::spinoff_prover]
proof fn lemma_slash_byte(chars: Seq<char>, k: int) -> (j: int)
    requires
        0 <= k < chars.len(),
        chars[k] == '/',
    ensures
        k <= j < encode_utf8(chars).len(),
        encode_utf8(chars)[j] == 0x2f,
    decreases chars.len(),
{
    let head = encode_scalar(chars[0] as u32);
    let tail = encode_utf8(chars.drop_first());
    lemma_encode_head(chars);
    if k == 0 {
        lemma_slash_scalar();
        assert((head + tail)[0] == head[0]);
        0
    } else {
        let rest = lemma_slash_byte(chars.drop_first(), k - 1);
        assert((head + tail)[head.len() + rest] == tail[rest]);
        head.len() + rest
    }
}

/// A text that is split where the last slash of its bytes stands.
proof fn lemma_split_at_slash(path: Seq<char>, i: int, dir: Seq<char>, rest: Seq<char>)
    requires
        0 <= i < encode_utf8(path).len(),
        encode_utf8(path)[i] == 0x2f,
        forall|j: int| i < j < encode_utf8(path).len() ==> encode_utf8(path)[j] != 0x2f,
        is_char_boundary(encode_utf8(path), i),
        encode_utf8(dir) == encode_utf8(path).subrange(0, i),
        encode_utf8(rest) == encode_utf8(path).subrange(i, encode_utf8(path).len() as int),
    ensures
        dir == dir_of(path),
{
    let bytes = encode_utf8(path);
    encode_utf8_valid_utf8(path);
    decode_utf8_split(bytes, i);
    encode_utf8_decode_utf8(path);
    encode_utf8_decode_utf8(dir);
    encode_utf8_decode_utf8(rest);
    assert(encode_utf8(rest)[0] == bytes[i]);
    assert((0x2fu8 & 0x7f) as u32 == 0x2f) by (bit_vector);
    encode_utf8_first_scalar(rest);
    let file = rest.drop_first();
    if file.contains('/') {
        let k = file.index_of('/');
        let j = lemma_slash_byte(rest, k + 1);
        assert(bytes[i + j] == encode_utf8(rest)[j]);
    }
    assert(path == dir + rest);
    char_u32_cast(rest[0], 0x2f);
    char_u32_cast('/', 0x2f);
    assert(path =~= dir + seq!['/'] + file);
    lemma_dir_of_split(dir, file);
}

/// What stands before the last slash of `path`, or nothing where it has none.
pub fn parent_dir(path: &str) -> (dir: &str)
    ensures
        dir@ == dir_of(path@),
{
    let bytes = path.as_bytes();
    let mut i: usize = bytes.len();
    while i > 0
        invariant
            i <= bytes@.len(),
            bytes@ == encode_utf8(path@),
            forall|j: int| i <= j < bytes@.len() ==> bytes@[j] != 0x2f,
        decreases i,
    {
        i = i - 1;
        if bytes[i] == 0x2f {
            proof {
                encode_utf8_valid_utf8(path@);
                is_char_boundary_iff_not_is_continuation_byte(bytes@, i as int);
            }
            let (dir, rest) = path.split_at(i);
            proof {
                lemma_split_at_slash(path@, i as int, dir@, rest@);
            }
            return dir;
        }
    }
    proof {
        reveal_strlit("");
        if path@.contains('/') {
            let j = lemma_slash_byte(path@, path@.index_of('/'));
        }
        lemma_dir_of_plain(path@);
    }
    ""
}

} // verus!
