//! What opening a package comes to, in terms of the archive that is opened.
use vstd::prelude::*;
use vstd::utf8::{decode_utf8_encode_utf8, encode_utf8, encode_utf8_valid_utf8, valid_utf8};
use crate::error::Fault;
use crate::open_laws::{law_title_is_shown_and_saved, opf_answers, OpfRun};
use crate::package::{opf_event_fits, opf_step, OpfAction, OpfEvent};
use crate::reader::ReaderModel;
use crate::reader_laws::{law_file_goes_by_its_name, reads_as};
use crate::text::{dir_of, lemma_dir_of_plain, lemma_dir_of_split};

verus! {

/// A path that lies in the directory `dir`: `dir` is all that stands before its
/// last slash, and nothing where it has none.
pub open spec fn lies_in(path: Seq<char>, dir: Seq<char>) -> bool {
    if path.contains('/') {
        exists|file: Seq<char>| !file.contains('/') && path == #[trigger] (dir + seq!['/'] + file)
    } else {
        dir.len() == 0
    }
}

/// What the parser has made of a package document.
pub struct Parsed {
    pub ok: bool,
    pub spine: Seq<usize>,
    pub title: Seq<u8>,
    pub title_len: usize,
}

/// What an archive holds, and what its documents say.
pub struct Contents {
    /// The entry at a path.
    pub find: spec_fn(Seq<char>) -> Option<usize>,
    /// The same, with upper and lower case taken as one.
    pub find_icase: spec_fn(Seq<char>) -> Option<usize>,
    /// The document in an entry of an archive.
    pub extract: spec_fn(Seq<char>, usize) -> Option<Seq<u8>>,
    /// The path of the package document that a container document names.
    pub container: spec_fn(Seq<u8>) -> Option<Seq<u8>>,
    /// The path of a package document that a look through the archive brings.
    pub scanned: Option<Seq<u8>>,
    /// What a package document says whose paths are relative to a directory.
    pub package: spec_fn(Seq<u8>, Seq<char>) -> Parsed,
    /// The title in the metadata, as text.
    pub title: Seq<char>,
}

/// The same bytes, or none in both.
pub open spec fn same_bytes(a: Option<Vec<u8>>, b: Option<Seq<u8>>) -> bool {
    match (a, b) {
        (Some(a), Some(b)) => a@ == b,
        (None, None) => true,
        _ => false,
    }
}

/// `event` is what `action` comes to in the archive.
pub open spec fn contents_answer(contents: Contents, action: OpfAction, event: OpfEvent) -> bool {
    match action {
        OpfAction::FindContainer { container } => event == OpfEvent::ContainerFound(
            (contents.find)(container@),
        ),
        OpfAction::ExtractContainer { name, entry } => event matches OpfEvent::ContainerRead(data)
            && same_bytes(data, (contents.extract)(name@, entry)),
        OpfAction::ParseContainer { data } => event matches OpfEvent::ContainerParsed(path)
            && same_bytes(path, (contents.container)(data@)),
        OpfAction::ScanForOpf => event matches OpfEvent::OpfScanned(path) && same_bytes(
            path,
            contents.scanned,
        ),
        OpfAction::FindOpf { path } => event matches OpfEvent::OpfFound { path: _, entry } && entry
            == (contents.find)(path@),
        OpfAction::FindOpfIcase { path } => event matches OpfEvent::OpfFoundIcase { path: _, entry }
            && entry == (contents.find_icase)(path@),
        OpfAction::ExtractOpf { name, path: _, entry } => event matches OpfEvent::OpfRead {
            path: _,
            document,
        } && same_bytes(document, (contents.extract)(name@, entry)),
        OpfAction::ParseOpf { data, dir } => event matches OpfEvent::OpfParsed {
            data: _,
            dir: _,
            ok,
            spine,
            title,
            title_len,
        } && (Parsed { ok, spine: spine@, title: title@, title_len }) == (contents.package)(
            data@,
            dir@,
        ),
        OpfAction::FindToc { data: _, dir: _ } => event matches OpfEvent::TocSearched { text }
            && text@ == contents.title,
        OpfAction::SaveTitle { name: _, title: _ } => event is TitleSaved,
        OpfAction::ClearToc => event is TocCleared,
        OpfAction::Done(_) => false,
    }
}

/// The bytes of the path of the package document: the container document names
/// it, and where there is none the archive is looked through. What is missing on
/// the way is the failure.
pub open spec fn path_bytes(contents: Contents, name: Seq<char>) -> Result<Seq<u8>, Fault> {
    match (contents.find)("META-INF/container.xml"@) {
        Some(entry) => match (contents.extract)(name, entry) {
            Some(container) => match (contents.container)(container) {
                Some(path) => Ok(path),
                None => Err(Fault::ContainerParse),
            },
            None => Err(Fault::ContainerRead),
        },
        None => match contents.scanned {
            Some(path) => Ok(path),
            None => Err(Fault::NoOpf),
        },
    }
}

/// The entry at `path`: the one at that very path, and only where there is none
/// the one at a path that differs in case.
pub open spec fn entry_at(contents: Contents, path: Seq<char>) -> Option<usize> {
    match (contents.find)(path) {
        Some(entry) => Some(entry),
        None => (contents.find_icase)(path),
    }
}

/// The reader has a package that says `parsed`, and its title on display: as much
/// of it as there is room for, in front of what the title's buffer held. A book
/// without a title leaves the old one there. Nothing else has changed.
pub open spec fn shows(start: ReaderModel, parsed: Parsed, end: ReaderModel) -> bool {
    &&& end == ReaderModel {
        spine: parsed.spine,
        meta_title: parsed.title,
        meta_title_len: parsed.title_len,
        title: end.title,
        title_len: end.title_len,
        ..start
    }
    &&& end.title.len() == start.title.len()
    &&& if parsed.title_len == 0 {
        end.title == start.title && end.title_len == start.title_len
    } else {
        &&& end.title_len <= parsed.title_len
        &&& end.title_len <= start.title.len()
        &&& end.title_len == parsed.title_len || end.title_len == start.title.len()
        &&& forall|k: int| 0 <= k < end.title_len ==> #[trigger] end.title[k] == parsed.title[k]
        &&& forall|k: int|
            end.title_len <= k < start.title.len() ==> #[trigger] end.title[k] == start.title[k]
    }
}

/// The reader has the spine and the title that the parser left, and nothing else
/// has changed.
pub open spec fn holds(start: ReaderModel, parsed: Parsed, end: ReaderModel) -> bool {
    end == ReaderModel {
        spine: parsed.spine,
        meta_title: parsed.title,
        meta_title_len: parsed.title_len,
        ..start
    }
}

/// A title of that many bytes is there as far as it goes on display.
pub open spec fn title_is_there(start: ReaderModel, parsed: Parsed) -> bool {
    parsed.title_len <= parsed.title.len() || start.title.len() <= parsed.title.len()
}

/// What `action` says of the contents, and of the state in which it is asked for:
/// `name` is the name of the archive.
spec fn on_the_way(
    contents: Contents,
    name: Seq<char>,
    start: ReaderModel,
    now: ReaderModel,
    action: OpfAction,
) -> bool {
    match action {
        OpfAction::FindContainer { container } => now == start && container@
            == "META-INF/container.xml"@,
        OpfAction::ExtractContainer { name: of, entry } => {
            &&& now == start
            &&& of@ == name
            &&& (contents.find)("META-INF/container.xml"@) == Some(entry)
        },
        OpfAction::ParseContainer { data } => {
            &&& now == start
            &&& (contents.find)("META-INF/container.xml"@) matches Some(entry)
            &&& (contents.extract)(name, entry) == Some(data@)
        },
        OpfAction::ScanForOpf => now == start && (contents.find)("META-INF/container.xml"@) is None,
        OpfAction::FindOpf { path } => now == start && path_bytes(contents, name) == Ok::<
            Seq<u8>,
            Fault,
        >(encode_utf8(path@)),
        OpfAction::FindOpfIcase { path } => {
            &&& now == start
            &&& path_bytes(contents, name) == Ok::<Seq<u8>, Fault>(encode_utf8(path@))
            &&& (contents.find)(path@) is None
        },
        OpfAction::ExtractOpf { name: of, path, entry } => {
            &&& now == start
            &&& of@ == name
            &&& path_bytes(contents, name) == Ok::<Seq<u8>, Fault>(encode_utf8(path@))
            &&& entry_at(contents, path@) == Some(entry)
        },
        OpfAction::ParseOpf { data, dir } => {
            &&& now == start
            &&& exists|path: Seq<char>|
                parses_document(contents, name, path, data@, dir@)
        },
        OpfAction::FindToc { data, dir } => {
            &&& holds(start, (contents.package)(data@, dir@), now)
            &&& (contents.package)(data@, dir@).ok
            &&& exists|path: Seq<char>|
                parses_document(contents, name, path, data@, dir@)
        },
        OpfAction::SaveTitle { name: of, title } => {
            &&& of@ == name
            &&& title@ == contents.title
            &&& now.meta_title_len > 0
            &&& has_opened(contents, name, start, now)
        },
        OpfAction::ClearToc => has_opened(contents, name, start, now),
        OpfAction::Done(Ok(_)) => has_opened(contents, name, start, now),
        OpfAction::Done(Err(fault)) => has_failed(contents, name, start, fault, now),
    }
}

/// `data` is the package document of the archive `name`: it is the one at `path`,
/// which lies in `dir`.
pub open spec fn parses_document(
    contents: Contents,
    name: Seq<char>,
    path: Seq<char>,
    data: Seq<u8>,
    dir: Seq<char>,
) -> bool {
    &&& path_bytes(contents, name) == Ok::<Seq<u8>, Fault>(encode_utf8(path))
    &&& lies_in(path, dir)
    &&& entry_at(contents, path) matches Some(entry)
    &&& (contents.extract)(name, entry) == Some(data)
}

/// The archive `name` holds a package document that parses, and the reader shows
/// what it says.
pub open spec fn has_opened(
    contents: Contents,
    name: Seq<char>,
    start: ReaderModel,
    end: ReaderModel,
) -> bool {
    exists|path: Seq<char>, data: Seq<u8>, dir: Seq<char>| #[trigger]
        parses_document(contents, name, path, data, dir) && (contents.package)(data, dir).ok && (
        title_is_there(start, (contents.package)(data, dir)) ==> shows(
            start,
            (contents.package)(data, dir),
            end,
        ))
}

/// The archive `name` is no book, and `fault` says what it wants for. What the
/// parser wrote before it failed stays.
pub open spec fn has_failed(
    contents: Contents,
    name: Seq<char>,
    start: ReaderModel,
    fault: Fault,
    end: ReaderModel,
) -> bool {
    match path_bytes(contents, name) {
        Err(missing) => fault == missing && end == start,
        Ok(bytes) => if !valid_utf8(bytes) {
            fault == Fault::OpfPath && end == start
        } else {
            exists|path: Seq<char>|
                {
                    &&& bytes == #[trigger] encode_utf8(path)
                    &&& match entry_at(contents, path) {
                        None => fault == Fault::OpfEntry && end == start,
                        Some(entry) => match (contents.extract)(name, entry) {
                            None => fault == Fault::OpfRead && end == start,
                            Some(data) => fault == Fault::OpfParse && fails_to_parse(
                                contents,
                                path,
                                data,
                                start,
                                end,
                            ),
                        },
                    }
                }
        },
    }
}

/// The document does not parse, and the reader has what the parser left.
pub open spec fn fails_to_parse(
    contents: Contents,
    path: Seq<char>,
    data: Seq<u8>,
    start: ReaderModel,
    end: ReaderModel,
) -> bool {
    exists|dir: Seq<char>| #[trigger]
        lies_in(path, dir) && !(contents.package)(data, dir).ok && holds(
            start,
            (contents.package)(data, dir),
            end,
        )
}

/// The directory of a path is the one in which it lies.
pub proof fn law_path_lies_in_its_directory(path: Seq<char>)
    ensures
        lies_in(path, dir_of(path)),
        forall|dir: Seq<char>| #[trigger] lies_in(path, dir) ==> dir == dir_of(path),
    decreases path.len(),
{
    assert forall|dir: Seq<char>| #[trigger] lies_in(path, dir) implies dir == dir_of(path) by {
        if path.contains('/') {
            let file = choose|file: Seq<char>|
                !file.contains('/') && path == #[trigger] (dir + seq!['/'] + file);
            lemma_dir_of_split(dir, file);
        } else {
            lemma_dir_of_plain(path);
            assert(dir =~= dir_of(path));
        }
    }
    if path.contains('/') {
        let file = lemma_last_slash(path);
        lemma_dir_of_split(file.0, file.1);
        assert(lies_in(path, file.0));
    } else {
        lemma_dir_of_plain(path);
    }
}

/// A path with a slash has a last one.
proof fn lemma_last_slash(path: Seq<char>) -> (split: (Seq<char>, Seq<char>))
    requires
        path.contains('/'),
    ensures
        !split.1.contains('/'),
        path == split.0 + seq!['/'] + split.1,
    decreases path.len(),
{
    let rest = path.drop_last();
    if path.last() == '/' {
        assert(path =~= rest + seq!['/'] + Seq::<char>::empty());
        (rest, Seq::empty())
    } else {
        let k = path.index_of('/');
        assert(rest[k] == '/');
        let (dir, file) = lemma_last_slash(rest);
        let longer = file.push(path.last());
        assert(path =~= rest.push(path.last()));
        assert(dir + seq!['/'] + longer =~= (dir + seq!['/'] + file).push(path.last()));
        assert forall|i: int| 0 <= i < longer.len() implies longer[i] != '/' by {
            if i < file.len() {
                assert(file.contains(file[i]));
            }
        }
        (dir, longer)
    }
}

/// Each step of opening a package keeps to the way.
proof fn lemma_stays_on_the_way(
    contents: Contents,
    name: Seq<char>,
    start: ReaderModel,
    pre: ReaderModel,
    asked: OpfAction,
    event: OpfEvent,
    post: ReaderModel,
    action: OpfAction,
)
    requires
        reads_as(start.name, name),
        on_the_way(contents, name, start, pre, asked),
        opf_answers(asked, event),
        contents_answer(contents, asked, event),
        opf_step(pre, event, post, action),
    ensures
        on_the_way(contents, name, start, post, action),
{
    law_file_goes_by_its_name(start, name);
    match event {
        OpfEvent::ContainerParsed(Some(bytes)) | OpfEvent::OpfScanned(Some(bytes)) => {
            if valid_utf8(bytes@) {
                decode_utf8_encode_utf8(bytes@);
            }
        },
        OpfEvent::OpfFoundIcase { path, entry: None } => {
            encode_utf8_valid_utf8(path@);
        },
        OpfEvent::OpfRead { path, document } => {
            encode_utf8_valid_utf8(path@);
            law_path_lies_in_its_directory(path@);
            if let Some(data) = document {
                assert(parses_document(contents, name, path@, data@, dir_of(path@)));
            }
        },
        OpfEvent::OpfParsed { data, dir, ok, spine, title, title_len } => {
            let path = choose|path: Seq<char>| parses_document(contents, name, path, data@, dir@);
            encode_utf8_valid_utf8(path);
            assert(lies_in(path, dir@));
        },
        OpfEvent::TocSearched { text } => {
            if let OpfAction::FindToc { data, dir } = asked {
                let path = choose|path: Seq<char>|
                    parses_document(contents, name, path, data@, dir@);
                assert(parses_document(contents, name, path, data@, dir@));
                law_file_goes_by_its_name(pre, name);
                assert(has_opened(contents, name, start, post));
            }
        },
        _ => {},
    }
}

/// What holds of each step of an opening.
proof fn lemma_on_the_way(run: OpfRun, contents: Contents, name: Seq<char>, i: int)
    requires
        run.valid(),
        reads_as(run.start().name, name),
        forall|i: int|
            0 < i < run.len() ==> contents_answer(
                contents,
                run.actions[i - 1],
                #[trigger] run.events[i],
            ),
        0 <= i < run.len(),
    ensures
        on_the_way(contents, name, run.start(), run.states[i + 1], run.actions[i]),
    decreases i,
{
    assert(opf_step(run.states[i], run.events[i], run.states[i + 1], run.actions[i]));
    if i > 0 {
        lemma_on_the_way(run, contents, name, i - 1);
        assert(opf_answers(run.actions[i - 1], run.events[i]));
        lemma_stays_on_the_way(
            contents,
            name,
            run.start(),
            run.states[i],
            run.actions[i - 1],
            run.events[i],
            run.states[i + 1],
            run.actions[i],
        );
    }
}

/// What becomes of opening a package is settled by what the archive holds. The
/// document to be parsed is the one at the path that the container document
/// names, or, without a container document, at the path that a look through the
/// archive brings; it is parsed in the directory in which it lies. Where it
/// parses the reader has its spine and shows its title; otherwise the failure
/// says what was missing, and nothing has changed but by what the parser wrote.
pub proof fn law_package_is_opened_from_its_archive(
    run: OpfRun,
    contents: Contents,
    name: Seq<char>,
)
    requires
        run.valid(),
        run.actions.last() is Done,
        reads_as(run.start().name, name),
        forall|i: int|
            0 < i < run.len() ==> contents_answer(
                contents,
                run.actions[i - 1],
                #[trigger] run.events[i],
            ),
    ensures
        match run.actions.last() {
            OpfAction::Done(Ok(_)) => has_opened(contents, name, run.start(), run.end()),
            OpfAction::Done(Err(fault)) => has_failed(
                contents,
                name,
                run.start(),
                fault,
                run.end(),
            ),
            _ => false,
        },
{
    lemma_on_the_way(run, contents, name, run.len() - 1);
}

/// Where a package opens, the reader has the spine and the title of the document
/// that was parsed last, and shows that title. Whatever the caller tells, nothing
/// is lost on the way.
pub proof fn law_opened_package_is_the_parsed_one(run: OpfRun) -> (p: int)
    requires
        run.valid(),
        run.actions.last() matches OpfAction::Done(Ok(_)),
    ensures
        0 <= p < run.len(),
        match run.events[p] {
            OpfEvent::OpfParsed { data: _, dir: _, ok, spine, title, title_len } => {
                &&& ok
                &&& run.end().spine == spine@
                &&& run.end().meta_title == title@
                &&& run.end().meta_title_len == title_len
                &&& title_is_there(
                    run.start(),
                    Parsed { ok, spine: spine@, title: title@, title_len },
                ) ==> shows(
                    run.start(),
                    Parsed { ok, spine: spine@, title: title@, title_len },
                    run.end(),
                )
            },
            _ => false,
        },
{
    let p = law_title_is_shown_and_saved(run);
    assert(opf_step(run.states[p], run.events[p], run.states[p + 1], run.actions[p]));
    assert(opf_answers(run.actions[p + 1 - 1], run.events[p + 1]));
    p
}

/// An opening asks of its events that a title that goes on display is there, as
/// far as there is room for it, and nothing else.
pub proof fn law_package_answers_fit(run: OpfRun, i: int)
    requires
        run.valid(),
        0 <= i < run.len(),
        run.events[i] is TocSearched ==> run.states[i].meta_title_len
            <= run.states[i].meta_title.len() || run.states[i].title.len()
            <= run.states[i].meta_title.len(),
    ensures
        opf_event_fits(run.states[i], run.events[i]),
{
}

/// What a failure says is what has just gone wrong, and an opening fails for
/// nothing else.
pub proof fn law_package_failure_says_why(run: OpfRun, i: int)
    requires
        run.valid(),
        0 <= i < run.len(),
    ensures
        run.actions[i] is Done <==> match run.events[i] {
            OpfEvent::ContainerRead(None)
            | OpfEvent::ContainerParsed(None)
            | OpfEvent::OpfScanned(None)
            | OpfEvent::TocCleared => true,
            OpfEvent::ContainerParsed(Some(path)) => !valid_utf8(path@),
            OpfEvent::OpfScanned(Some(path)) => !valid_utf8(path@),
            OpfEvent::OpfFoundIcase { path: _, entry } => entry is None,
            OpfEvent::OpfRead { path: _, document } => document is None,
            OpfEvent::OpfParsed { data: _, dir: _, ok, spine: _, title: _, title_len: _ } => !ok,
            _ => false,
        },
        run.actions[i] matches OpfAction::Done(result) ==> match run.events[i] {
            OpfEvent::TocCleared => result is Ok,
            OpfEvent::ContainerRead(_) => result == Err::<(), Fault>(Fault::ContainerRead),
            OpfEvent::ContainerParsed(None) => result == Err::<(), Fault>(Fault::ContainerParse),
            OpfEvent::OpfScanned(None) => result == Err::<(), Fault>(Fault::NoOpf),
            OpfEvent::ContainerParsed(_) | OpfEvent::OpfScanned(_) => result == Err::<(), Fault>(
                Fault::OpfPath,
            ),
            OpfEvent::OpfFoundIcase { path: _, entry: _ } => result == Err::<(), Fault>(
                Fault::OpfEntry,
            ),
            OpfEvent::OpfRead { path: _, document: _ } => result == Err::<(), Fault>(
                Fault::OpfRead,
            ),
            _ => result == Err::<(), Fault>(Fault::OpfParse),
        },
{
    assert(opf_step(run.states[i], run.events[i], run.states[i + 1], run.actions[i]));
}

/// A title that is to be saved is the whole one from the metadata, under the name
/// of the archive, and it is saved only for a book that has a title; and the
/// table of contents is looked for in the document that was parsed, in the
/// directory in which it lies.
pub proof fn law_what_is_handed_out_comes_from_the_archive(
    run: OpfRun,
    contents: Contents,
    name: Seq<char>,
    i: int,
)
    requires
        run.valid(),
        reads_as(run.start().name, name),
        forall|i: int|
            0 < i < run.len() ==> contents_answer(
                contents,
                run.actions[i - 1],
                #[trigger] run.events[i],
            ),
        0 <= i < run.len(),
    ensures
        match run.actions[i] {
            OpfAction::SaveTitle { name: of, title } => of@ == name && title@ == contents.title
                && run.states[i + 1].meta_title_len > 0,
            OpfAction::ParseOpf { data, dir } => exists|path: Seq<char>|
                parses_document(contents, name, path, data@, dir@),
            OpfAction::FindToc { data, dir } => exists|path: Seq<char>|
                parses_document(contents, name, path, data@, dir@),
            _ => true,
        },
{
    lemma_on_the_way(run, contents, name, i);
}

} // verus!
