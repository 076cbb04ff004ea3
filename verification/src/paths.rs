//! Files and directories: their names, and what comes of reading and writing them.
use std::path::{Path, PathBuf};
use vstd::prelude::*;
use vstd::utf8::encode_utf8;

use crate::error::{CliError, CliErrorView, CliTypedResult};
use crate::text::followed_by;

verus! {

/// `std::path::Path`, whose contents [`path_bytes`] names.
#[verifier::external_type_specification]
#[verifier::external_body]
pub struct ExPath(std::path::Path);

/// `std::path::PathBuf`, whose contents [`path_buf_bytes`] names.
#[verifier::external_type_specification]
#[verifier::external_body]
pub struct ExPathBuf(std::path::PathBuf);

/// The encoded bytes of a path.
pub uninterp spec fn path_bytes(path: &Path) -> Seq<u8>;

/// The encoded bytes of a path that is owned.
pub uninterp spec fn path_buf_bytes(path: PathBuf) -> Seq<u8>;

/// What `Path::file_name` gives for a path of these bytes.
pub uninterp spec fn file_name(path: Seq<u8>) -> Option<Seq<u8>>;

/// What `Components::as_path` gives for all the components of a path of these
/// bytes: the path without the separators and the `.` behind its last component.
pub uninterp spec fn plain_path(path: Seq<u8>) -> Seq<u8>;

/// The text that the `Debug` implementation of a path of these bytes prints.
pub uninterp spec fn path_debug_text(path: Seq<u8>) -> Seq<char>;

/// The byte of a dot.
pub const DOT: u8 = 0x2e;

/// The place of the last dot in a file name, or -1.
pub open spec fn last_dot(name: Seq<u8>) -> int
    decreases name.len(),
{
    if name.len() == 0 {
        -1
    } else if name.last() == DOT {
        name.len() - 1
    } else {
        last_dot(name.drop_last())
    }
}

/// The extension of a file name: what follows its last dot, unless the name has
/// none but at its beginning.
pub open spec fn extension_of(name: Seq<u8>) -> Option<Seq<u8>> {
    if last_dot(name) > 0 {
        Some(name.skip(last_dot(name) + 1))
    } else {
        None
    }
}

/// A file name without its extension.
pub open spec fn stem_of(name: Seq<u8>) -> Seq<u8> {
    if last_dot(name) > 0 {
        name.take(last_dot(name))
    } else {
        name
    }
}

/// The byte that parts the components of a path on every platform.
pub const SLASH: u8 = 0x2f;

/// The byte that parts the components of a path on some platforms.
pub const BACKSLASH: u8 = 0x5c;

/// Whether no byte parts the components of a path, on whatever platform.
pub open spec fn no_separator(bytes: Seq<u8>) -> bool {
    !bytes.contains(SLASH) && !bytes.contains(BACKSLASH)
}

/// `Path::file_name`, handed on as a path: the final component of the path, if it
/// is the name of a file or a directory.
#[verifier::external_body]
fn name_of<'a>(file: &'a Path) -> (res: Option<&'a Path>)
    ensures
        match res {
            Some(name) => file_name(path_bytes(file)) == Some(path_bytes(name)),
            None => file_name(path_bytes(file)) is None,
        },
{
    file.file_name().map(Path::new)
}

/// `Path::extension`, handed on as a path: what follows the last dot of the file
/// name, where there is a file name with a dot that is not its first byte.
#[verifier::external_body]
fn extension<'a>(file: &'a Path) -> (res: Option<&'a Path>)
    ensures
        match res {
            Some(extension) => {
                &&& file_name(path_bytes(file)) matches Some(name)
                &&& extension_of(name) == Some(path_bytes(extension))
            },
            None => file_name(path_bytes(file)) matches Some(name) ==> extension_of(name) is None,
        },
{
    file.extension().map(Path::new)
}

/// `Components::as_path` on what `Path::components` gives: a slice of the path from
/// its beginning, without the separators and the `.` behind the last component.
/// So the components are the same ones, and a file name stands at the end.
#[verifier::external_body]
fn plain<'a>(file: &'a Path) -> (res: &'a Path)
    ensures
        path_bytes(res) == plain_path(path_bytes(file)),
        path_bytes(res).is_prefix_of(path_bytes(file)),
        file_name(path_bytes(res)) == file_name(path_bytes(file)),
        file_name(path_bytes(file)) matches Some(name) ==> name.is_suffix_of(path_bytes(res)),
{
    file.components().as_path()
}

/// `OsString::push` on the text of a path: the bytes of the path, and then those
/// of the text. Where a file name stands at the end of the path, a text that begins
/// with a dot and holds no separator belongs to it then, and so the last component
/// still has nothing behind it.
#[verifier::external_body]
fn push_text(front: &Path, text: &str) -> (res: PathBuf)
    ensures
        path_buf_bytes(res) == path_bytes(front) + encode_utf8(text@),
        (file_name(path_bytes(front)) matches Some(name) && name.is_suffix_of(path_bytes(front))
            && encode_utf8(text@).len() > 0 && encode_utf8(text@)[0] == DOT && no_separator(
            encode_utf8(text@),
        )) ==> {
            &&& file_name(path_buf_bytes(res)) == Some(
                file_name(path_bytes(front))->Some_0 + encode_utf8(text@),
            )
            &&& plain_path(path_buf_bytes(res)) == path_buf_bytes(res)
        },
{
    let mut joined = front.as_os_str().to_os_string();
    joined.push(text);
    PathBuf::from(joined)
}

/// `Path::to_path_buf`: the same bytes.
#[verifier::external_body]
fn owned(path: &Path) -> (res: PathBuf)
    ensures
        path_buf_bytes(res) == path_bytes(path),
{
    path.to_path_buf()
}

/// The `Debug` implementation of `OsStr` on a path: the text depends on the
/// path's bytes and on nothing else.
#[verifier::external_body]
fn debug_path(file: &Path) -> (text: String)
    ensures
        text@ == path_debug_text(path_bytes(file)),
{
    format!("{:?}", file.as_os_str())
}

/// What is put behind a file name in order to append an extension: a dot and the
/// extension, but nothing where there is neither an extension already nor one to
/// append.
pub open spec fn suffix_for(name: Seq<u8>, appended: Seq<u8>) -> Seq<u8> {
    if appended.len() == 0 && extension_of(name) is None {
        Seq::empty()
    } else {
        seq![DOT] + appended
    }
}

/// A file name with an extension behind it.
pub open spec fn appended_name(name: Seq<u8>, appended: Seq<u8>) -> Seq<u8> {
    name + suffix_for(name, appended)
}

/// A path with an extension behind its file name. One without a file name stays as
/// it is.
pub open spec fn appended_path(path: Seq<u8>, appended: Seq<u8>) -> Seq<u8> {
    match file_name(path) {
        Some(name) => plain_path(path) + suffix_for(name, appended),
        None => path,
    }
}

/// Whether `res` is a path with an extension appended: it is the path up to its file
/// name, and then the extension, which belongs to the file name where no separator
/// stands in it.
pub open spec fn appended_to(path: Seq<u8>, appended: Seq<u8>, res: Seq<u8>) -> bool {
    &&& res == appended_path(path, appended)
    &&& file_name(path) matches Some(name) ==> {
        &&& plain_path(path).is_prefix_of(path)
        &&& name.is_suffix_of(plain_path(path))
        &&& no_separator(appended) ==> file_name(res) == Some(appended_name(name, appended))
        &&& no_separator(appended) && appended.len() > 0 ==> plain_path(res) == res
    }
}

/// Appends a file extension to a `Path` without overwriting the original extension.
pub fn append_file_extension(file: &Path, appended_extension: &str) -> (res: CliTypedResult<PathBuf>)
    requires
        !encode_utf8(appended_extension@).contains(SLASH),
    ensures
        res matches Ok(path) && appended_to(
            path_bytes(file),
            encode_utf8(appended_extension@),
            path_buf_bytes(path),
        ),
        file_name(path_bytes(file)) is None ==> (res matches Ok(path) && path_buf_bytes(path)
            == path_bytes(file)),
        file_name(path_bytes(file)) is Some && appended_extension@.len() > 0 ==> (
        res matches Ok(path) && path_buf_bytes(path) == plain_path(path_bytes(file)) + encode_utf8(
            "."@ + appended_extension@,
        )),
{
    proof {
        lemma_encode_dotted(appended_extension@);
    }
    if name_of(file).is_none() {
        return Ok(owned(file));
    }
    let front = plain(file);
    if appended_extension.is_empty() && extension(file).is_none() {
        let path = owned(front);
        proof {
            let name = file_name(path_bytes(file))->Some_0;
            let appended = encode_utf8(appended_extension@);
            assert(appended_extension@ =~= Seq::empty());
            assert(path_buf_bytes(path) =~= appended_path(path_bytes(file), appended));
            assert(appended_name(name, appended) =~= name);
        }
        return Ok(path);
    }
    let dotted = followed_by(".", appended_extension);
    proof {
        let appended = encode_utf8(appended_extension@);
        let suffix = seq![DOT] + appended;
        if no_separator(appended) {
            assert forall|i: int| 0 <= i < suffix.len() implies suffix[i] != SLASH && suffix[i]
                != BACKSLASH by {
                if i > 0 {
                    assert(appended.contains(appended[i - 1]));
                }
            }
        }
    }
    Ok(push_text(front, dotted.as_str()))
}

proof fn lemma_encode_dotted(s: Seq<char>)
    ensures
        encode_utf8("."@ + s) == seq![DOT] + encode_utf8(s),
{
    reveal_strlit(".");
    let t = "."@ + s;
    assert(t[0] == '.');
    assert(t.drop_first() =~= s);
    assert(0x2eu32 & 0x7F == 0x2e) by (bit_vector);
    assert(encode_utf8(t) =~= seq![DOT] + encode_utf8(s));
}

proof fn lemma_encode_both(front: Seq<char>, back: Seq<char>)
    ensures
        encode_utf8(front + back) == encode_utf8(front) + encode_utf8(back),
    decreases front.len(),
{
    if front.len() == 0 {
        assert(front + back =~= back);
        assert(encode_utf8(front) + encode_utf8(back) =~= encode_utf8(back));
    } else {
        assert((front + back).drop_first() =~= front.drop_first() + back);
        lemma_encode_both(front.drop_first(), back);
        assert(encode_utf8(front + back) =~= encode_utf8(front) + encode_utf8(back));
    }
}

/// The question whether a file is to be overwritten.
pub fn overwrite_question(file: &Path) -> (res: String)
    ensures
        res@ == path_debug_text(path_bytes(file))
            + " already exists, are you sure you want to overwrite it?"@,
{
    let text = debug_path(file);
    followed_by(text.as_str(), " already exists, are you sure you want to overwrite it?")
}

/// Appending an extension keeps the one that a file has: the file name stays as
/// it was in front of what is appended, and a dot and what is appended end it.
pub proof fn law_extension_is_kept(name: Seq<u8>, appended: Seq<u8>)
    requires
        appended.len() > 0,
    ensures
        name.is_prefix_of(appended_name(name, appended)),
        appended_name(name, appended).skip(name.len() as int) == seq![DOT] + appended,
{
    let longer = appended_name(name, appended);
    assert(longer.skip(name.len() as int) =~= seq![DOT] + appended);
}

/// Appending one extension and then another is appending the two with a dot between
/// them.
pub proof fn law_append_twice(
    path: Seq<u8>,
    a: Seq<char>,
    b: Seq<char>,
    first: Seq<u8>,
    second: Seq<u8>,
    once: Seq<u8>,
)
    requires
        file_name(path) is Some,
        a.len() > 0,
        b.len() > 0,
        no_separator(encode_utf8(a)),
        no_separator(encode_utf8(b)),
        appended_to(path, encode_utf8(a), first),
        appended_to(first, encode_utf8(b), second),
        appended_to(path, encode_utf8(a + "."@ + b), once),
    ensures
        second == once,
{
    lemma_encode_dotted(b);
    lemma_encode_both(a, "."@ + b);
    assert(a + ("."@ + b) =~= a + "."@ + b);
    assert(second =~= once);
}

/// What is appended is the extension then, if no dot stands in it and there was
/// a file name.
pub proof fn law_appended_is_extension(name: Seq<u8>, appended: Seq<u8>)
    requires
        name.len() > 0,
        appended.len() > 0,
        !appended.contains(DOT),
    ensures
        extension_of(appended_name(name, appended)) == Some(appended),
        stem_of(appended_name(name, appended)) == name,
{
    let longer = appended_name(name, appended);
    assert(longer =~= name.push(DOT) + appended);
    lemma_last_dot_behind(name.push(DOT), appended);
    assert(name.push(DOT).last() == DOT);
    assert(last_dot(longer) == name.len());
    assert(longer.skip(name.len() as int + 1) =~= appended);
    assert(longer.take(name.len() as int) =~= name);
}

proof fn lemma_last_dot_behind(front: Seq<u8>, back: Seq<u8>)
    requires
        !back.contains(DOT),
    ensures
        last_dot(front + back) == last_dot(front),
    decreases back.len(),
{
    if back.len() == 0 {
        assert(front + back =~= front);
    } else {
        assert((front + back).last() == back.last());
        assert(back[back.len() - 1] == back.last());
        assert((front + back).drop_last() =~= front + back.drop_last());
        assert forall|i: int| 0 <= i < back.drop_last().len() implies back.drop_last()[i]
            != DOT by {
            assert(back.contains(back[i]));
        }
        lemma_last_dot_behind(front, back.drop_last());
    }
}

/// Where a directory comes from.
#[derive(Debug)]
pub enum DirSource {
    /// It was given.
    Given(PathBuf),
    /// It is the one in which the program runs.
    Current,
}

/// The directory that was given, or else the current one.
pub fn dir_default_to_current(maybe_dir: Option<PathBuf>) -> (res: DirSource)
    ensures
        res == match maybe_dir {
            Some(dir) => DirSource::Given(dir),
            None => DirSource::Current,
        },
{
    if let Some(dir) = maybe_dir {
        DirSource::Given(dir)
    } else {
        DirSource::Current
    }
}

/// The current directory, or why there is none.
pub fn current_dir(found: Result<PathBuf, String>) -> (res: CliTypedResult<PathBuf>)
    ensures
        match found {
            Ok(dir) => res == Ok::<PathBuf, CliError>(dir),
            Err(err) => res matches Err(error) && error@ == CliErrorView::UnexpectedError(
                "Failed to get current directory "@ + err@,
            ),
        },
{
    match found {
        Ok(dir) => Ok(dir),
        Err(err) => Err(
            CliError::UnexpectedError(followed_by("Failed to get current directory ", err.as_str())),
        ),
    }
}

/// Whether a directory is to be created: there is nothing of its name, or
/// something else, on which creating it fails.
pub fn create_dir_if_not_exist(dir_exists: bool, is_dir: bool) -> (res: bool)
    ensures
        res == !(dir_exists && is_dir),
{
    !dir_exists || !is_dir
}

/// What comes of reading a file.
pub fn read_from_file(path: &str, read: Result<Vec<u8>, String>) -> (res: CliTypedResult<Vec<u8>>)
    ensures
        match read {
            Ok(bytes) => res == Ok::<Vec<u8>, CliError>(bytes),
            Err(err) => res matches Err(error) && error@ == CliErrorView::UnableToReadFile(
                path@,
                err@,
            ),
        },
{
    match read {
        Ok(bytes) => Ok(bytes),
        Err(err) => Err(CliError::UnableToReadFile(path.to_owned(), err)),
    }
}

/// What comes of parsing the JSON in a file that was read.
pub fn parse_json_file<T>(path: &str, parsed: Result<T, String>) -> (res: CliTypedResult<T>)
    ensures
        match parsed {
            Ok(value) => res == Ok::<T, CliError>(value),
            Err(err) => res matches Err(error) && error@ == CliErrorView::UnableToReadFile(
                path@,
                err@,
            ),
        },
{
    match parsed {
        Ok(value) => Ok(value),
        Err(err) => Err(CliError::UnableToReadFile(path.to_owned(), err)),
    }
}

/// What comes of an input or output on what is called `name`.
pub fn io_outcome<T>(name: &str, outcome: Result<T, std::io::Error>) -> (res: CliTypedResult<T>)
    ensures
        match outcome {
            Ok(value) => res == Ok::<T, CliError>(value),
            Err(err) => res matches Err(error) && error@ == CliErrorView::IO(name@, err),
        },
{
    match outcome {
        Ok(value) => Ok(value),
        Err(err) => Err(CliError::IO(name.to_owned(), err)),
    }
}

proof fn lemma_last_dot_is_dot(name: Seq<u8>)
    ensures
        -1 <= last_dot(name) < name.len(),
        last_dot(name) >= 0 ==> name[last_dot(name)] == DOT,
        forall|i: int| last_dot(name) < i < name.len() ==> #[trigger] name[i] != DOT,
    decreases name.len(),
{
    if name.len() > 0 && name.last() != DOT {
        lemma_last_dot_is_dot(name.drop_last());
        assert forall|i: int| last_dot(name) < i < name.len() implies #[trigger] name[i] != DOT by {
            if i < name.len() - 1 {
                assert(name.drop_last()[i] == name[i]);
            }
        }
    }
}

/// A file name is its stem, a dot and its extension. The stem is not empty, and no
/// dot stands in the extension.
pub proof fn law_name_is_stem_and_extension(name: Seq<u8>)
    ensures
        extension_of(name) matches Some(extension) ==> {
            &&& name == stem_of(name) + seq![0x2eu8] + extension
            &&& stem_of(name).len() > 0
            &&& !extension.contains(0x2e)
        },
        extension_of(name) is None ==> stem_of(name) == name && forall|i: int|
            0 < i < name.len() ==> #[trigger] name[i] != 0x2e,
{
    lemma_last_dot_is_dot(name);
    if last_dot(name) > 0 {
        let extension = name.skip(last_dot(name) + 1);
        assert(name =~= stem_of(name) + seq![0x2eu8] + extension);
        assert forall|i: int| 0 <= i < extension.len() implies extension[i] != 0x2e by {
            assert(extension[i] == name[last_dot(name) + 1 + i]);
        }
    }
}

/// A stem that is not empty, a dot and text without dots are read as the stem and the
/// extension of a file name.
pub proof fn law_stem_and_extension_are_read(stem: Seq<u8>, extension: Seq<u8>)
    requires
        stem.len() > 0,
        !extension.contains(0x2e),
    ensures
        extension_of(stem + seq![0x2eu8] + extension) == Some(extension),
        stem_of(stem + seq![0x2eu8] + extension) == stem,
{
    let name = stem + seq![0x2eu8] + extension;
    assert(name =~= stem.push(DOT) + extension);
    lemma_last_dot_behind(stem.push(DOT), extension);
    assert(stem.push(DOT).last() == DOT);
    assert(last_dot(name) == stem.len());
    assert(name.skip(stem.len() as int + 1) =~= extension);
    assert(name.take(stem.len() as int) =~= stem);
}

/// Appending an extension changes nothing in front of it: a path keeps its directory
/// and its whole file name, and gets a dot and the extension behind them. Only where
/// there is no file name, or nothing to append and no extension yet, is nothing added.
pub proof fn law_path_is_kept(path: Seq<u8>, appended: Seq<u8>, res: Seq<u8>)
    requires
        appended_to(path, appended, res),
    ensures
        file_name(path) is None ==> res == path,
        file_name(path) matches Some(name) ==> {
            &&& appended.len() > 0 || extension_of(name) is Some ==> res == plain_path(path)
                + seq![0x2eu8] + appended
            &&& appended.len() == 0 && extension_of(name) is None ==> res == plain_path(path)
            &&& exists|dir: Seq<u8>| plain_path(path) == #[trigger] (dir + name)
            &&& plain_path(path).is_prefix_of(path)
            &&& no_separator(appended) && appended.len() > 0 ==> file_name(res) == Some(
                name + seq![0x2eu8] + appended,
            )
        },
{
    if let Some(name) = file_name(path) {
        let plain = plain_path(path);
        let dir = plain.take(plain.len() - name.len());
        assert(plain =~= dir + name);
        assert(plain + (seq![DOT] + appended) =~= plain + seq![0x2eu8] + appended);
        assert(name + (seq![DOT] + appended) =~= name + seq![0x2eu8] + appended);
        assert(plain + Seq::<u8>::empty() =~= plain);
    }
}

/// An appended extension never fails, and leaves all of the path in front of it as it
/// was.
pub proof fn law_extension_is_appended(
    file: &Path,
    appended_extension: &str,
    res: CliTypedResult<PathBuf>,
)
    requires
        call_ensures(append_file_extension, (file, appended_extension), res),
    ensures
        res is Ok,
        res matches Ok(path) ==> file_name(path_bytes(file)) is None ==> path_buf_bytes(path)
            == path_bytes(file),
        res matches Ok(path) ==> file_name(path_bytes(file)) matches Some(name)
            ==> appended_extension@.len() > 0 ==> {
            &&& path_buf_bytes(path) == plain_path(path_bytes(file)) + encode_utf8(
                "."@ + appended_extension@,
            )
            &&& no_separator(encode_utf8(appended_extension@)) ==> file_name(path_buf_bytes(path))
                == Some(name + encode_utf8("."@ + appended_extension@))
        },
{
    lemma_encode_dotted(appended_extension@);
}

/// The question names the file that is there.
pub proof fn law_question_names_the_file(file: &Path, res: String)
    requires
        call_ensures(overwrite_question, (file,), res),
    ensures
        res@ == path_debug_text(path_bytes(file))
            + " already exists, are you sure you want to overwrite it?"@,
{
}

/// A directory that is given is taken, and only without one is the current directory
/// asked for; a directory is created unless it is there as one.
pub proof fn law_directories(
    dir: PathBuf,
    given: DirSource,
    current: DirSource,
    dir_exists: bool,
    is_dir: bool,
    create: bool,
)
    requires
        call_ensures(dir_default_to_current, (Some(dir),), given),
        call_ensures(dir_default_to_current, (None,), current),
        call_ensures(create_dir_if_not_exist, (dir_exists, is_dir), create),
    ensures
        given == DirSource::Given(dir),
        current is Current,
        create <==> !(dir_exists && is_dir),
{
}

/// What was found, read, parsed or done is handed on as it is.
pub proof fn law_success_is_handed_on<T>(
    dir: PathBuf,
    path: &str,
    bytes: Vec<u8>,
    value: T,
    found: CliTypedResult<PathBuf>,
    read: CliTypedResult<Vec<u8>>,
    parsed: CliTypedResult<T>,
    done: CliTypedResult<T>,
)
    requires
        call_ensures(current_dir, (Ok(dir),), found),
        call_ensures(read_from_file, (path, Ok(bytes)), read),
        call_ensures(parse_json_file::<T>, (path, Ok(value)), parsed),
        call_ensures(io_outcome::<T>, (path, Ok(value)), done),
    ensures
        found == Ok::<PathBuf, CliError>(dir),
        read == Ok::<Vec<u8>, CliError>(bytes),
        parsed == Ok::<T, CliError>(value),
        done == Ok::<T, CliError>(value),
{
}

/// What failed is told by the kind of error, with the name of the file or input and the
/// reason.
pub proof fn law_failure_is_told<T>(
    path: &str,
    err: String,
    source: std::io::Error,
    found: CliTypedResult<PathBuf>,
    read: CliTypedResult<Vec<u8>>,
    parsed: CliTypedResult<T>,
    done: CliTypedResult<T>,
)
    requires
        call_ensures(current_dir, (Err(err),), found),
        call_ensures(read_from_file, (path, Err(err)), read),
        call_ensures(parse_json_file::<T>, (path, Err(err)), parsed),
        call_ensures(io_outcome::<T>, (path, Err(source)), done),
    ensures
        found matches Err(CliError::UnexpectedError(message)) && message@
            == "Failed to get current directory "@ + err@,
        read matches Err(CliError::UnableToReadFile(name, reason)) && name@ == path@ && reason@
            == err@,
        parsed matches Err(CliError::UnableToReadFile(name, reason)) && name@ == path@ && reason@
            == err@,
        done matches Err(CliError::IO(name, inner)) && name@ == path@ && inner == source,
{
}

} // verus!
