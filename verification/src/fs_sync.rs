//! The file-sync core's path logic: folder paths, the layout under the
//! base directory, attachment file names, which directory entries count as
//! sessions or orphans, and the decisions of audio import.

use vstd::prelude::*;

use crate::text::{
    chars_of, decimal, lemma_decimal_injective, lower, owned, push_all, push_char, push_decimal,
    slice_range, string_of, string_of_range,
};

verus! {

// ---------------------------------------------------------------------------
// Paths as text
// ---------------------------------------------------------------------------

/// The last index of `c` in `s`, if any.
pub open spec fn last_index_of(s: Seq<char>, c: char) -> Option<nat>
    decreases s.len(),
{
    if s.len() == 0 {
        None
    } else if s.last() == c {
        Some((s.len() - 1) as nat)
    } else {
        last_index_of(s.drop_last(), c)
    }
}

/// The parent of a folder path: everything before its last `/`; none
/// without a `/`.
pub open spec fn parent_folder(path: Seq<char>) -> Option<Seq<char>> {
    match last_index_of(path, '/') {
        Some(k) => Some(path.take(k as int)),
        None => None,
    }
}

proof fn lemma_last_index_of(s: Seq<char>, c: char)
    ensures
        last_index_of(s, c) matches Some(k) ==> k < s.len() && s[k as int] == c && forall|j: int|
            k < j < s.len() ==> s[j] != c,
        last_index_of(s, c) is None ==> forall|j: int| 0 <= j < s.len() ==> s[j] != c,
    decreases s.len(),
{
    if s.len() > 0 && s.last() != c {
        let d = s.drop_last();
        lemma_last_index_of(d, c);
        assert forall|j: int| 0 <= j < d.len() implies d[j] == s[j] by {}
    }
}

/// The parent of a folder path (`rsplit_once('/')`).
pub fn get_parent_folder_path(path: &str) -> (r: Option<String>)
    ensures
        match r {
            Some(p) => parent_folder(path@) == Some(p@),
            None => parent_folder(path@) is None,
        },
{
    let cs = chars_of(path);
    let mut i: usize = cs.len();
    proof {
        assert(cs@.take(cs@.len() as int) =~= cs@);
    }
    while i > 0 && cs[i - 1] != '/'
        invariant
            i <= cs.len(),
            cs@ == path@,
            last_index_of(cs@, '/') == last_index_of(cs@.take(i as int), '/'),
        decreases i,
    {
        proof {
            assert(cs@.take(i as int).drop_last() =~= cs@.take(i as int - 1));
        }
        i -= 1;
    }
    proof {
        assert(cs@.take(cs@.len() as int) =~= cs@);
    }
    if i == 0 {
        None
    } else {
        proof {
            assert(cs@.take(i as int).last() == '/');
            assert(cs@.take(i as int - 1) =~= cs@.subrange(0, i as int - 1));
        }
        Some(string_of_range(cs.as_slice(), 0, i - 1))
    }
}

/// Law: a folder path with a parent is that parent, `/`, and a last part
/// without `/`.
pub proof fn law_parent_and_name(path: Seq<char>)
    ensures
        parent_folder(path) matches Some(p) ==> exists|name: Seq<char>|
            path == p + seq!['/'] + name && !name.contains('/'),
{
    lemma_last_index_of(path, '/');
    if let Some(k) = last_index_of(path, '/') {
        let name = path.skip(k as int + 1);
        assert(path =~= path.take(k as int) + seq!['/'] + name);
        assert(!name.contains('/')) by {
            if name.contains('/') {
                let j = choose|j: int| 0 <= j < name.len() && name[j] == '/';
                assert(path[k + 1 + j] == '/');
            }
        }
    }
}

/// `PathBuf::join` on Unix: an absolute part replaces the base; otherwise
/// the part is appended, after a `/` unless the base is empty or ends with one.
pub open spec fn path_join(base: Seq<char>, part: Seq<char>) -> Seq<char> {
    if part.len() > 0 && part[0] == '/' {
        part
    } else if base.len() == 0 || base.last() == '/' {
        base + part
    } else {
        base + seq!['/'] + part
    }
}

/// `PathBuf::join` on Unix, on text.
pub fn join_path(base: &str, part: &str) -> (r: String)
    ensures
        r@ == path_join(base@, part@),
{
    let b = chars_of(base);
    let p = chars_of(part);
    if p.len() > 0 && p[0] == '/' {
        return owned(part);
    }
    let mut s = owned(base);
    if b.len() > 0 && b[b.len() - 1] != '/' {
        push_char(&mut s, '/');
    }
    push_all(&mut s, part);
    s
}

/// The file-sync core: where its files live.
pub struct FsSyncCore {
    base_dir: String,
    sessions_dir: String,
}

impl FsSyncCore {
    /// The base directory.
    pub closed spec fn base(&self) -> Seq<char> {
        self.base_dir@
    }

    /// The directory of sessions.
    pub closed spec fn sessions(&self) -> Seq<char> {
        self.sessions_dir@
    }

    /// A core for a base directory; sessions live in its `sessions` directory.
    pub fn new(base_dir: String) -> (r: FsSyncCore)
        ensures
            r.base() == base_dir@,
            r.sessions() == path_join(base_dir@, "sessions"@),
    {
        let sessions_dir = join_path(base_dir.as_str(), "sessions");
        FsSyncCore { base_dir, sessions_dir }
    }

    /// The base directory.
    pub fn base_dir(&self) -> (r: &str)
        ensures
            r@ == self.base(),
    {
        self.base_dir.as_str()
    }

    /// The directory of sessions.
    pub fn sessions_dir(&self) -> (r: &str)
        ensures
            r@ == self.sessions(),
    {
        self.sessions_dir.as_str()
    }

    /// The directory a cleanup target lives in: its subdirectory of the base.
    pub fn cleanup_dir(&self, target: &CleanupTarget) -> (r: String)
        ensures
            r@ == path_join(self.base(), cleanup_subdir(*target)),
    {
        let sub = match target {
            CleanupTarget::Files { subdir, .. } => subdir,
            CleanupTarget::Dirs { subdir, .. } => subdir,
            CleanupTarget::FilesRecursive { subdir, .. } => subdir,
        };
        join_path(self.base_dir.as_str(), sub.as_str())
    }

    /// Where a session's attachments are kept.
    pub fn attachments_dir(session_dir: &str) -> (r: String)
        ensures
            r@ == path_join(session_dir@, "attachments"@),
    {
        join_path(session_dir, "attachments")
    }
}

/// What a cleanup removes.
pub enum CleanupTarget {
    /// Files `<uuid>.<extension>` directly in the subdirectory.
    Files { subdir: String, extension: String },
    /// Entity directories (marked by `marker_file`) anywhere below the subdirectory.
    Dirs { subdir: String, marker_file: String },
    /// Files `<uuid>.<extension>` inside entity directories below the subdirectory.
    FilesRecursive { subdir: String, marker_file: String, extension: String },
}

/// The subdirectory a cleanup target lives in.
pub open spec fn cleanup_subdir(t: CleanupTarget) -> Seq<char> {
    match t {
        CleanupTarget::Files { subdir, .. } => subdir@,
        CleanupTarget::Dirs { subdir, .. } => subdir@,
        CleanupTarget::FilesRecursive { subdir, .. } => subdir@,
    }
}

// ---------------------------------------------------------------------------
// Outside path functions
// ---------------------------------------------------------------------------

/// `Path::strip_prefix`: the path relative to a base, if the base is a
/// prefix of it component by component.
pub uninterp spec fn path_strip_prefix(path: Seq<char>, base: Seq<char>) -> Option<Seq<char>>;

/// `Path::new(path).strip_prefix(base)`, as text; named `path_strip_prefix`.
#[verifier::external_body]
fn strip_path_prefix(path: &str, base: &str) -> (r: Option<String>)
    ensures
        match r {
            Some(s) => path_strip_prefix(path@, base@) == Some(s@),
            None => path_strip_prefix(path@, base@) is None,
        },
{
    std::path::Path::new(path).strip_prefix(base).ok().and_then(|p| p.to_str()).map(
        |s| s.to_string(),
    )
}

/// `std::path::MAIN_SEPARATOR`: `/` or, on Windows, `\\`.
#[verifier::external_body]
fn main_separator() -> (c: char)
    ensures
        c == '/' || c == '\\',
{
    std::path::MAIN_SEPARATOR
}

/// The text with every `from` replaced by `to`.
pub open spec fn replace_char(s: Seq<char>, from: char, to: char) -> Seq<char> {
    s.map_values(|c: char| if c == from { to } else { c })
}

/// A path relative to a base with the separator `sep` written as `/`;
/// empty when the base is not a prefix.
pub open spec fn relative_text(path: Seq<char>, base: Seq<char>, sep: char) -> Seq<char> {
    match path_strip_prefix(path, base) {
        Some(rel) => replace_char(rel, sep, '/'),
        None => Seq::empty(),
    }
}

/// The text of a relative path with the separator `sep` written as `/`;
/// empty when there is no relative path.
pub fn slashed_relative(rel: Option<String>, sep: char) -> (r: String)
    ensures
        r@ == (match rel {
            Some(t) => replace_char(t@, sep, '/'),
            None => Seq::empty(),
        }),
{
    match rel {
        Some(rel) => {
            let cs = chars_of(rel.as_str());
            let mut out: Vec<char> = Vec::new();
            let mut i: usize = 0;
            while i < cs.len()
                invariant
                    i <= cs.len(),
                    out@ == replace_char(cs@.take(i as int), sep, '/'),
                decreases cs.len() - i,
            {
                out.push(
                    if cs[i] == sep {
                        '/'
                    } else {
                        cs[i]
                    },
                );
                proof {
                    assert(replace_char(cs@.take(i as int + 1), sep, '/') =~= replace_char(
                        cs@.take(i as int),
                        sep,
                        '/',
                    ).push(
                        if cs@[i as int] == sep {
                            '/'
                        } else {
                            cs@[i as int]
                        },
                    ));
                }
                i += 1;
            }
            proof {
                assert(cs@.take(cs.len() as int) =~= cs@);
            }
            string_of(out.as_slice())
        },
        None => {
            let s = String::new();
            proof {
                assert(s@ =~= Seq::<char>::empty());
            }
            s
        },
    }
}

/// A path relative to a base, with `/` separators (the platform's
/// separator, `/` or `\`, is rewritten); empty when the base is not a prefix.
pub fn to_relative_path(path: &str, base: &str) -> (r: String)
    ensures
        r@ == relative_text(path@, base@, '/') || r@ == relative_text(path@, base@, '\\'),
{
    let sep = main_separator();
    slashed_relative(strip_path_prefix(path, base), sep)
}

/// A hexadecimal digit, in either case.
pub open spec fn is_hex(c: char) -> bool {
    ('0' <= c && c <= '9') || ('a' <= c && c <= 'f') || ('A' <= c && c <= 'F')
}

/// 32 hexadecimal digits.
pub open spec fn uuid_simple(s: Seq<char>) -> bool {
    s.len() == 32 && forall|i: int| 0 <= i < 32 ==> #[trigger] is_hex(s[i])
}

/// 36 characters: hexadecimal digits with hyphens at 8, 13, 18 and 23.
pub open spec fn uuid_hyphenated(s: Seq<char>) -> bool {
    &&& s.len() == 36
    &&& forall|i: int|
        0 <= i < 36 ==> if i == 8 || i == 13 || i == 18 || i == 23 {
            s[i] == '-'
        } else {
            #[trigger] is_hex(s[i])
        }
}

/// The forms `uuid::Uuid::try_parse` accepts: simple, hyphenated, braced
/// (`{…}`), or URN (`urn:uuid:` in any ASCII case, then hyphenated).
pub open spec fn uuid_text(s: Seq<char>) -> bool {
    ||| uuid_simple(s)
    ||| uuid_hyphenated(s)
    ||| (s.len() == 38 && s[0] == '{' && s[37] == '}' && uuid_hyphenated(s.subrange(1, 37)))
    ||| (s.len() == 45 && lower(s.take(9)) == "urn:uuid:"@ && uuid_hyphenated(s.skip(9)))
}

/// Whether a name is a UUID: `uuid::Uuid::try_parse` accepts it.
#[verifier::external_body]
pub fn is_uuid(name: &str) -> (r: bool)
    ensures
        r == uuid_text(name@),
{
    uuid::Uuid::try_parse(name).is_ok()
}

/// `Path::file_name`: the last component of a path, unless it is `..`.
pub uninterp spec fn path_file_name(s: Seq<char>) -> Option<Seq<char>>;

/// `Path::file_stem`: the file name without its extension.
pub uninterp spec fn path_file_stem(s: Seq<char>) -> Option<Seq<char>>;

/// `Path::extension`: the text after the file name's last `.`, if any.
pub uninterp spec fn path_extension(s: Seq<char>) -> Option<Seq<char>>;

/// `Path::new(s).file_name()` as text; named `path_file_name`.
#[verifier::external_body]
fn file_name_of(s: &str) -> (r: Option<String>)
    ensures
        match r {
            Some(n) => path_file_name(s@) == Some(n@),
            None => path_file_name(s@) is None,
        },
{
    std::path::Path::new(s).file_name().and_then(|n| n.to_str()).map(|n| n.to_string())
}

/// `Path::new(s).file_stem()` as text; named `path_file_stem`.
#[verifier::external_body]
fn file_stem_of(s: &str) -> (r: Option<String>)
    ensures
        match r {
            Some(n) => path_file_stem(s@) == Some(n@),
            None => path_file_stem(s@) is None,
        },
{
    std::path::Path::new(s).file_stem().and_then(|n| n.to_str()).map(|n| n.to_string())
}

/// `Path::new(s).extension()` as text; named `path_extension`.
#[verifier::external_body]
fn extension_of(s: &str) -> (r: Option<String>)
    ensures
        match r {
            Some(n) => path_extension(s@) == Some(n@),
            None => path_extension(s@) is None,
        },
{
    std::path::Path::new(s).extension().and_then(|n| n.to_str()).map(|n| n.to_string())
}

// ---------------------------------------------------------------------------
// Attachment file names
// ---------------------------------------------------------------------------

/// Why a file name is refused.
#[derive(Clone, Copy, Debug, PartialEq, Eq, Structural)]
pub enum FilenameError {
    /// The name has no file name part.
    InvalidFilename,
    /// The file name part is empty or holds `/`, `\\` or NUL.
    InvalidFilenameCharacters,
}

/// Whether a file name holds a character that is not allowed.
pub open spec fn has_bad_char(s: Seq<char>) -> bool {
    s.contains('/') || s.contains('\\') || s.contains('\0')
}

/// The file name an attachment is saved under: the last component of the
/// given name, refused when there is none, or it is empty or holds `/`,
/// `\\` or NUL.
pub fn sanitize_filename(filename: &str) -> (r: Result<String, FilenameError>)
    ensures
        match path_file_name(filename@) {
            None => r == Err::<String, FilenameError>(FilenameError::InvalidFilename),
            Some(n) => if n.len() == 0 || has_bad_char(n) {
                r == Err::<String, FilenameError>(FilenameError::InvalidFilenameCharacters)
            } else {
                r matches Ok(s) && s@ == n
            },
        },
{
    let clean = match file_name_of(filename) {
        Some(n) => n,
        None => {
            return Err(FilenameError::InvalidFilename);
        },
    };
    let cs = chars_of(clean.as_str());
    if cs.len() == 0 {
        return Err(FilenameError::InvalidFilenameCharacters);
    }
    let mut i: usize = 0;
    while i < cs.len()
        invariant
            i <= cs.len(),
            path_file_name(filename@) == Some(cs@),
            forall|k: int| 0 <= k < i ==> cs@[k] != '/' && cs@[k] != '\\' && cs@[k] != '\0',
        decreases cs.len() - i,
    {
        if cs[i] == '/' || cs[i] == '\\' || cs[i] == '\0' {
            proof {
                assert(cs@.contains(cs@[i as int]));
                assert(has_bad_char(cs@));
            }
            return Err(FilenameError::InvalidFilenameCharacters);
        }
        i += 1;
    }
    proof {
        assert(!has_bad_char(cs@)) by {
            if cs@.contains('/') {
                let k = choose|k: int| 0 <= k < cs@.len() && cs@[k] == '/';
            }
            if cs@.contains('\\') {
                let k = choose|k: int| 0 <= k < cs@.len() && cs@[k] == '\\';
            }
            if cs@.contains('\0') {
                let k = choose|k: int| 0 <= k < cs@.len() && cs@[k] == '\0';
            }
        }
    }
    Ok(clean)
}

/// The name tried for the `counter`-th attempt to save `filename` without
/// overwriting: the name itself first, then `<stem> <counter>.<ext>` (or
/// `<stem> <counter>` without an extension).
pub open spec fn candidate_name(
    filename: Seq<char>,
    stem: Option<Seq<char>>,
    ext: Option<Seq<char>>,
    counter: nat,
) -> Seq<char> {
    if counter == 0 {
        filename
    } else {
        let st = match stem {
            Some(s) => s,
            None => filename,
        };
        match ext {
            Some(e) => st + seq![' '] + decimal(counter) + seq!['.'] + e,
            None => st + seq![' '] + decimal(counter),
        }
    }
}

/// The name tried for the `counter`-th attempt to save an attachment.
pub fn candidate_filename(filename: &str, counter: u64) -> (r: String)
    ensures
        r@ == candidate_name(
            filename@,
            path_file_stem(filename@),
            path_extension(filename@),
            counter as nat,
        ),
{
    if counter == 0 {
        return owned(filename);
    }
    let stem = match file_stem_of(filename) {
        Some(s) => s,
        None => owned(filename),
    };
    let ext = extension_of(filename);
    let mut s = stem;
    push_char(&mut s, ' ');
    push_decimal(&mut s, counter);
    match ext {
        Some(e) => {
            push_char(&mut s, '.');
            push_all(&mut s, e.as_str());
        },
        None => {},
    }
    s
}

/// Law: later attempts never retry a name: distinct positive counters give
/// distinct names.
pub proof fn law_candidates_distinct(
    filename: Seq<char>,
    stem: Option<Seq<char>>,
    ext: Option<Seq<char>>,
    a: nat,
    b: nat,
)
    requires
        a >= 1,
        b >= 1,
        a != b,
    ensures
        candidate_name(filename, stem, ext, a) != candidate_name(filename, stem, ext, b),
{
    let st = match stem {
        Some(s) => s,
        None => filename,
    };
    let tail = match ext {
        Some(e) => seq!['.'] + e,
        None => Seq::<char>::empty(),
    };
    let na = st + seq![' '] + decimal(a) + tail;
    let nb = st + seq![' '] + decimal(b) + tail;
    assert(candidate_name(filename, stem, ext, a) =~= na);
    assert(candidate_name(filename, stem, ext, b) =~= nb);
    if na == nb {
        let p = st.len() + 1;
        assert(decimal(a).len() == decimal(b).len());
        assert(decimal(a) =~= na.subrange(p as int, (p + decimal(a).len()) as int));
        assert(decimal(b) =~= nb.subrange(p as int, (p + decimal(b).len()) as int));
        lemma_decimal_injective(a, b);
    }
}

// ---------------------------------------------------------------------------
// Which entries are sessions and orphans
// ---------------------------------------------------------------------------

/// What a scan does with a directory.
#[derive(Clone, Copy, Debug, PartialEq, Eq, Structural)]
pub enum EntityVisit {
    /// An entity: its name is a UUID and it holds the marker file.
    Entity,
    /// A folder: neither a UUID name nor the marker file; scanned below.
    Descend,
    /// Anything else is left alone.
    Skip,
}

/// What a scan does with a directory.
pub fn entity_dir_visit(has_marker: bool, name_is_uuid: bool) -> (r: EntityVisit)
    ensures
        r == (if has_marker && name_is_uuid {
            EntityVisit::Entity
        } else if !has_marker && !name_is_uuid {
            EntityVisit::Descend
        } else {
            EntityVisit::Skip
        }),
{
    if has_marker && name_is_uuid {
        EntityVisit::Entity
    } else if !has_marker && !name_is_uuid {
        EntityVisit::Descend
    } else {
        EntityVisit::Skip
    }
}

/// Whether a folder's subdirectory shows it holds a session: a UUID
/// directory with `_meta.json`; else whether to look inside it (not a UUID).
#[derive(Clone, Copy, Debug, PartialEq, Eq, Structural)]
pub enum SessionProbe {
    Found,
    LookInside,
    Ignore,
}

/// How a folder's subdirectory counts when looking for sessions.
pub fn session_probe(name_is_uuid: bool, has_meta: bool) -> (r: SessionProbe)
    ensures
        r == (if name_is_uuid && has_meta {
            SessionProbe::Found
        } else if !name_is_uuid {
            SessionProbe::LookInside
        } else {
            SessionProbe::Ignore
        }),
{
    if name_is_uuid && has_meta {
        SessionProbe::Found
    } else if !name_is_uuid {
        SessionProbe::LookInside
    } else {
        SessionProbe::Ignore
    }
}

/// The id a file stands for when it is a candidate orphan: a file whose
/// extension is the one cleaned and whose stem is a UUID; its stem is the id.
pub fn orphan_candidate_id(file_name: &str, extension: &str) -> (r: Option<String>)
    ensures
        match r {
            Some(id) => path_extension(file_name@) == Some(extension@) && path_file_stem(
                file_name@,
            ) == Some(id@) && uuid_text(id@),
            None => !(path_extension(file_name@) == Some(extension@) && (path_file_stem(file_name@) matches Some(st) && uuid_text(st))),
        },
{
    let ext = match extension_of(file_name) {
        Some(e) => e,
        None => {
            return None;
        },
    };
    if !crate::text::str_eq(ext.as_str(), extension) {
        return None;
    }
    let stem = match file_stem_of(file_name) {
        Some(s) => s,
        None => {
            return None;
        },
    };
    if !is_uuid(stem.as_str()) {
        return None;
    }
    Some(stem)
}

/// The audio files a session may hold, in the order they are looked for.
pub fn audio_file_names() -> (r: Vec<&'static str>)
    ensures
        r@.len() == 3,
        r@[0]@ == "audio.mp3"@,
        r@[1]@ == "audio.wav"@,
        r@[2]@ == "audio.ogg"@,
{
    vec!["audio.mp3", "audio.wav", "audio.ogg"]
}

// ---------------------------------------------------------------------------
// Audio import decisions
// ---------------------------------------------------------------------------

/// The sample rate imported audio is resampled to.
pub const TARGET_SAMPLE_RATE_HZ: u32 = 16_000;

/// Audio import errors decided by the import logic itself.
#[derive(Clone, Copy, Debug, PartialEq, Eq, Structural)]
pub enum AudioCheckError {
    UnsupportedChannelCount { count: u16 },
    InvalidChannelCount,
    EmptyInput,
    InvalidTargetSampleRate,
}

/// The channel count audio is mixed from: the decoder's count (at least 1),
/// refused above 255.
pub fn checked_channel_count(channels: u16) -> (r: Result<u8, AudioCheckError>)
    ensures
        channels <= 1 ==> r == Ok::<u8, AudioCheckError>(1),
        1 < channels <= 255 ==> r == Ok::<u8, AudioCheckError>(channels as u8),
        channels > 255 ==> r == Err::<u8, AudioCheckError>(
            AudioCheckError::UnsupportedChannelCount { count: channels },
        ),
{
    let raw = if channels < 1 {
        1
    } else {
        channels
    };
    if raw > 255 {
        return Err(AudioCheckError::UnsupportedChannelCount { count: raw });
    }
    Ok(raw as u8)
}

/// Whether the mixed samples are to be encoded: empty input is refused.
pub fn check_samples_nonempty(sample_count: usize) -> (r: Result<(), AudioCheckError>)
    ensures
        r is Err <==> sample_count == 0,
        r matches Err(e) ==> e == AudioCheckError::EmptyInput,
{
    if sample_count == 0 {
        Err(AudioCheckError::EmptyInput)
    } else {
        Ok(())
    }
}

/// What to do when moving the encoded file into place failed.
#[derive(Clone, Copy, Debug, PartialEq, Eq, Structural)]
pub enum RenameRecovery {
    /// Across file systems (`EXDEV`, 18): copy, then remove the temporary file.
    CopyThenRemove,
    /// The target exists: remove it and rename again.
    RemoveTargetAndRetry,
    /// Any other failure is returned.
    Fail,
}

/// What to do when moving the encoded file into place failed: the OS error
/// 18 means another file system; an existing target is removed first
/// (only on the first attempt).
pub fn rename_recovery(raw_os_error: Option<i32>, already_exists: bool, retried: bool) -> (r:
    RenameRecovery)
    ensures
        r == (if raw_os_error == Some(18i32) {
            RenameRecovery::CopyThenRemove
        } else if already_exists && !retried {
            RenameRecovery::RemoveTargetAndRetry
        } else {
            RenameRecovery::Fail
        }),
{
    match raw_os_error {
        Some(code) => if code == 18 {
            return RenameRecovery::CopyThenRemove;
        },
        None => {},
    }
    if already_exists && !retried {
        RenameRecovery::RemoveTargetAndRetry
    } else {
        RenameRecovery::Fail
    }
}

} // verus!
