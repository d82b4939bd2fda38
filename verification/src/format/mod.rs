use vstd::prelude::*;

use crate::error::GaussError;

/// Little-endian byte images of samples.
pub mod samples;
/// The logic of reading and writing Riff Wave audio.
pub mod wav;

verus! {

/// Audio codecs/formats supported by gauss
#[derive(Debug, Clone, Copy, PartialEq, Eq, Structural)]
pub enum SupportedFormat {
    /// Riff Wave
    Wav,
    /// Mp3
    Mp3,
    /// Flac
    Flac,
    /// Ogg Vorbis
    Ogg,
}

/// The bytes of a spelling of three ASCII letters or digits.
pub open spec fn word3(a: char, b: char, c: char) -> Seq<u8> {
    seq![a as u8, b as u8, c as u8]
}

/// The bytes of a spelling of four ASCII letters.
pub open spec fn word4(a: char, b: char, c: char, d: char) -> Seq<u8> {
    seq![a as u8, b as u8, c as u8, d as u8]
}

/// The format that the extension with the UTF-8 bytes `ext` names, if any:
/// "wav", "WAV", "Wav" name Wav; "mp3", "MP3", "Mp3" name Mp3;
/// "ogg", "OGG", "Ogg" name Ogg; "flac", "FLAC", "Flac" name Flac.
pub open spec fn format_named(ext: Seq<u8>) -> Option<SupportedFormat> {
    if ext == word3('w', 'a', 'v') || ext == word3('W', 'A', 'V') || ext == word3('W', 'a', 'v') {
        Some(SupportedFormat::Wav)
    } else if ext == word3('m', 'p', '3') || ext == word3('M', 'P', '3') || ext == word3(
        'M',
        'p',
        '3',
    ) {
        Some(SupportedFormat::Mp3)
    } else if ext == word3('o', 'g', 'g') || ext == word3('O', 'G', 'G') || ext == word3(
        'O',
        'g',
        'g',
    ) {
        Some(SupportedFormat::Ogg)
    } else if ext == word4('f', 'l', 'a', 'c') || ext == word4('F', 'L', 'A', 'C') || ext == word4(
        'F',
        'l',
        'a',
        'c',
    ) {
        Some(SupportedFormat::Flac)
    } else {
        None
    }
}

/// Exactly twelve extensions name a format: "wav", "WAV", "Wav" name Wav; "mp3", "MP3",
/// "Mp3" name Mp3; "ogg", "OGG", "Ogg" name Ogg; "flac", "FLAC", "Flac" name Flac; no
/// other byte sequence names one.
pub proof fn lemma_named_formats(ext: Seq<u8>)
    ensures
        format_named(ext) == Some(SupportedFormat::Wav) <==> ext == seq!['w' as u8, 'a' as u8, 'v' as u8]
            || ext == seq!['W' as u8, 'A' as u8, 'V' as u8] || ext == seq!['W' as u8, 'a' as u8, 'v' as u8],
        format_named(ext) == Some(SupportedFormat::Mp3) <==> ext == seq!['m' as u8, 'p' as u8, '3' as u8]
            || ext == seq!['M' as u8, 'P' as u8, '3' as u8] || ext == seq!['M' as u8, 'p' as u8, '3' as u8],
        format_named(ext) == Some(SupportedFormat::Ogg) <==> ext == seq!['o' as u8, 'g' as u8, 'g' as u8]
            || ext == seq!['O' as u8, 'G' as u8, 'G' as u8] || ext == seq!['O' as u8, 'g' as u8, 'g' as u8],
        format_named(ext) == Some(SupportedFormat::Flac) <==> ext == seq!['f' as u8, 'l' as u8, 'a' as u8, 'c' as u8]
            || ext == seq!['F' as u8, 'L' as u8, 'A' as u8, 'C' as u8] || ext == seq!['F' as u8, 'l' as u8, 'a' as u8, 'c' as u8],
        format_named(ext) is None <==> !(ext == seq!['w' as u8, 'a' as u8, 'v' as u8] || ext == seq!['W' as u8, 'A' as u8, 'V' as u8] || ext == seq!['W' as u8, 'a' as u8, 'v' as u8]
            || ext == seq!['m' as u8, 'p' as u8, '3' as u8] || ext == seq!['M' as u8, 'P' as u8, '3' as u8] || ext == seq!['M' as u8, 'p' as u8, '3' as u8]
            || ext == seq!['o' as u8, 'g' as u8, 'g' as u8] || ext == seq!['O' as u8, 'G' as u8, 'G' as u8] || ext == seq!['O' as u8, 'g' as u8, 'g' as u8]
            || ext == seq!['f' as u8, 'l' as u8, 'a' as u8, 'c' as u8] || ext == seq!['F' as u8, 'L' as u8, 'A' as u8, 'C' as u8] || ext == seq!['F' as u8, 'l' as u8, 'a' as u8, 'c' as u8]),
{
}

/// What deriving a format gives for the extension `ext` (its characters):
/// the format it names; else, for an extension of 3 or 4 bytes, an unsupported
/// format; else an unsupported extension length; the error carries the extension.
pub open spec fn extension_verdict(r: Result<SupportedFormat, GaussError>, ext: Seq<char>) -> bool {
    let bytes = vstd::utf8::encode_utf8(ext);
    match format_named(bytes) {
        Some(f) => r == Ok::<SupportedFormat, GaussError>(f),
        None => if bytes.len() == 3 || bytes.len() == 4 {
            r matches Err(GaussError::UnsupportedFormat(s)) && s@ == ext
        } else {
            r matches Err(GaussError::UnsupportedExtensionLength(s)) && s@ == ext
        },
    }
}

/// What deriving a format from `path` gives when its extension is `ext`: with no
/// extension, a missing-extension error that carries the path; else the verdict on the
/// extension.
pub open spec fn path_verdict(
    r: Result<SupportedFormat, GaussError>,
    path: Seq<char>,
    ext: Option<Seq<char>>,
) -> bool {
    match ext {
        None => r matches Err(GaussError::MissingExtension(p)) && p@ == path,
        Some(e) => extension_verdict(r, e),
    }
}

/// Whether `ext` can be what `std::path::Path::extension` takes from `path`. The
/// standard library documents the extension as the part of the file name after its
/// final `.`, and as absent where the file name holds no `.` (but for a leading one);
/// so an extension follows a `.` in the path and holds no `.`, and a path without a `.`
/// has none.
pub open spec fn possible_extension(path: Seq<char>, ext: Option<Seq<char>>) -> bool {
    &&& (!path.contains('.') ==> ext is None)
    &&& match ext {
        Some(e) => !e.contains('.') && exists|i: int|
            1 <= i && i + e.len() <= path.len() && path[i - 1] == '.' && #[trigger] path.subrange(
                i,
                i + e.len(),
            ) == e,
        None => true,
    }
}

/// The index of the last `c` in `s`, or -1 where `s` holds none.
pub open spec fn last_index_of(s: Seq<char>, c: char) -> int
    decreases s.len(),
{
    if s.len() == 0 {
        -1
    } else if s.last() == c {
        s.len() - 1
    } else {
        last_index_of(s.drop_last(), c)
    }
}

/// The text of `path` after its last `/` (all of it where it has none).
pub open spec fn last_segment(path: Seq<char>) -> Seq<char> {
    path.subrange(last_index_of(path, '/') + 1, path.len() as int)
}

/// The extension of the file name `name`, as the standard library documents it: the text
/// after the final `.`; none where the name holds no `.`, where its only `.` leads, and
/// for `..`.
pub open spec fn name_extension(name: Seq<char>) -> Option<Seq<char>> {
    let i = last_index_of(name, '.');
    if i <= 0 || name == seq!['.', '.'] {
        None
    } else {
        Some(name.subrange(i + 1, name.len() as int))
    }
}

/// Whether `path` starts with what Windows reads as a drive prefix: an ASCII letter and `:`.
pub open spec fn drive_prefixed(path: Seq<char>) -> bool {
    &&& path.len() >= 2
    &&& path[1] == ':'
    &&& (('a' as u32) <= (path[0] as u32) <= ('z' as u32) || ('A' as u32) <= (path[0] as u32)
        <= ('Z' as u32))
}

/// Whether every platform's path syntax gives `path` the extension of the text after its
/// last `/`: the path holds no `\` (so no Windows verbatim, device or network prefix
/// and no other separator), does not start with `//` (a Windows network share), and its
/// last segment is not `..`; where it holds a `/`, its last segment is neither empty (a
/// trailing separator) nor `.` (which the standard library normalizes away). A `:` is an
/// ordinary character but in a Windows drive prefix; where the path has one and no `/`,
/// Windows takes the file name after the prefix, so the text after the prefix must have
/// the same extension as the whole path.
pub open spec fn portable_file_name(path: Seq<char>) -> bool {
    let name = last_segment(path);
    &&& !path.contains('\\')
    &&& !(path.len() >= 2 && path[0] == '/' && path[1] == '/')
    &&& name != seq!['.', '.']
    &&& path.contains('/') ==> name.len() > 0 && name != seq!['.']
    &&& drive_prefixed(path) && !path.contains('/') ==> name_extension(
        path.subrange(2, path.len() as int),
    ) == name_extension(path)
}

/// The text of `path` after its last separator of either kind, `/` or `\`.
pub open spec fn last_component(path: Seq<char>) -> Seq<char> {
    let slash = last_index_of(path, '/');
    let backslash = last_index_of(path, '\\');
    let last = if slash >= backslash {
        slash
    } else {
        backslash
    };
    path.subrange(last + 1, path.len() as int)
}

/// Whether `c` separates the components of a path on some platform: `/` everywhere, `\`
/// on Windows.
pub open spec fn is_separator(c: char) -> bool {
    c == '/' || c == '\\'
}

/// Whether every platform's path syntax gives `path`, which holds a `\`, the extension
/// of the text after its last separator of either kind: Windows takes that text as the
/// file name, as the path does not start with two separators (a network share, device
/// or verbatim prefix) and that text is neither empty, `.` nor `..`; Unix takes `\` as
/// an ordinary character and reads the file name after the last `/`, whose extension
/// must then be the same.
pub open spec fn portable_with_backslashes(path: Seq<char>) -> bool {
    let name = last_component(path);
    &&& path.contains('\\')
    &&& !(path.len() >= 2 && is_separator(path[0]) && is_separator(path[1]))
    &&& name.len() > 0
    &&& name != seq!['.']
    &&& name != seq!['.', '.']
    &&& name_extension(last_segment(path)) == name_extension(name)
}

/// `last_index_of` finds the last `c`: it is -1 exactly when `s` holds no `c`, and
/// otherwise an index of `c` after which no `c` follows.
pub proof fn lemma_last_index_of(s: Seq<char>, c: char)
    ensures
        -1 <= last_index_of(s, c) < s.len(),
        last_index_of(s, c) >= 0 ==> s[last_index_of(s, c)] == c,
        forall|j: int| last_index_of(s, c) < j < s.len() ==> s[j] != c,
        last_index_of(s, c) == -1 <==> !s.contains(c),
    decreases s.len(),
{
    if s.len() > 0 && s.last() != c {
        lemma_last_index_of(s.drop_last(), c);
        assert forall|j: int| last_index_of(s, c) < j < s.len() implies s[j] != c by {
            if j < s.len() - 1 {
                assert(s.drop_last()[j] == s[j]);
            }
        }
        if s.drop_last().contains(c) {
            let k = choose|k: int| 0 <= k < s.drop_last().len() && s.drop_last()[k] == c;
            assert(s[k] == c);
        }
        if s.contains(c) {
            let k = choose|k: int| 0 <= k < s.len() && s[k] == c;
            assert(k < s.len() - 1);
            assert(s.drop_last()[k] == c);
        }
    }
    if s.len() > 0 && s.last() == c {
        assert(s[s.len() - 1] == c);
    }
}

/// The extension of a file name is the text after a `.` that is not its first character,
/// and it holds no `.`; a file name without a `.` after its first character (or `..`)
/// has none.
pub proof fn lemma_name_extension(name: Seq<char>)
    ensures
        name_extension(name) matches Some(e) ==> !e.contains('.') && exists|i: int|
            1 <= i < name.len() && name[i] == '.' && #[trigger] name.subrange(
                i + 1,
                name.len() as int,
            ) == e,
        name_extension(name) is None ==> name == seq!['.', '.'] || forall|i: int|
            1 <= i < name.len() ==> name[i] != '.',
{
    lemma_last_index_of(name, '.');
    let i = last_index_of(name, '.');
    if i >= 1 && name != seq!['.', '.'] {
        let e = name.subrange(i + 1, name.len() as int);
        assert forall|k: int| 0 <= k < e.len() implies e[k] != '.' by {
            assert(e[k] == name[i + 1 + k]);
        }
        assert(name.subrange(i + 1, name.len() as int) == e);
    }
}

/// The last component of a path is the text after its last separator of either kind:
/// it holds no separator, and the path ends with it, right after a separator or from
/// the start.
pub proof fn lemma_last_component(path: Seq<char>)
    ensures
        !last_component(path).contains('/'),
        !last_component(path).contains('\\'),
        last_component(path).len() <= path.len(),
        path.subrange(path.len() - last_component(path).len(), path.len() as int)
            == last_component(path),
        last_component(path).len() < path.len() ==> is_separator(
            path[path.len() - last_component(path).len() - 1],
        ),
{
    lemma_last_index_of(path, '/');
    lemma_last_index_of(path, '\\');
    let name = last_component(path);
    assert forall|k: int| 0 <= k < name.len() implies name[k] != '/' && name[k] != '\\' by {
        let slash = last_index_of(path, '/');
        let backslash = last_index_of(path, '\\');
        let last = if slash >= backslash {
            slash
        } else {
            backslash
        };
        assert(name[k] == path[last + 1 + k]);
    }
    assert(path.subrange(path.len() - name.len(), path.len() as int) =~= name);
}

/// Calls `std::path::Path::extension` on `path`, read as a path, and takes the
/// extension as text. Where the file name ends depends on the platform's path syntax, so
/// the result is not named: the contract states what the documentation gives on every
/// platform (see [`possible_extension`]), and, for a path whose file name every
/// platform reads alike (see [`portable_file_name`] and [`portable_with_backslashes`]),
/// the extension that the documentation gives for that file name.
#[verifier::external_body]
fn path_extension(path: &str) -> (ext: Option<&str>)
    ensures
        possible_extension(
            path@,
            match ext {
                Some(e) => Some(e@),
                None => None,
            },
        ),
        portable_file_name(path@) ==> match ext {
            Some(e) => name_extension(last_segment(path@)) == Some(e@),
            None => name_extension(last_segment(path@)) is None,
        },
        portable_with_backslashes(path@) ==> match ext {
            Some(e) => name_extension(last_component(path@)) == Some(e@),
            None => name_extension(last_component(path@)) is None,
        },
{
    std::path::Path::new(path).extension().and_then(|e| e.to_str())
}

/// Whether the bytes `b` are one of the spellings `lower`, `upper` and `capital`.
fn spelled(b: &[u8], lower: &[u8], upper: &[u8], capital: &[u8]) -> (r: bool)
    ensures
        r == (b@ == lower@ || b@ == upper@ || b@ == capital@),
{
    bytes_are(b, lower) || bytes_are(b, upper) || bytes_are(b, capital)
}

/// Whether the bytes `b` are exactly `word`.
fn bytes_are(b: &[u8], word: &[u8]) -> (r: bool)
    ensures
        r == (b@ == word@),
{
    if b.len() != word.len() {
        return false;
    }
    let n = b.len();
    for i in 0..n
        invariant
            n == b@.len(),
            n == word@.len(),
            forall|j: int| 0 <= j < i ==> b@[j] == word@[j],
    {
        if b[i] != word[i] {
            return false;
        }
    }
    assert(b@ =~= word@);
    true
}

impl SupportedFormat {
    /// Derive format from file extension
    ///
    /// - "wav" -> Wav,
    /// - "mp3" -> Mp3,
    /// - "flac" -> Flac,
    /// - "ogg" -> Ogg,
    ///
    /// Also in upper case and capitalized. For a path whose file name every platform
    /// reads alike, the extension is the text after the file name's final `.`; whatever
    /// extension the path has, the result is what
    /// [`SupportedFormat::from_extension_part`] gives for it.
    pub fn from_extension(path: &str) -> (r: Result<Self, GaussError>)
        ensures
            portable_file_name(path@) ==> path_verdict(
                r,
                path@,
                name_extension(last_segment(path@)),
            ),
            portable_with_backslashes(path@) ==> path_verdict(
                r,
                path@,
                name_extension(last_component(path@)),
            ),
            exists|ext: Option<Seq<char>>|
                #![trigger path_verdict(r, path@, ext)]
                path_verdict(r, path@, ext) && possible_extension(path@, ext),
    {
        let ext = path_extension(path);
        let r = Self::from_extension_part(path, ext);
        proof {
            let witness: Option<Seq<char>> = match ext {
                Some(e) => Some(e@),
                None => None,
            };
            assert(path_verdict(r, path@, witness));
        }
        r
    }

    /// Derive the format of `path` from its extension `ext`, as taken from the path.
    pub fn from_extension_part(path: &str, ext: Option<&str>) -> (r: Result<Self, GaussError>)
        ensures
            path_verdict(
                r,
                path@,
                match ext {
                    Some(e) => Some(e@),
                    None => None,
                },
            ),
    {
        match ext {
            Some(e) => Self::from_extension_text(e),
            None => Err(GaussError::MissingExtension(path.to_owned())),
        }
    }

    /// Derive the format that the extension `ext` names.
    pub fn from_extension_text(ext: &str) -> (r: Result<Self, GaussError>)
        ensures
            extension_verdict(r, ext@),
    {
        let b = ext.as_bytes();
        if b.len() == 3 {
            if spelled(
                b,
                &['w' as u8, 'a' as u8, 'v' as u8],
                &['W' as u8, 'A' as u8, 'V' as u8],
                &['W' as u8, 'a' as u8, 'v' as u8],
            ) {
                Ok(SupportedFormat::Wav)
            } else if spelled(
                b,
                &['m' as u8, 'p' as u8, '3' as u8],
                &['M' as u8, 'P' as u8, '3' as u8],
                &['M' as u8, 'p' as u8, '3' as u8],
            ) {
                Ok(SupportedFormat::Mp3)
            } else if spelled(
                b,
                &['o' as u8, 'g' as u8, 'g' as u8],
                &['O' as u8, 'G' as u8, 'G' as u8],
                &['O' as u8, 'g' as u8, 'g' as u8],
            ) {
                Ok(SupportedFormat::Ogg)
            } else {
                Err(GaussError::UnsupportedFormat(ext.to_owned()))
            }
        } else if b.len() == 4 {
            if spelled(
                b,
                &['f' as u8, 'l' as u8, 'a' as u8, 'c' as u8],
                &['F' as u8, 'L' as u8, 'A' as u8, 'C' as u8],
                &['F' as u8, 'l' as u8, 'a' as u8, 'c' as u8],
            ) {
                Ok(SupportedFormat::Flac)
            } else {
                Err(GaussError::UnsupportedFormat(ext.to_owned()))
            }
        } else {
            Err(GaussError::UnsupportedExtensionLength(ext.to_owned()))
        }
    }
}

} // verus!
