//! Crate containing the required structs to create movie files and subtitle
//! files, together with the season/episode signature matching that decides
//! which subtitle file belongs to which movie file.
//!
//! The main goal of this library is to provide an easy way to rename subtitle
//! files with respect to their movie files: a subtitle file takes the name of
//! the movie file whose season/episode signature matches its own, with the
//! extension set to the subtitle extension. The filesystem rename itself is
//! the caller's business; the library decides the matches and computes the
//! target names, and paths pass through it as plain strings.

use vstd::prelude::*;

pub mod name_signature;

verus! {

use crate::name_signature::{episode_name_signature_check, spec_names_match, MatchSignature};

/// Error that can be returned when performing operations related to a
/// subtitle file.
#[derive(Debug)]
pub enum SubtitleFileError {
    /// This error is returned when a subtitle file name does not end with the
    /// typical subtitle file extension "srt".
    InvalidSubtileFileName,
    /// This error is returned when the subtitle file name and the movie file
    /// name do not match in terms of their signature when trying to rename
    /// the subtitle file.
    MovieSubFileNamesMismatch,
    /// This error is returned when the filesystem rename of a subtitle file
    /// fails; it carries the underlying message.
    FileSystem(String),
}

/// Position of the last occurrence of `c` in `s` strictly before position
/// `end`, if any.
pub open spec fn last_occurrence_before(s: Seq<char>, c: char, end: int) -> Option<int>
    decreases end,
{
    if end <= 0 {
        None
    } else if end - 1 < s.len() && s[end - 1] == c {
        Some(end - 1)
    } else {
        last_occurrence_before(s, c, end - 1)
    }
}

/// What a found occurrence says of its position: it lies before the search
/// bound, inside the string, and holds the character searched for.
proof fn lemma_last_occurrence_some(s: Seq<char>, c: char, end: int, j: int)
    requires
        last_occurrence_before(s, c, end) == Some(j),
    ensures
        0 <= j < end,
        j < s.len(),
        s[j] == c,
    decreases end,
{
    if end > 0 && !(end - 1 < s.len() && s[end - 1] == c) {
        lemma_last_occurrence_some(s, c, end - 1, j);
    }
}

/// Start of a path's file name: one past the last path separator, or 0 when
/// the path has none.
pub open spec fn file_name_start(s: Seq<char>) -> int {
    match last_occurrence_before(s, '/', s.len() as int) {
        Some(j) => j + 1,
        None => 0,
    }
}

/// Position of the dot that introduces the extension of the path in `s`: the
/// last dot of the final path component, unless that dot is the component's
/// first character (a leading dot names a hidden file, not an empty stem).
pub open spec fn extension_dot(s: Seq<char>) -> Option<int> {
    match last_occurrence_before(s, '.', s.len() as int) {
        Some(d) => if d > file_name_start(s) {
            Some(d)
        } else {
            None
        },
        None => None,
    }
}

/// The extension of the path in `s`: what follows the extension dot.
pub open spec fn spec_extension(s: Seq<char>) -> Option<Seq<char>> {
    match extension_dot(s) {
        Some(d) => Some(s.subrange(d + 1, s.len() as int)),
        None => None,
    }
}

/// The path in `s` with its extension replaced by `ext`, or with a dot and
/// `ext` appended when it has none.
pub open spec fn spec_with_extension(s: Seq<char>, ext: Seq<char>) -> Seq<char> {
    match extension_dot(s) {
        Some(d) => s.subrange(0, d) + seq!['.'] + ext,
        None => s + seq!['.'] + ext,
    }
}

/// Position of the last occurrence of `c` in `name` strictly before
/// position `end`, if any.
fn rfind_char(name: &str, c: char, end: usize) -> (r: Option<usize>)
    requires
        end <= name@.len(),
    ensures
        match r {
            Some(j) => last_occurrence_before(name@, c, end as int) == Some(j as int),
            None => last_occurrence_before(name@, c, end as int) is None,
        },
{
    let mut e = end;
    loop
        invariant
            e <= end <= name@.len(),
            last_occurrence_before(name@, c, end as int) == last_occurrence_before(
                name@,
                c,
                e as int,
            ),
        decreases e,
    {
        if e == 0 {
            return None;
        }
        let current = name.get_char(e - 1);
        if current == c {
            return Some(e - 1);
        }
        e = e - 1;
    }
}

/// Position of the extension dot of `path`, if any.
fn extension_dot_index(path: &str) -> (r: Option<usize>)
    ensures
        match r {
            Some(d) => extension_dot(path@) == Some(d as int) && d < path@.len(),
            None => extension_dot(path@) is None,
        },
{
    let n = path.unicode_len();
    let file_start: usize = match rfind_char(path, '/', n) {
        Some(j) => {
            proof {
                lemma_last_occurrence_some(path@, '/', n as int, j as int);
            }
            j + 1
        },
        None => 0,
    };
    match rfind_char(path, '.', n) {
        Some(d) => {
            proof {
                lemma_last_occurrence_some(path@, '.', n as int, d as int);
            }
            if d > file_start {
                Some(d)
            } else {
                None
            }
        },
        None => None,
    }
}

/// The extension of `path` as a string of its own, if it has one.
fn path_extension(path: &str) -> (r: Option<String>)
    ensures
        match r {
            Some(ext) => spec_extension(path@) == Some(ext@),
            None => spec_extension(path@) is None,
        },
{
    match extension_dot_index(path) {
        Some(d) => {
            let n = path.unicode_len();
            let ext = path.substring_char(d + 1, n);
            Some(String::from_str(ext))
        },
        None => None,
    }
}

/// The path with its extension set to "srt", as a new string.
fn with_extension_srt(path: &str) -> (r: String)
    ensures
        r@ == spec_with_extension(path@, seq!['s', 'r', 't']),
{
    proof {
        reveal_strlit(".srt");
        assert(".srt"@ =~= seq!['.'] + seq!['s', 'r', 't']);
    }
    let target = match extension_dot_index(path) {
        Some(d) => {
            let stem = path.substring_char(0, d);
            String::from_str(stem).concat(".srt")
        },
        None => String::from_str(path).concat(".srt"),
    };
    proof {
        assert(target@ =~= spec_with_extension(path@, seq!['s', 'r', 't']));
    }
    target
}

/// Whether the two strs hold the same characters.
fn str_eq(left: &str, right: &str) -> (r: bool)
    ensures
        r == (left@ == right@),
{
    let left_string = String::from_str(left);
    let right_string = String::from_str(right);
    left_string == right_string
}

/// The movie file extensions known by default.
pub open spec fn is_default_movie_extension(ext: Seq<char>) -> bool {
    ||| ext == seq!['m', 'p', '4']
    ||| ext == seq!['m', 'k', 'v']
    ||| ext == seq!['f', 'l', 'v']
    ||| ext == seq!['a', 'v', 'i']
    ||| ext == seq!['3', 'g', 'p']
    ||| ext == seq!['m', 'o', 'v']
}

/// Whether `ext` is one of the movie file extensions known by default.
fn is_default_movie_extension_exec(ext: &str) -> (r: bool)
    ensures
        r == is_default_movie_extension(ext@),
{
    proof {
        reveal_strlit("mp4");
        reveal_strlit("mkv");
        reveal_strlit("flv");
        reveal_strlit("avi");
        reveal_strlit("3gp");
        reveal_strlit("mov");
        assert("mp4"@ =~= seq!['m', 'p', '4']);
        assert("mkv"@ =~= seq!['m', 'k', 'v']);
        assert("flv"@ =~= seq!['f', 'l', 'v']);
        assert("avi"@ =~= seq!['a', 'v', 'i']);
        assert("3gp"@ =~= seq!['3', 'g', 'p']);
        assert("mov"@ =~= seq!['m', 'o', 'v']);
    }
    str_eq(ext, "mp4") || str_eq(ext, "mkv") || str_eq(ext, "flv") || str_eq(ext, "avi") || str_eq(
        ext,
        "3gp",
    ) || str_eq(ext, "mov")
}

/// The views of an optional list of extension strings.
pub open spec fn extensions_view(extensions: Option<&Vec<String>>) -> Option<Seq<Seq<char>>> {
    match extensions {
        Some(list) => Some(list@.map_values(|s: String| s@)),
        None => None,
    }
}

/// Whether a path names a movie file: it has an extension, and that
/// extension stands in the extra extensions handed in, or is one of the
/// movie file extensions known by default.
pub open spec fn movie_extension_accepted(path: Seq<char>, extras: Option<Seq<Seq<char>>>) -> bool {
    match spec_extension(path) {
        Some(ext) => (match extras {
            Some(list) => list.contains(ext),
            None => false,
        }) || is_default_movie_extension(ext),
        None => false,
    }
}

/// Struct representing a movie file, identified by its path.
#[derive(Debug)]
pub struct MovieFile(String);

impl View for MovieFile {
    type V = Seq<char>;

    closed spec fn view(&self) -> Seq<char> {
        self.0@
    }
}

impl MovieFile {
    /// # Constructs a MovieFile
    ///
    /// This method takes an optional vec of extensions to include when
    /// constructing the MovieFile; the extensions known by default are
    /// accepted in either case.
    /// Returns None when the path provided is of unknown extension.
    pub fn new(value: String, extra_extensions: Option<&Vec<String>>) -> (r: Option<MovieFile>)
        ensures
            r is Some <==> movie_extension_accepted(value@, extensions_view(extra_extensions)),
            r matches Some(movie) ==> movie@ == value@,
    {
        let extension = match path_extension(value.as_str()) {
            Some(extension) => extension,
            None => {
                return None;
            },
        };
        // Checking the extra extensions first
        if let Some(extras) = extra_extensions {
            let ghost extra_views = extras@.map_values(|s: String| s@);
            let mut k: usize = 0;
            while k < extras.len()
                invariant
                    k <= extras.len(),
                    extra_views == extras@.map_values(|s: String| s@),
                    spec_extension(value@) == Some(extension@),
                    extensions_view(extra_extensions) == Some(extra_views),
                    forall|t: int| 0 <= t < k ==> extra_views[t] != extension@,
                decreases extras.len() - k,
            {
                if str_eq(extras[k].as_str(), extension.as_str()) {
                    proof {
                        assert(extra_views[k as int] == extension@);
                        assert(extra_views.contains(extension@));
                    }
                    return Some(MovieFile(value));
                }
                k = k + 1;
            }
            proof {
                assert(!extra_views.contains(extension@));
            }
        }
        // Checking the default extensions when no extra extension applied
        if is_default_movie_extension_exec(extension.as_str()) {
            return Some(MovieFile(value));
        }
        None
    }

    /// Returns the path of the MovieFile.
    pub fn get_path(&self) -> (r: &String)
        ensures
            r@ == self@,
    {
        &self.0
    }
}

/// Struct representing a subtitle file, identified by its path.
#[derive(Debug)]
pub struct SubtitleFile {
    subtitle_file_path: String,
}

impl View for SubtitleFile {
    type V = Seq<char>;

    closed spec fn view(&self) -> Seq<char> {
        self.subtitle_file_path@
    }
}

impl SubtitleFile {
    /// Builds a SubtitleFile from a path string; refused with
    /// `InvalidSubtileFileName` unless the path's extension is "srt".
    pub fn try_from(value: String) -> (r: Result<SubtitleFile, SubtitleFileError>)
        ensures
            r is Ok <==> spec_extension(value@) == Some(seq!['s', 'r', 't']),
            r matches Ok(subtitle) ==> subtitle@ == value@,
            r matches Err(e) ==> e is InvalidSubtileFileName,
    {
        proof {
            reveal_strlit("srt");
            assert("srt"@ =~= seq!['s', 'r', 't']);
        }
        if let Some(extension) = path_extension(value.as_str()) {
            if str_eq(extension.as_str(), "srt") {
                return Ok(SubtitleFile { subtitle_file_path: value });
            }
        }
        Err(SubtitleFileError::InvalidSubtileFileName)
    }

    /// Returns the path of the subtitle file.
    pub fn get_path(&self) -> (r: &String)
        ensures
            r@ == self@,
    {
        &self.subtitle_file_path
    }

    /// Computes the name this subtitle file takes when renamed after a movie
    /// file: the movie file's path with its extension set to "srt".
    ///
    /// # Errors
    /// Refused with `MovieSubFileNamesMismatch` when the subtitle file name
    /// and the movie file name have no matching season and episode
    /// signatures, that is, the word S01E05 that implies that the files are
    /// of the first season at episode five.
    pub fn rename_target(&self, movie_file: &MovieFile) -> (r: Result<
        String,
        SubtitleFileError,
    >)
        ensures
            r is Ok <==> spec_names_match(movie_file@, self@),
            r matches Ok(target) ==> target@ == spec_with_extension(
                movie_file@,
                seq!['s', 'r', 't'],
            ),
            r matches Err(e) ==> e is MovieSubFileNamesMismatch,
    {
        if let MatchSignature::Match = episode_name_signature_check(
            movie_file.get_path().as_str(),
            self.subtitle_file_path.as_str(),
        ) {
            return Ok(with_extension_srt(movie_file.get_path().as_str()));
        }
        Err(SubtitleFileError::MovieSubFileNamesMismatch)
    }
}

} // verus!
