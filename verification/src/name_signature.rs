use vstd::prelude::*;

verus! {

/// Whether or not the episodic signature of two file names matches.
#[derive(Debug, PartialEq, Eq, Structural)]
pub enum MatchSignature {
    Match,
    NoMatch,
}

/// Selects which signature marker letter to search for: 's' introduces a
/// season signature, 'e' an episode signature.
#[derive(Clone, Copy, Debug)]
pub enum SignatureType {
    Season,
    Episode,
}

/// The marker letter that introduces a signature of the given type in a
/// lowercased file name.
pub open spec fn marker_char(signature_type: SignatureType) -> char {
    match signature_type {
        SignatureType::Season => 's',
        SignatureType::Episode => 'e',
    }
}

/// Whether `c` is a decimal digit.
pub open spec fn is_decimal_digit(c: char) -> bool {
    '0' <= c && c <= '9'
}

/// Length of the run of decimal digits of `s` that starts at position `i`.
pub open spec fn digit_run_len(s: Seq<char>, i: int) -> int
    decreases s.len() - i,
{
    if 0 <= i < s.len() && is_decimal_digit(s[i]) {
        1 + digit_run_len(s, i + 1)
    } else {
        0
    }
}

/// Position `i` of `s` carries a marker for `c` when the character there is
/// the marker letter and a decimal digit follows immediately.
pub open spec fn marker_at(s: Seq<char>, c: char, i: int) -> bool {
    &&& 0 <= i
    &&& i + 1 < s.len()
    &&& s[i] == c
    &&& is_decimal_digit(s[i + 1])
}

/// The first position at or after `from` that carries a marker for `c`,
/// if any.
pub open spec fn find_marker_from(s: Seq<char>, c: char, from: int) -> Option<int>
    decreases s.len() - from,
{
    if from + 1 < s.len() {
        if marker_at(s, c, from) {
            Some(from)
        } else {
            find_marker_from(s, c, from + 1)
        }
    } else {
        None
    }
}

/// The range that locating a signature of the given type in `s` yields:
/// `start` is the first position whose character is the marker letter with a
/// decimal digit immediately after it, and `end` is `start` plus the length
/// of that digit run, so that `end` points at the run's last digit.
pub open spec fn spec_signature_range(signature_type: SignatureType, s: Seq<char>) -> Option<
    (int, int),
> {
    match find_marker_from(s, marker_char(signature_type), 0) {
        Some(i) => Some((i, i + digit_run_len(s, i + 1))),
        None => None,
    }
}

/// A found marker position bounds the digit run that follows it.
proof fn lemma_digit_run_len_bounds(s: Seq<char>, i: int)
    requires
        0 <= i <= s.len(),
    ensures
        0 <= digit_run_len(s, i) <= s.len() - i,
    decreases s.len() - i,
{
    if i < s.len() && is_decimal_digit(s[i]) {
        lemma_digit_run_len_bounds(s, i + 1);
    }
}

/// What a successful search with `find_marker_from` says of the position it
/// returns: it lies at or after the starting point and carries a marker.
proof fn lemma_find_marker_from_some(s: Seq<char>, c: char, from: int, i: int)
    requires
        find_marker_from(s, c, from) == Some(i),
    ensures
        marker_at(s, c, i),
        from <= i,
    decreases s.len() - from,
{
    if from + 1 < s.len() && !marker_at(s, c, from) {
        lemma_find_marker_from_some(s, c, from + 1, i);
    }
}

/// Struct representing the range of a season or episode signature.
/// Say a name `someepisodes02e01` is given: its season range covers `s02`
/// and its episode range covers `e01`.
///
/// # Point to note
/// This range is inclusive: the start offset points at the marker letter and
/// the end offset points at the last digit of the signature's digit run.
#[derive(Clone, Copy, Debug, PartialEq, Eq, Structural)]
pub struct SignatureRange(pub usize, pub usize);

impl SignatureRange {
    /// Create a new instance of SignatureRange. A start beyond the end never
    /// arises from signature location and is refused.
    pub fn new(start: usize, end: usize) -> (r: Self)
        requires
            start <= end,
        ensures
            r == SignatureRange(start, end),
    {
        SignatureRange(start, end)
    }

    /// Get the section of a str that starts at position `self.0` and stops
    /// just before position `self.1`, as a String; a position past the end
    /// of the str is read as the end.
    pub fn get_section_from_str(&self, string: &str) -> (r: String)
        requires
            self.0 <= self.1,
        ensures
            r@ == spec_section(string@, self.0 as int, self.1 as int),
    {
        let n = string.unicode_len();
        let from = if self.0 <= n {
            self.0
        } else {
            n
        };
        let to = if self.1 <= n {
            self.1
        } else {
            n
        };
        let section = string.substring_char(from, to);
        String::from_str(section)
    }
}

/// The characters of `s` from position `start` up to, but not including,
/// position `end`; positions past the end of `s` are clipped to its end.
pub open spec fn spec_section(s: Seq<char>, start: int, end: int) -> Seq<char> {
    let lo = if start <= s.len() {
        start
    } else {
        s.len() as int
    };
    let hi = if end <= s.len() {
        end
    } else {
        s.len() as int
    };
    if 0 <= lo <= hi {
        s.subrange(lo, hi)
    } else {
        Seq::empty()
    }
}

/// Whether `c` is a decimal digit.
fn is_decimal_digit_exec(c: char) -> (r: bool)
    ensures
        r == is_decimal_digit(c),
{
    '0' <= c && c <= '9'
}

/// The first position of `name` where `c` occurs with a decimal digit
/// immediately after it, if any.
fn find_marker(name: &str, c: char) -> (r: Option<usize>)
    ensures
        match r {
            Some(i) => find_marker_from(name@, c, 0) == Some(i as int),
            None => find_marker_from(name@, c, 0) is None,
        },
{
    let n = name.unicode_len();
    let mut i: usize = 0;
    loop
        invariant
            n == name@.len(),
            i <= n,
            find_marker_from(name@, c, 0) == find_marker_from(name@, c, i as int),
        decreases n - i,
    {
        if n - i <= 1 {
            return None;
        }
        let current = name.get_char(i);
        if current == c {
            let following = name.get_char(i + 1);
            if is_decimal_digit_exec(following) {
                return Some(i);
            }
        }
        i = i + 1;
    }
}

/// The position just past the run of decimal digits of `name` that starts at
/// position `from`.
fn digit_run_end(name: &str, from: usize) -> (r: usize)
    requires
        from <= name@.len(),
    ensures
        r as int == from + digit_run_len(name@, from as int),
        from <= r <= name@.len(),
{
    let n = name.unicode_len();
    let mut j = from;
    loop
        invariant
            n == name@.len(),
            from <= j <= n,
            digit_run_len(name@, from as int) == (j - from) + digit_run_len(name@, j as int),
        decreases n - j,
    {
        if j >= n {
            return j;
        }
        let current = name.get_char(j);
        if !is_decimal_digit_exec(current) {
            return j;
        }
        j = j + 1;
    }
}

/// Returns a signature range on the provided name based on the signature
/// type provided, i.e. of season or episode. The name is searched as given;
/// callers that want case-insensitive behaviour lowercase it first.
pub fn signature_range(signature_type: SignatureType, name: &str) -> (r: Option<SignatureRange>)
    ensures
        match r {
            Some(range) => {
                &&& spec_signature_range(signature_type, name@) == Some(
                    (range.0 as int, range.1 as int),
                )
                &&& range.0 < range.1 < name@.len()
            },
            None => spec_signature_range(signature_type, name@) is None,
        },
{
    let char_to_check = match signature_type {
        SignatureType::Season => 's',
        SignatureType::Episode => 'e',
    };
    let n = name.unicode_len();
    match find_marker(name, char_to_check) {
        Some(start) => {
            proof {
                lemma_find_marker_from_some(name@, char_to_check, 0, start as int);
                lemma_digit_run_len_bounds(name@, start as int + 2);
                assert(digit_run_len(name@, start as int + 1) >= 1);
            }
            let run_end = digit_run_end(name, start + 1);
            Some(SignatureRange::new(start, run_end - 1))
        },
        None => None,
    }
}

/// ASCII lowercase fold of a single character: the letters 'A' through 'Z'
/// move to 'a' through 'z' and every other character stays as it is. The
/// marker letters and digits are ASCII, so this fold is all the matching
/// needs.
pub open spec fn lower_char(c: char) -> char {
    if 'A' <= c && c <= 'Z' {
        ((c as int) + 32) as char
    } else {
        c
    }
}

/// ASCII lowercase fold of a whole name, character by character.
pub open spec fn spec_lower(s: Seq<char>) -> Seq<char> {
    Seq::new(s.len(), |i: int| lower_char(s[i]))
}

/// Relies on String::push: appends the given char to the end of the String.
#[verifier::external_body]
fn push_char(s: &mut String, c: char)
    ensures
        final(s)@ == old(s)@.push(c),
{
    s.push(c);
}

/// ASCII lowercase fold of a single character.
fn lower_char_exec(c: char) -> (r: char)
    ensures
        r == lower_char(c),
{
    if 'A' <= c && c <= 'Z' {
        ((c as u8) + 32) as char
    } else {
        c
    }
}

/// ASCII lowercase fold of a whole name.
fn to_lowercase(name: &str) -> (r: String)
    ensures
        r@ == spec_lower(name@),
{
    let n = name.unicode_len();
    let mut lowered = String::new();
    let mut i: usize = 0;
    while i < n
        invariant
            n == name@.len(),
            i <= n,
            lowered@.len() == i,
            forall|k: int| 0 <= k < i ==> lowered@[k] == lower_char(name@[k]),
        decreases n - i,
    {
        let c = name.get_char(i);
        push_char(&mut lowered, lower_char_exec(c));
        i = i + 1;
    }
    proof {
        assert(lowered@ =~= spec_lower(name@));
    }
    lowered
}

/// The literal section of `s` that a located signature of the given type
/// covers: the marker letter together with the whole digit run after it.
pub open spec fn spec_signature_section(signature_type: SignatureType, s: Seq<char>) -> Option<
    Seq<char>,
> {
    match spec_signature_range(signature_type, s) {
        Some((start, end)) => Some(s.subrange(start, end + 1)),
        None => None,
    }
}

/// Two raw names match when, after lowercasing both, each carries a season
/// and an episode signature and the literal season sections and episode
/// sections agree, digit for digit. A name with at most one of the two
/// signatures matches nothing.
pub open spec fn spec_names_match(first: Seq<char>, second: Seq<char>) -> bool {
    let a = spec_lower(first);
    let b = spec_lower(second);
    &&& spec_signature_section(SignatureType::Season, a) is Some
    &&& spec_signature_section(SignatureType::Episode, a) is Some
    &&& spec_signature_section(SignatureType::Season, a) == spec_signature_section(
        SignatureType::Season,
        b,
    )
    &&& spec_signature_section(SignatureType::Episode, a) == spec_signature_section(
        SignatureType::Episode,
        b,
    )
}

/// Returns the season signature range and the episode signature range as an
/// optional pair on the provided file name string of the signature
/// `someepisodeS02E01`; None when either signature is missing.
pub fn get_season_episode_sig_range(name: &str) -> (r: Option<(SignatureRange, SignatureRange)>)
    ensures
        match r {
            Some((season, episode)) => {
                &&& spec_signature_range(SignatureType::Season, name@) == Some(
                    (season.0 as int, season.1 as int),
                )
                &&& spec_signature_range(SignatureType::Episode, name@) == Some(
                    (episode.0 as int, episode.1 as int),
                )
                &&& season.0 < season.1 < name@.len()
                &&& episode.0 < episode.1 < name@.len()
            },
            None => spec_signature_range(SignatureType::Season, name@) is None
                || spec_signature_range(SignatureType::Episode, name@) is None,
        },
{
    if let Some(season_sig_range) = signature_range(SignatureType::Season, name) {
        match signature_range(SignatureType::Episode, name) {
            Some(episode_sig_range) => Some((season_sig_range, episode_sig_range)),
            None => None,
        }
    } else {
        None
    }
}

/// The literal section of `name` covered by a located signature range, with
/// both of the range's endpoints included: the marker letter together with
/// the whole digit run.
fn section_string(name: &str, range: &SignatureRange) -> (r: String)
    requires
        range.0 < range.1 < name@.len(),
    ensures
        r@ == name@.subrange(range.0 as int, range.1 + 1),
{
    let n = name.unicode_len();
    let section = name.substring_char(range.0, range.1 + 1);
    String::from_str(section)
}

/// Checks if the two file names have the same episodic signature, that is, an
/// S01E02 signature matches on both files; returns the match signature.
///
/// The verdict is a function of the two names alone: calling the check twice
/// on the same names returns the same signature.
pub fn episode_name_signature_check(first_name: &str, second_name: &str) -> (r: MatchSignature)
    ensures
        r == (if spec_names_match(first_name@, second_name@) {
            MatchSignature::Match
        } else {
            MatchSignature::NoMatch
        }),
{
    let first_lowered = to_lowercase(first_name);
    let second_lowered = to_lowercase(second_name);

    let first_name_sig_ranges = get_season_episode_sig_range(first_lowered.as_str());
    let second_name_sig_ranges = get_season_episode_sig_range(second_lowered.as_str());

    match (first_name_sig_ranges, second_name_sig_ranges) {
        (
            Some((first_season_range, first_episode_range)),
            Some((second_season_range, second_episode_range)),
        ) => {
            let first_season = section_string(first_lowered.as_str(), &first_season_range);
            let first_episode = section_string(first_lowered.as_str(), &first_episode_range);
            let second_season = section_string(second_lowered.as_str(), &second_season_range);
            let second_episode = section_string(second_lowered.as_str(), &second_episode_range);

            if first_episode == second_episode && first_season == second_season {
                MatchSignature::Match
            } else {
                MatchSignature::NoMatch
            }
        },
        _ => MatchSignature::NoMatch,
    }
}

/// Law: matching is symmetric — two names match in one order exactly when
/// they match in the other.
pub proof fn lemma_names_match_symmetric(first: Seq<char>, second: Seq<char>)
    ensures
        spec_names_match(first, second) == spec_names_match(second, first),
{
}

/// Law: a name in which a season signature or an episode signature cannot be
/// located matches no other name. Stated for a name that is already
/// lowercase, as the locator's inputs are.
pub proof fn lemma_no_signature_no_match(first: Seq<char>, second: Seq<char>)
    requires
        spec_lower(first) == first,
        spec_signature_range(SignatureType::Season, first) is None || spec_signature_range(
            SignatureType::Episode,
            first,
        ) is None,
    ensures
        !spec_names_match(first, second),
{
}

/// ASCII uppercase fold of a single character: the letters 'a' through 'z'
/// move to 'A' through 'Z' and every other character stays as it is.
pub open spec fn upper_char(c: char) -> char {
    if 'a' <= c && c <= 'z' {
        ((c as int) - 32) as char
    } else {
        c
    }
}

/// ASCII uppercase fold of a whole name, character by character.
pub open spec fn spec_upper(s: Seq<char>) -> Seq<char> {
    Seq::new(s.len(), |i: int| upper_char(s[i]))
}

/// Law: matching is case-insensitive — uppercasing a name does not change
/// the verdict against any other name.
pub proof fn lemma_names_match_case_insensitive(first: Seq<char>, second: Seq<char>)
    ensures
        spec_names_match(spec_upper(first), second) == spec_names_match(first, second),
{
    assert forall|i: int| 0 <= i < first.len() implies lower_char(upper_char(first[i]))
        == lower_char(first[i]) by {
        let c = first[i];
        if 'a' <= c && c <= 'z' {
            assert(upper_char(c) as int == c as int - 32);
        }
    }
    assert(spec_lower(spec_upper(first)) =~= spec_lower(first));
}

} // verus!
