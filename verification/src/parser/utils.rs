//! Decoding primitives and layout resolution.

use crate::error::{Area, ExtractError, ParseError};
use crate::parser::Parser;
use crate::pattern::{pattern_accepted, pattern_matches, Pattern};
use crate::text::{
    ancestor, ancestor_path, chars_of, clean_text, cleaned, is_whitespace_char, texts, tokenize,
    trimmed,
    whitespace_tokens,
};
use vstd::prelude::*;

verus! {

/// Paths of channel metadata: a directory of 16 to 32 digits, with or
/// without the prefix `c`, holding `channel.json`.
pub const MESSAGES_PATTERN: &'static str = r"/c?[0-9]{16,32}/channel\.json$";

/// Paths of guild metadata: a directory of 16 to 32 digits holding
/// `guild.json`.
pub const SERVERS_PATTERN: &'static str = r"/[0-9]{16,32}/guild\.json$";

/// The path of the profile: `user.json` in a top-level directory.
pub const USER_PATTERN: &'static str = r"^([^/]+)/user\.json$";

/// Position of the first of `names`, from `from` on, that `pattern` matches,
/// or -1 if it matches none.
pub open spec fn first_match(names: Seq<Seq<char>>, pattern: Seq<char>, from: int) -> int
    decreases names.len() - from,
{
    if from < 0 || from >= names.len() {
        -1
    } else if pattern_matches(pattern, names[from]) {
        from
    } else {
        first_match(names, pattern, from + 1)
    }
}

/// The root that `pattern` finds among `names`: the directory `levels`
/// steps above the first name that matches.
pub open spec fn root_found(names: Seq<Seq<char>>, pattern: Seq<char>, levels: nat) -> Option<
    Seq<char>,
> {
    let at = first_match(names, pattern, 0);
    if at >= 0 {
        Some(ancestor(names[at], levels))
    } else {
        None
    }
}

/// What looking for a root with `pattern` gives: the pattern error if the
/// pattern compiler does not accept the pattern; else the root found; else
/// the error that names the area whose layout is missing.
pub open spec fn root_outcome(
    names: Seq<Seq<char>>,
    pattern: Seq<char>,
    levels: nat,
    area: Area,
) -> Result<Seq<char>, ExtractError> {
    if !pattern_accepted(pattern) {
        Err(ExtractError::Pattern)
    } else {
        match root_found(names, pattern, levels) {
            Some(root) => Ok(root),
            None => Err(ExtractError::MissingLayout(area)),
        }
    }
}

/// Whether `r` is the outcome `expected`, the root taken by its text.
pub open spec fn is_root_outcome(
    r: Result<String, ExtractError>,
    expected: Result<Seq<char>, ExtractError>,
) -> bool {
    match r {
        Ok(root) => expected == Ok::<Seq<char>, ExtractError>(root@),
        Err(e) => expected == Err::<Seq<char>, ExtractError>(e),
    }
}

/// Whether trimmed content starts like a JSON object or array.
pub open spec fn json_framed(content: Seq<char>) -> bool {
    let t = trimmed(content);
    t.len() > 0 && (t[0] == '{' || t[0] == '[')
}

/// What the two-stage decoding strategy gives for `content`: nothing is
/// tried on content that is empty or not framed as JSON; else the fast
/// decoder's value counts, and the strict decoder's only if the fast one
/// failed.
pub open spec fn json_decision<T>(
    content: Seq<char>,
    fast: Result<T, String>,
    strict: Result<T, String>,
) -> Result<T, ParseError> {
    if trimmed(content).len() == 0 {
        Err(ParseError::Empty)
    } else if !json_framed(content) {
        Err(ParseError::InvalidFormat)
    } else {
        match fast {
            Ok(value) => Ok(value),
            Err(fast_diagnostic) => match strict {
                Ok(value) => Ok(value),
                Err(strict_diagnostic) => Err(
                    ParseError::BothFailed { fast: fast_diagnostic, strict: strict_diagnostic },
                ),
            },
        }
    }
}

impl<'a> Parser<'a> {
    /// The content of a member as the decoders get it: without leading
    /// byte-order markers and surrounding whitespace. Content that is empty
    /// after that counts as absent.
    pub fn read_file(raw: &str) -> (r: Option<String>)
        ensures
            match r {
                Some(content) => content@ == cleaned(raw@) && content@.len() > 0,
                None => cleaned(raw@).len() == 0,
            },
    {
        let content = clean_text(raw);
        if content.as_str().is_empty() {
            None
        } else {
            Some(content)
        }
    }

    /// Whether content may be handed to a JSON decoder: trimmed, it is not
    /// empty and starts with `{` or `[`.
    pub fn check_json_framing(content: &str) -> (r: Result<(), ParseError>)
        ensures
            r is Ok <==> json_framed(content@),
            r is Err ==> r == Err::<(), ParseError>(
                if trimmed(content@).len() == 0 {
                    ParseError::Empty
                } else {
                    ParseError::InvalidFormat
                },
            ),
    {
        let chars = chars_of(content);
        let n = chars.len();
        let mut start: usize = 0;
        while start < n && is_whitespace_char(chars[start])
            invariant
                start <= n == chars.len(),
                crate::text::leading_whitespace(chars@, 0) == crate::text::leading_whitespace(
                    chars@,
                    start as int,
                ),
            decreases n - start,
        {
            start += 1;
        }
        proof {
            crate::text::lemma_trailing_whitespace_bounds(chars@, start as int, n as int);
            lemma_trimmed_first(chars@);
        }
        if start == n {
            Err(ParseError::Empty)
        } else if chars[start] == '{' || chars[start] == '[' {
            Ok(())
        } else {
            Err(ParseError::InvalidFormat)
        }
    }

    /// The two-stage decoding strategy, given what each decoder made of
    /// `content`. The strict decoder's outcome is not looked at when the
    /// fast decoder succeeded.
    pub fn parse_json<T>(content: &str, fast: Result<T, String>, strict: Result<T, String>) -> (r:
        Result<T, ParseError>)
        ensures
            r == json_decision(content@, fast, strict),
    {
        match Parser::check_json_framing(content) {
            Err(e) => Err(e),
            Ok(()) => match fast {
                Ok(value) => Ok(value),
                Err(fast_diagnostic) => match strict {
                    Ok(value) => Ok(value),
                    Err(strict_diagnostic) => Err(
                        ParseError::BothFailed { fast: fast_diagnostic, strict: strict_diagnostic },
                    ),
                },
            },
        }
    }

    /// Whether the archive has a member called `path`.
    pub fn file_exists(&self, path: &str) -> (b: bool)
        requires
            self.file_index.wf(),
        ensures
            b == self.file_index.contains(path@),
    {
        self.file_index.has(path)
    }

    /// The whitespace-separated tokens of `content`, case and punctuation
    /// preserved.
    pub fn process_words(content: &str) -> (words: Vec<String>)
        ensures
            texts(words@) == whitespace_tokens(content@),
    {
        tokenize(content)
    }

    /// The root that a compiled pattern finds among `files`: the directory
    /// `levels` steps above the first file it matches. Without a match the
    /// layout of `area` is missing.
    pub fn find_root(re: &Pattern, files: &Vec<String>, levels: usize, area: Area) -> (r: Result<
        String,
        ExtractError,
    >)
        ensures
            match r {
                Ok(root) => root_found(texts(files@), re.source(), levels as nat) == Some(
                    root@,
                ),
                Err(e) => e == ExtractError::MissingLayout(area) && root_found(
                    texts(files@),
                    re.source(),
                    levels as nat,
                ) is None,
            },
    {
        let mut i: usize = 0;
        while i < files.len()
            invariant
                i <= files.len(),
                first_match(texts(files@), re.source(), 0) == first_match(
                    texts(files@),
                    re.source(),
                    i as int,
                ),
            decreases files.len() - i,
        {
            assert(texts(files@)[i as int] == files@[i as int]@);
            if re.is_match(files[i].as_str()) {
                return Ok(ancestor_path(files[i].as_str(), levels));
            }
            i += 1;
        }
        Err(ExtractError::MissingLayout(area))
    }

    /// Compiles `pattern` and looks for the root it finds among `files`: the
    /// pattern error if the pattern is not accepted, else the result of
    /// `find_root`.
    pub fn locate_root(pattern: &str, files: &Vec<String>, levels: usize, area: Area) -> (r: Result<
        String,
        ExtractError,
    >)
        ensures
            is_root_outcome(r, root_outcome(texts(files@), pattern@, levels as nat, area)),
    {
        match Pattern::compile(pattern) {
            Some(re) => Parser::find_root(&re, files, levels, area),
            None => Err(ExtractError::Pattern),
        }
    }

    /// The messages root: the grandparent directory of the first member
    /// that is the metadata file of a channel.
    pub fn get_messages_root(files: &Vec<String>) -> (r: Result<String, ExtractError>)
        ensures
            is_root_outcome(r, root_outcome(texts(files@), MESSAGES_PATTERN@, 2, Area::Messages)),
    {
        Parser::locate_root(MESSAGES_PATTERN, files, 2, Area::Messages)
    }

    /// The servers root: the grandparent directory of the first member that
    /// is the metadata file of a guild.
    pub fn get_servers_root(files: &Vec<String>) -> (r: Result<String, ExtractError>)
        ensures
            is_root_outcome(r, root_outcome(texts(files@), SERVERS_PATTERN@, 2, Area::Servers)),
    {
        Parser::locate_root(SERVERS_PATTERN, files, 2, Area::Servers)
    }

    /// The profile root: the parent directory of the first member that is a
    /// top-level `user.json`.
    pub fn get_user_root(files: &Vec<String>) -> (r: Result<String, ExtractError>)
        ensures
            is_root_outcome(r, root_outcome(texts(files@), USER_PATTERN@, 1, Area::User)),
    {
        Parser::locate_root(USER_PATTERN, files, 1, Area::User)
    }
}

/// Trimmed content begins at the first character that is not whitespace.
pub proof fn lemma_trimmed_first(s: Seq<char>)
    ensures
        ({
            let start = crate::text::leading_whitespace(s, 0);
            &&& 0 <= start <= s.len()
            &&& (start == s.len() ==> trimmed(s).len() == 0)
            &&& (start < s.len() ==> trimmed(s).len() > 0 && trimmed(s)[0] == s[start])
        }),
{
    let start = crate::text::leading_whitespace(s, 0);
    crate::text::lemma_leading_whitespace_bounds(s, 0);
    crate::text::lemma_trailing_whitespace_bounds(s, start, s.len() as int);
    crate::text::lemma_leading_whitespace_stops(s, 0);
    if start < s.len() {
        crate::text::lemma_trailing_whitespace_keeps(s, start, s.len() as int);
    }
}

} // verus!
