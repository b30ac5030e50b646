//! Character-level text primitives shared by the parsers: conversion between
//! strings and character vectors, comparison, whitespace handling,
//! tokenization, path segments and decimal rendering.
//!
//! Every contract here speaks of a string through its view, a `Seq<char>`.

use vstd::prelude::*;

verus! {

/// Whether a character carries the Unicode `White_Space` property: the
/// controls from tab to carriage return, the space, the next-line control,
/// the no-break space, the Ogham space mark, the spaces from en quad to hair
/// space, the line and paragraph separators, the narrow no-break space, the
/// medium mathematical space and the ideographic space.
pub open spec fn unicode_whitespace(c: char) -> bool {
    let code = c as u32;
    ||| 0x09 <= code <= 0x0D
    ||| code == 0x20
    ||| code == 0x85
    ||| code == 0xA0
    ||| code == 0x1680
    ||| 0x2000 <= code <= 0x200A
    ||| code == 0x2028
    ||| code == 0x2029
    ||| code == 0x202F
    ||| code == 0x205F
    ||| code == 0x3000
}

/// Whether a character is whitespace.
pub fn is_whitespace_char(c: char) -> (b: bool)
    ensures
        b == unicode_whitespace(c),
{
    let code = c as u32;
    (0x09 <= code && code <= 0x0D) || code == 0x20 || code == 0x85 || code == 0xA0 || code
        == 0x1680 || (0x2000 <= code && code <= 0x200A) || code == 0x2028 || code == 0x2029
        || code == 0x202F || code == 0x205F || code == 0x3000
}

/// `String::push` appends exactly the given character to the end of the
/// string and leaves the characters before it unchanged.
pub assume_specification[ String::push ](s: &mut String, c: char)
    ensures
        final(s)@ == old(s)@.push(c),
;

/// The byte-order marker that may lead a member's content.
pub const BYTE_ORDER_MARK: char = '\u{FEFF}';

/// The views of a sequence of strings, in order.
pub open spec fn texts(v: Seq<String>) -> Seq<Seq<char>> {
    v.map_values(|s: String| s@)
}

/// Number of bytes the text occupies in UTF-8.
pub open spec fn byte_len(s: Seq<char>) -> nat {
    vstd::utf8::encode_utf8(s).len()
}

/// Where the whitespace of `s` that starts at `from` ends: the position of
/// the first character from `from` on that is not whitespace, or the length
/// of `s`.
pub open spec fn leading_whitespace(s: Seq<char>, from: int) -> int
    decreases s.len() - from,
{
    if 0 <= from < s.len() && unicode_whitespace(s[from]) {
        leading_whitespace(s, from + 1)
    } else {
        from
    }
}

/// Where the byte-order markers of `s` that start at `from` end.
pub open spec fn leading_marks(s: Seq<char>, from: int) -> int
    decreases s.len() - from,
{
    if 0 <= from < s.len() && s[from] == BYTE_ORDER_MARK {
        leading_marks(s, from + 1)
    } else {
        from
    }
}

/// Where the whitespace of `s` that ends at `to` starts, never going below
/// `floor`.
pub open spec fn trailing_whitespace(s: Seq<char>, floor: int, to: int) -> int
    decreases to,
{
    if 0 <= floor < to <= s.len() && unicode_whitespace(s[to - 1]) {
        trailing_whitespace(s, floor, to - 1)
    } else {
        to
    }
}

/// `s` without its leading and trailing whitespace.
pub open spec fn trimmed(s: Seq<char>) -> Seq<char> {
    let start = leading_whitespace(s, 0);
    let end = trailing_whitespace(s, start, s.len() as int);
    s.subrange(start, end)
}

/// `s` without any leading byte-order markers, then trimmed.
pub open spec fn cleaned(s: Seq<char>) -> Seq<char> {
    trimmed(s.skip(leading_marks(s, 0)))
}

/// The closing of a token in progress: nothing if it is empty.
pub open spec fn closed_token(current: Seq<char>) -> Seq<Seq<char>> {
    if current.len() > 0 {
        seq![current]
    } else {
        seq![]
    }
}

/// Whitespace-separated tokens of `s` from position `i` on, given the
/// characters `current` of the token already begun.
pub open spec fn tokens_from(s: Seq<char>, i: int, current: Seq<char>) -> Seq<Seq<char>>
    decreases s.len() - i,
{
    if i < 0 || i >= s.len() {
        closed_token(current)
    } else if unicode_whitespace(s[i]) {
        closed_token(current) + tokens_from(s, i + 1, Seq::empty())
    } else {
        tokens_from(s, i + 1, current.push(s[i]))
    }
}

/// The maximal runs of non-whitespace characters of `s`, left to right.
/// Case and punctuation are untouched.
pub open spec fn whitespace_tokens(s: Seq<char>) -> Seq<Seq<char>> {
    tokens_from(s, 0, Seq::empty())
}

/// The pieces of `s` between occurrences of `separator`, from position `i`
/// on, given the characters `current` of the piece already begun. Unlike
/// tokens, pieces may be empty, and there is always at least one.
pub open spec fn pieces_from(s: Seq<char>, separator: char, i: int, current: Seq<char>) -> Seq<
    Seq<char>,
>
    decreases s.len() - i,
{
    if i < 0 || i >= s.len() {
        seq![current]
    } else if s[i] == separator {
        seq![current] + pieces_from(s, separator, i + 1, Seq::empty())
    } else {
        pieces_from(s, separator, i + 1, current.push(s[i]))
    }
}

/// The pieces of `s` between occurrences of `separator`: one more than
/// there are separators.
pub open spec fn pieces(s: Seq<char>, separator: char) -> Seq<Seq<char>> {
    pieces_from(s, separator, 0, Seq::empty())
}

/// Position of the last `/` of `s` before `to`, or -1 if there is none.
pub open spec fn last_slash(s: Seq<char>, to: int) -> int
    decreases to,
{
    if to <= 0 || to > s.len() {
        -1
    } else if s[to - 1] == '/' {
        to - 1
    } else {
        last_slash(s, to - 1)
    }
}

/// Length of `s` once its last `levels` `/`-separated segments are removed,
/// together with the separators before them. Zero when `s` has no more than
/// `levels` segments.
pub open spec fn ancestor_len(s: Seq<char>, levels: nat) -> int
    decreases levels,
{
    if levels == 0 {
        s.len() as int
    } else {
        let inner = ancestor_len(s, (levels - 1) as nat);
        let cut = last_slash(s, inner);
        if cut < 0 {
            0
        } else {
            cut
        }
    }
}

/// The directory `levels` steps above the path `s`.
pub open spec fn ancestor(s: Seq<char>, levels: nat) -> Seq<char> {
    s.subrange(0, ancestor_len(s, levels))
}

/// The decimal digit for a value below ten.
pub open spec fn digit_char(d: nat) -> char {
    if d == 0 {
        '0'
    } else if d == 1 {
        '1'
    } else if d == 2 {
        '2'
    } else if d == 3 {
        '3'
    } else if d == 4 {
        '4'
    } else if d == 5 {
        '5'
    } else if d == 6 {
        '6'
    } else if d == 7 {
        '7'
    } else if d == 8 {
        '8'
    } else {
        '9'
    }
}

/// Decimal notation of `n`, without sign or leading zeros.
pub open spec fn decimal(n: nat) -> Seq<char>
    decreases n,
{
    if n < 10 {
        seq![digit_char(n)]
    } else {
        decimal(n / 10).push(digit_char(n % 10))
    }
}

/// Leading whitespace ends within the text.
pub proof fn lemma_leading_whitespace_bounds(s: Seq<char>, from: int)
    requires
        0 <= from <= s.len(),
    ensures
        from <= leading_whitespace(s, from) <= s.len(),
    decreases s.len() - from,
{
    if from < s.len() && unicode_whitespace(s[from]) {
        lemma_leading_whitespace_bounds(s, from + 1);
    }
}

/// Trailing whitespace starts between the floor and the end.
pub proof fn lemma_trailing_whitespace_bounds(s: Seq<char>, floor: int, to: int)
    requires
        0 <= floor <= to <= s.len(),
    ensures
        floor <= trailing_whitespace(s, floor, to) <= to,
    decreases to,
{
    if floor < to && unicode_whitespace(s[to - 1]) {
        lemma_trailing_whitespace_bounds(s, floor, to - 1);
    }
}

/// Leading whitespace ends at the end of the text or before a character that
/// is not whitespace.
pub proof fn lemma_leading_whitespace_stops(s: Seq<char>, from: int)
    requires
        0 <= from <= s.len(),
    ensures
        leading_whitespace(s, from) < s.len() ==> !unicode_whitespace(
            s[leading_whitespace(s, from)],
        ),
        forall|i: int| from <= i < leading_whitespace(s, from) ==> unicode_whitespace(s[i]),
    decreases s.len() - from,
{
    if from < s.len() && unicode_whitespace(s[from]) {
        lemma_leading_whitespace_stops(s, from + 1);
    }
}

/// Dropping trailing whitespace never drops a character that is not
/// whitespace.
pub proof fn lemma_trailing_whitespace_keeps(s: Seq<char>, floor: int, to: int)
    requires
        0 <= floor < to <= s.len(),
        !unicode_whitespace(s[floor]),
    ensures
        floor < trailing_whitespace(s, floor, to),
    decreases to,
{
    if unicode_whitespace(s[to - 1]) {
        lemma_trailing_whitespace_keeps(s, floor, to - 1);
    }
}

/// Trailing whitespace starts behind a character that is not whitespace,
/// unless it starts at the floor.
pub proof fn lemma_trailing_whitespace_stops(s: Seq<char>, floor: int, to: int)
    requires
        0 <= floor <= to <= s.len(),
    ensures
        floor < trailing_whitespace(s, floor, to) ==> !unicode_whitespace(
            s[trailing_whitespace(s, floor, to) - 1],
        ),
    decreases to,
{
    if floor < to && unicode_whitespace(s[to - 1]) {
        lemma_trailing_whitespace_stops(s, floor, to - 1);
    }
}

/// Trimmed text neither begins nor ends with whitespace.
pub proof fn lemma_trimmed_tight(s: Seq<char>)
    ensures
        trimmed(s).len() > 0 ==> !unicode_whitespace(trimmed(s).first()) && !unicode_whitespace(
            trimmed(s).last(),
        ),
{
    let start = leading_whitespace(s, 0);
    lemma_leading_whitespace_bounds(s, 0);
    lemma_leading_whitespace_stops(s, 0);
    lemma_trailing_whitespace_bounds(s, start, s.len() as int);
    lemma_trailing_whitespace_stops(s, start, s.len() as int);
}

/// The pieces `parts` with `separator` between each two of them.
pub open spec fn joined(parts: Seq<Seq<char>>, separator: char) -> Seq<char>
    decreases parts.len(),
{
    if parts.len() == 0 {
        Seq::empty()
    } else if parts.len() == 1 {
        parts[0]
    } else {
        parts[0].push(separator) + joined(parts.drop_first(), separator)
    }
}

/// All of `parts`, one after the other.
pub open spec fn flattened(parts: Seq<Seq<char>>) -> Seq<char>
    decreases parts.len(),
{
    if parts.len() == 0 {
        Seq::empty()
    } else {
        parts[0] + flattened(parts.drop_first())
    }
}

/// The test for a character that is not whitespace.
pub open spec fn is_visible() -> spec_fn(char) -> bool {
    |c: char| !unicode_whitespace(c)
}

/// Whether `text` holds no `c`.
pub open spec fn free_of(text: Seq<char>, c: char) -> bool {
    forall|i: int| 0 <= i < text.len() ==> text[i] != c
}

/// Whether `text` holds no whitespace.
pub open spec fn all_visible(text: Seq<char>) -> bool {
    forall|i: int| 0 <= i < text.len() ==> !unicode_whitespace(text[i])
}

/// Splitting from a position on gives at least one piece; the pieces hold
/// no separator; and joined by the separator they give back the piece begun
/// followed by the rest of the text.
pub proof fn lemma_pieces_from(s: Seq<char>, separator: char, i: int, current: Seq<char>)
    requires
        0 <= i <= s.len(),
        free_of(current, separator),
    ensures
        pieces_from(s, separator, i, current).len() >= 1,
        forall|k: int|
            0 <= k < pieces_from(s, separator, i, current).len() ==> free_of(
                #[trigger] pieces_from(s, separator, i, current)[k],
                separator,
            ),
        joined(pieces_from(s, separator, i, current), separator) == current + s.skip(i),
    decreases s.len() - i,
{
    let out = pieces_from(s, separator, i, current);
    if i >= s.len() {
        assert(current + s.skip(i) =~= current);
    } else if s[i] == separator {
        let rest = pieces_from(s, separator, i + 1, Seq::empty());
        lemma_pieces_from(s, separator, i + 1, Seq::empty());
        assert(out.drop_first() =~= rest);
        assert(out[0] == current);
        assert(current.push(separator) + (Seq::<char>::empty() + s.skip(i + 1)) =~= current
            + s.skip(i));
        assert forall|k: int| 0 <= k < out.len() implies free_of(#[trigger] out[k], separator) by {
            if k > 0 {
                assert(out[k] == rest[k - 1]);
            }
        }
    } else {
        lemma_pieces_from(s, separator, i + 1, current.push(s[i]));
        assert(current.push(s[i]) + s.skip(i + 1) =~= current + s.skip(i));
    }
}

/// Splitting and joining undo each other: the pieces of a text, joined by
/// the separator, are the text; there is at least one piece, and no piece
/// holds the separator.
pub proof fn lemma_pieces_join(s: Seq<char>, separator: char)
    ensures
        pieces(s, separator).len() >= 1,
        forall|k: int|
            0 <= k < pieces(s, separator).len() ==> free_of(
                #[trigger] pieces(s, separator)[k],
                separator,
            ),
        joined(pieces(s, separator), separator) == s,
{
    lemma_pieces_from(s, separator, 0, Seq::empty());
    assert(Seq::<char>::empty() + s.skip(0) =~= s);
}

/// Tokens from a position on are not empty and hold no whitespace; one
/// after the other they are the token begun followed by what is not
/// whitespace in the rest of the text.
pub proof fn lemma_tokens_from(s: Seq<char>, i: int, current: Seq<char>)
    requires
        0 <= i <= s.len(),
        all_visible(current),
    ensures
        forall|k: int|
            0 <= k < tokens_from(s, i, current).len() ==> (#[trigger] tokens_from(
                s,
                i,
                current,
            )[k]).len() > 0 && all_visible(tokens_from(s, i, current)[k]),
        flattened(tokens_from(s, i, current)) == current + s.skip(i).filter(is_visible()),
    decreases s.len() - i,
{
    let out = tokens_from(s, i, current);
    let closed = closed_token(current);
    assert(flattened(closed) =~= current) by {
        if current.len() > 0 {
            assert(closed.drop_first() =~= Seq::<Seq<char>>::empty());
            assert(flattened(closed.drop_first()) =~= Seq::<char>::empty());
        }
    }
    if i >= s.len() {
        crate::sequences::lemma_filter_none(s.skip(i), is_visible());
        assert(current + s.skip(i).filter(is_visible()) =~= current);
    } else {
        let tail = s.skip(i + 1);
        assert(s.skip(i) =~= seq![s[i]] + tail);
        Seq::filter_distributes_over_add(seq![s[i]], tail, is_visible());
        Seq::<char>::empty().lemma_filter_push(s[i], is_visible());
        assert(Seq::<char>::empty().push(s[i]) =~= seq![s[i]]);
        crate::sequences::lemma_filter_none(Seq::<char>::empty(), is_visible());
        if unicode_whitespace(s[i]) {
            let rest = tokens_from(s, i + 1, Seq::empty());
            lemma_tokens_from(s, i + 1, Seq::empty());
            lemma_flattened_add(closed, rest);
            assert(Seq::<char>::empty() + tail.filter(is_visible()) =~= tail.filter(
                is_visible(),
            ));
            assert(s.skip(i).filter(is_visible()) =~= tail.filter(is_visible()));
            assert forall|k: int| 0 <= k < out.len() implies (#[trigger] out[k]).len() > 0
                && all_visible(out[k]) by {
                if current.len() > 0 {
                    if k > 0 {
                        assert(out[k] == rest[k - 1]);
                    }
                } else {
                    assert(out[k] == rest[k]);
                }
            }
        } else {
            lemma_tokens_from(s, i + 1, current.push(s[i]));
            assert(s.skip(i).filter(is_visible()) =~= seq![s[i]] + tail.filter(is_visible()));
            assert(current.push(s[i]) + tail.filter(is_visible()) =~= current + s.skip(i).filter(
                is_visible(),
            ));
        }
    }
}

/// Flattening two runs of parts is flattening each and putting the results
/// together.
pub proof fn lemma_flattened_add(a: Seq<Seq<char>>, b: Seq<Seq<char>>)
    ensures
        flattened(a + b) == flattened(a) + flattened(b),
    decreases a.len(),
{
    if a.len() == 0 {
        assert(a + b =~= b);
        assert(flattened(a) + flattened(b) =~= flattened(b));
    } else {
        lemma_flattened_add(a.drop_first(), b);
        assert((a + b).drop_first() =~= a.drop_first() + b);
        assert(flattened(a + b) =~= flattened(a) + flattened(b));
    }
}

/// The tokens of a text are not empty and hold no whitespace; one after the
/// other they are the text without its whitespace.
pub proof fn lemma_tokens_cover(s: Seq<char>)
    ensures
        forall|k: int|
            0 <= k < whitespace_tokens(s).len() ==> (#[trigger] whitespace_tokens(s)[k]).len() > 0
                && all_visible(whitespace_tokens(s)[k]),
        flattened(whitespace_tokens(s)) == s.filter(is_visible()),
{
    lemma_tokens_from(s, 0, Seq::empty());
    assert(s.skip(0) =~= s);
    assert(Seq::<char>::empty() + s.filter(is_visible()) =~= s.filter(is_visible()));
}

/// The last `/` before a position is the one behind which no other follows.
pub proof fn lemma_last_slash_at(s: Seq<char>, at: int, to: int)
    requires
        0 <= at < to <= s.len(),
        s[at] == '/',
        forall|j: int| at < j < to ==> s[j] != '/',
    ensures
        last_slash(s, to) == at,
    decreases to,
{
    if at < to - 1 {
        lemma_last_slash_at(s, at, to - 1);
    }
}

/// A path made of a directory, a `/` and a name without `/` has the
/// directory one step above it.
pub proof fn lemma_ancestor_of_child(directory: Seq<char>, name: Seq<char>)
    requires
        free_of(name, '/'),
    ensures
        ancestor(directory.push('/') + name, 1) == directory,
        ancestor_len(directory.push('/') + name, 1) == directory.len(),
{
    let path = directory.push('/') + name;
    assert forall|j: int| directory.len() < j < path.len() implies path[j] != '/' by {
        assert(path[j] == name[j - directory.len() - 1]);
    }
    lemma_last_slash_at(path, directory.len() as int, path.len() as int);
    assert(ancestor_len(path, 0) == path.len());
    assert(path.subrange(0, directory.len() as int) =~= directory);
}

/// A path two names below a directory has the directory two steps above
/// it.
pub proof fn lemma_ancestor_of_grandchild(directory: Seq<char>, child: Seq<char>, name: Seq<char>)
    requires
        free_of(child, '/'),
        free_of(name, '/'),
    ensures
        ancestor((directory.push('/') + child).push('/') + name, 2) == directory,
{
    let parent = directory.push('/') + child;
    let path = parent.push('/') + name;
    lemma_ancestor_of_child(parent, name);
    assert forall|j: int| directory.len() < j < parent.len() implies path[j] != '/' by {
        assert(path[j] == child[j - directory.len() - 1]);
    }
    lemma_last_slash_at(path, directory.len() as int, parent.len() as int);
    assert(path.subrange(0, directory.len() as int) =~= directory);
}

/// The characters of a string, in order.
pub fn chars_of(s: &str) -> (v: Vec<char>)
    ensures
        v@ == s@,
{
    let mut v: Vec<char> = Vec::new();
    for c in it: s.chars()
        invariant
            v@ == it.seq().take(it.index() as int),
    {
        v.push(c);
    }
    v
}

/// The string made of `chars[from..to]`.
pub fn string_of(chars: &Vec<char>, from: usize, to: usize) -> (s: String)
    requires
        from <= to <= chars.len(),
    ensures
        s@ == chars@.subrange(from as int, to as int),
{
    let mut s = String::new();
    let mut i: usize = from;
    while i < to
        invariant
            from <= i <= to <= chars.len(),
            s@ == chars@.subrange(from as int, i as int),
        decreases to - i,
    {
        s.push(chars[i]);
        i += 1;
        assert(chars@.subrange(from as int, i as int) == chars@.subrange(
            from as int,
            i as int - 1,
        ).push(chars@[i as int - 1]));
    }
    s
}

/// Whether two strings hold the same characters.
pub fn same_text(a: &str, b: &str) -> (r: bool)
    ensures
        r == (a@ == b@),
{
    let x = chars_of(a);
    let y = chars_of(b);
    if x.len() != y.len() {
        return false;
    }
    let mut i: usize = 0;
    while i < x.len()
        invariant
            x.len() == y.len(),
            i <= x.len(),
            forall|j: int| 0 <= j < i ==> x[j] == y[j],
            x@ == a@,
            y@ == b@,
        decreases x.len() - i,
    {
        if x[i] != y[i] {
            return false;
        }
        i += 1;
    }
    assert(x@ =~= y@);
    true
}

/// Removes leading byte-order markers and surrounding whitespace.
pub fn clean_text(content: &str) -> (r: String)
    ensures
        r@ == cleaned(content@),
{
    let chars = chars_of(content);
    let n = chars.len();
    let mut m: usize = 0;
    while m < n && chars[m] == BYTE_ORDER_MARK
        invariant
            m <= n == chars.len(),
            leading_marks(chars@, 0) == leading_marks(chars@, m as int),
        decreases n - m,
    {
        m += 1;
    }
    let ghost rest = chars@.skip(m as int);
    let mut start: usize = m;
    while start < n && is_whitespace_char(chars[start])
        invariant
            m <= start <= n == chars.len(),
            rest == chars@.skip(m as int),
            leading_whitespace(rest, 0) == leading_whitespace(rest, start - m),
        decreases n - start,
    {
        start += 1;
    }
    let mut end: usize = n;
    while end > start && is_whitespace_char(chars[end - 1])
        invariant
            m <= start <= end <= n == chars.len(),
            rest == chars@.skip(m as int),
            trailing_whitespace(rest, start - m, rest.len() as int) == trailing_whitespace(
                rest,
                start - m,
                end - m,
            ),
        decreases end,
    {
        end -= 1;
    }
    assert(rest.subrange(start - m, end - m) =~= chars@.subrange(start as int, end as int));
    string_of(&chars, start, end)
}

/// Splits on whitespace, keeping case and punctuation.
pub fn tokenize(content: &str) -> (words: Vec<String>)
    ensures
        texts(words@) == whitespace_tokens(content@),
{
    let chars = chars_of(content);
    let n = chars.len();
    let mut words: Vec<String> = Vec::new();
    let mut current = String::new();
    let mut pending: usize = 0;
    let mut i: usize = 0;
    assert(texts(words@) + tokens_from(chars@, 0, current@) =~= whitespace_tokens(chars@));
    while i < n
        invariant
            i <= n == chars.len(),
            pending == current@.len(),
            pending <= i,
            texts(words@) + tokens_from(chars@, i as int, current@) == whitespace_tokens(chars@),
        decreases n - i,
    {
        let c = chars[i];
        let ghost before = texts(words@);
        let ghost token = current@;
        let ghost rest = tokens_from(chars@, i + 1, Seq::empty());
        if is_whitespace_char(c) {
            if pending > 0 {
                words.push(current);
                current = String::new();
                pending = 0;
                assert(texts(words@) =~= before + seq![token]);
            }
            assert(current@ =~= Seq::<char>::empty());
            assert(texts(words@) =~= before + closed_token(token));
            assert(texts(words@) + rest =~= before + (closed_token(token) + rest));
        } else {
            current.push(c);
            pending += 1;
        }
        i += 1;
    }
    if pending > 0 {
        let ghost before = texts(words@);
        let ghost token = current@;
        words.push(current);
        assert(texts(words@) =~= before + seq![token]);
    } else {
        assert(texts(words@) + closed_token(current@) =~= texts(words@));
    }
    words
}

/// Splits on every occurrence of `separator`, keeping empty pieces.
pub fn split_on(content: &str, separator: char) -> (parts: Vec<String>)
    ensures
        texts(parts@) == pieces(content@, separator),
{
    let chars = chars_of(content);
    let n = chars.len();
    let mut parts: Vec<String> = Vec::new();
    let mut current = String::new();
    let mut i: usize = 0;
    assert(texts(parts@) + pieces_from(chars@, separator, 0, current@) =~= pieces(
        chars@,
        separator,
    ));
    while i < n
        invariant
            i <= n == chars.len(),
            texts(parts@) + pieces_from(chars@, separator, i as int, current@) == pieces(
                chars@,
                separator,
            ),
        decreases n - i,
    {
        let c = chars[i];
        let ghost before = texts(parts@);
        let ghost piece = current@;
        let ghost rest = pieces_from(chars@, separator, i + 1, Seq::empty());
        if c == separator {
            parts.push(current);
            current = String::new();
            assert(texts(parts@) =~= before + seq![piece]);
            assert(texts(parts@) + rest =~= before + (seq![piece] + rest));
        } else {
            current.push(c);
        }
        i += 1;
    }
    let ghost before = texts(parts@);
    let ghost piece = current@;
    parts.push(current);
    assert(texts(parts@) =~= before + seq![piece]);
    parts
}

/// The directory `levels` steps above `path`: the path without its last
/// `levels` segments.
pub fn ancestor_path(path: &str, levels: usize) -> (r: String)
    ensures
        r@ == ancestor(path@, levels as nat),
{
    let chars = chars_of(path);
    let mut len: usize = chars.len();
    let mut done: usize = 0;
    while done < levels
        invariant
            done <= levels,
            len <= chars.len(),
            len == ancestor_len(chars@, done as nat),
        decreases levels - done,
    {
        let mut j: usize = len;
        while j > 0 && chars[j - 1] != '/'
            invariant
                j <= len <= chars.len(),
                last_slash(chars@, len as int) == last_slash(chars@, j as int),
            decreases j,
        {
            j -= 1;
        }
        if j > 0 {
            len = j - 1;
        } else {
            len = 0;
        }
        done += 1;
    }
    string_of(&chars, 0, len)
}

fn digit(d: u64) -> (c: char)
    requires
        d < 10,
    ensures
        c == digit_char(d as nat),
{
    if d == 0 {
        '0'
    } else if d == 1 {
        '1'
    } else if d == 2 {
        '2'
    } else if d == 3 {
        '3'
    } else if d == 4 {
        '4'
    } else if d == 5 {
        '5'
    } else if d == 6 {
        '6'
    } else if d == 7 {
        '7'
    } else if d == 8 {
        '8'
    } else {
        '9'
    }
}

/// Appends the decimal notation of `n` to `out`.
pub fn push_decimal(out: &mut String, n: u64)
    ensures
        final(out)@ == old(out)@ + decimal(n as nat),
    decreases n,
{
    if n >= 10 {
        push_decimal(out, n / 10);
    }
    out.push(digit(n % 10));
    assert(out@ =~= old(out)@ + decimal(n as nat));
}

/// Number of characters of `s`.
pub fn char_length(s: &str) -> (n: usize)
    ensures
        n == s@.len(),
{
    s.unicode_len()
}

/// Number of bytes `s` occupies.
pub fn byte_length(s: &str) -> (n: usize)
    ensures
        n == byte_len(s@),
{
    s.as_bytes().len()
}

/// Whether `chars` spells out `text`.
pub fn spells(chars: &Vec<char>, text: &str) -> (r: bool)
    ensures
        r == (chars@ == text@),
{
    let mut same = true;
    let mut i: usize = 0;
    for c in it: text.chars()
        invariant
            it.seq() == text@,
            i <= chars.len(),
            same ==> i == it.index() && forall|j: int| 0 <= j < i ==> chars@[j] == text@[j],
            !same ==> chars@ != text@,
    {
        if same {
            if i < chars.len() && chars[i] == c {
                i += 1;
            } else {
                same = false;
                assert(i < chars.len() ==> chars@[i as int] != text@[i as int]);
            }
        }
    }
    if same && i == chars.len() {
        assert(chars@ =~= text@);
        true
    } else {
        false
    }
}

} // verus!
