//! Character-level text rules shared by the container adapters: ASCII case
//! folding, suffix tests, trimming and splitting on a separator.

use vstd::prelude::*;

verus! {

/// The lower-case form of an ASCII capital letter; any other character is
/// left as it is.
pub open spec fn ascii_lower(c: char) -> char {
    if 'A' <= c && c <= 'Z' {
        ((c as u8) + 32) as char
    } else {
        c
    }
}

/// `s` with every ASCII capital letter lower-cased.
pub open spec fn ascii_lowered(s: Seq<char>) -> Seq<char> {
    s.map_values(|c: char| ascii_lower(c))
}

/// Whether `s` ends with `suffix`.
pub open spec fn ends_with(s: Seq<char>, suffix: Seq<char>) -> bool {
    suffix.len() <= s.len() && s.subrange(s.len() - suffix.len(), s.len() as int) == suffix
}

/// `s` without its leading white space.
pub open spec fn trim_start(s: Seq<char>) -> Seq<char>
    decreases s.len(),
{
    if s.len() > 0 && is_whitespace(s[0]) {
        trim_start(s.drop_first())
    } else {
        s
    }
}

/// `s` without its trailing white space.
pub open spec fn trim_end(s: Seq<char>) -> Seq<char>
    decreases s.len(),
{
    if s.len() > 0 && is_whitespace(s.last()) {
        trim_end(s.drop_last())
    } else {
        s
    }
}

/// `s` without leading and trailing white space.
pub open spec fn trimmed(s: Seq<char>) -> Seq<char> {
    trim_end(trim_start(s))
}

/// The pieces of `s` that lie between occurrences of `sep`, in order. A
/// sequence with n separators has n + 1 pieces, some of which may be empty.
pub open spec fn split_on(s: Seq<char>, sep: char) -> Seq<Seq<char>>
    decreases s.len(),
{
    if s.len() == 0 {
        seq![Seq::<char>::empty()]
    } else {
        let before = split_on(s.drop_last(), sep);
        if s.last() == sep {
            before.push(Seq::<char>::empty())
        } else {
            before.drop_last().push(before.last().push(s.last()))
        }
    }
}

/// Each of `pieces` trimmed, with those that are empty after trimming left
/// out.
pub open spec fn kept(pieces: Seq<Seq<char>>) -> Seq<Seq<char>> {
    pieces.map_values(|piece: Seq<char>| trimmed(piece)).filter(
        |token: Seq<char>| token.len() > 0,
    )
}

/// The tokens of a separated list: each piece between separators, trimmed,
/// with the pieces that are empty after trimming left out.
pub open spec fn tokens(s: Seq<char>, sep: char) -> Seq<Seq<char>> {
    kept(split_on(s, sep))
}

/// What `char::is_whitespace` answers for `c`: whether Unicode counts `c` as
/// white space.
pub uninterp spec fn is_whitespace(c: char) -> bool;

/// `char::is_whitespace` of std. The answer depends on the character alone,
/// so it is given the name [`is_whitespace`].
pub assume_specification[ char::is_whitespace ](c: char) -> (r: bool)
    ensures
        r == is_whitespace(c),
;

/// What `str::to_lowercase` returns for a string with the characters `s`: its
/// lower-case equivalent under the Unicode case mapping.
pub uninterp spec fn lowercase(s: Seq<char>) -> Seq<char>;

/// `str::to_lowercase` of std. The mapping is fixed by Unicode and takes no
/// locale, so the result is given the name [`lowercase`].
pub assume_specification[ str::to_lowercase ](s: &str) -> (r: String)
    ensures
        r@ == lowercase(s@),
;

/// What `{:?}` shows of a path with the characters `s`: the path between
/// double quotes, with the characters that need it escaped.
pub uninterp spec fn quoted(s: Seq<char>) -> Seq<char>;

/// Formats `s` as a path with `{:?}`, through `Path::new` and the `Debug`
/// impl of `Path` in std. For a path that is valid UTF-8, as every `&str` is,
/// the output depends on the characters alone, so it is given the name
/// [`quoted`].
#[verifier::external_body]
pub(crate) fn quote(s: &str) -> (r: String)
    ensures
        r@ == quoted(s@),
{
    format!("{:?}", std::path::Path::new(s))
}

/// What `String::from_utf8_lossy` returns for bytes that are not valid
/// UTF-8: the text of the valid stretches, with U+FFFD in place of each
/// sequence that is not valid.
pub uninterp spec fn utf8_lossy(bytes: Seq<u8>) -> Seq<char>;

/// The text that `bytes` stand for: what they encode if they are valid
/// UTF-8, else what is left of it with replacement characters.
pub open spec fn lossy_text(bytes: Seq<u8>) -> Seq<char> {
    if vstd::utf8::valid_utf8(bytes) {
        vstd::utf8::decode_utf8(bytes)
    } else {
        utf8_lossy(bytes)
    }
}

/// `String::from_utf8_lossy` of std, with the result as an owned `String`.
/// For valid UTF-8 std documents that the text comes back unchanged. For
/// other bytes the result depends on the bytes alone and is given the name
/// [`utf8_lossy`].
#[verifier::external_body]
pub(crate) fn decode_lossy(bytes: &[u8]) -> (r: String)
    ensures
        vstd::utf8::valid_utf8(bytes@) ==> r@ == vstd::utf8::decode_utf8(bytes@),
        !vstd::utf8::valid_utf8(bytes@) ==> r@ == utf8_lossy(bytes@),
{
    String::from_utf8_lossy(bytes).into_owned()
}

/// The lower-case form of an ASCII capital letter; any other character is
/// returned as it is.
pub fn to_ascii_lower(c: char) -> (r: char)
    ensures
        r == ascii_lower(c),
{
    if 'A' <= c && c <= 'Z' {
        ((c as u8) + 32) as char
    } else {
        c
    }
}

/// The characters of `s`, in order.
pub fn chars_of(s: &str) -> (v: Vec<char>)
    ensures
        v@ == s@,
{
    let mut v: Vec<char> = Vec::new();
    for c in it: s.chars()
        invariant
            it.seq() == s@,
            v@ == it.seq().take(it.index()),
    {
        assert(it.seq().take(it.index() + 1) =~= it.seq().take(it.index()).push(c));
        v.push(c);
    }
    assert(s@.take(s@.len() as int) =~= s@);
    v
}

/// Whether `chars`, with ASCII capitals lower-cased, spell exactly `word`.
pub fn lowered_is(chars: &[char], word: &[char]) -> (r: bool)
    ensures
        r == (ascii_lowered(chars@) == word@),
{
    if chars.len() != word.len() {
        return false;
    }
    let mut i: usize = 0;
    while i < chars.len()
        invariant
            chars.len() == word.len(),
            i <= chars.len(),
            forall|k: int| 0 <= k < i ==> ascii_lower(chars@[k]) == word@[k],
        decreases chars.len() - i,
    {
        if to_ascii_lower(chars[i]) != word[i] {
            assert(ascii_lowered(chars@)[i as int] != word@[i as int]);
            return false;
        }
        i += 1;
    }
    assert(ascii_lowered(chars@) =~= word@);
    true
}

/// Whether `chars` ends with `suffix`.
pub fn has_suffix(chars: &[char], suffix: &[char]) -> (r: bool)
    ensures
        r == ends_with(chars@, suffix@),
{
    if suffix.len() > chars.len() {
        return false;
    }
    let offset: usize = chars.len() - suffix.len();
    let ghost tail = chars@.subrange(offset as int, chars@.len() as int);
    let mut i: usize = 0;
    while i < suffix.len()
        invariant
            offset + suffix.len() == chars.len(),
            i <= suffix.len(),
            tail == chars@.subrange(offset as int, chars@.len() as int),
            forall|k: int| 0 <= k < i ==> chars@[offset + k] == suffix@[k],
        decreases suffix.len() - i,
    {
        if chars[offset + i] != suffix[i] {
            assert(tail[i as int] != suffix@[i as int]);
            return false;
        }
        i += 1;
    }
    assert(tail =~= suffix@);
    true
}

/// Whether `s` is a token of a list separated by `sep`: not empty, with no
/// white space at either end, and without the separator.
pub open spec fn is_token(s: Seq<char>, sep: char) -> bool {
    &&& s.len() > 0
    &&& trimmed(s) == s
    &&& !s.contains(sep)
}

/// Trimming at the start leaves the end of the sequence, and what is left
/// does not start with white space.
pub proof fn lemma_trim_start(s: Seq<char>)
    ensures
        trim_start(s).len() <= s.len(),
        trim_start(s) == s.skip(s.len() - trim_start(s).len()),
        trim_start(s).len() > 0 ==> !is_whitespace(trim_start(s)[0]),
    decreases s.len(),
{
    if s.len() > 0 && is_whitespace(s[0]) {
        let rest = s.drop_first();
        lemma_trim_start(rest);
        assert(rest.skip(rest.len() - trim_start(rest).len()) =~= s.skip(
            s.len() - trim_start(rest).len(),
        ));
    } else {
        assert(s.skip(0) =~= s);
    }
}

/// Trimming at the end leaves the start of the sequence, and what is left
/// does not end with white space.
pub proof fn lemma_trim_end(s: Seq<char>)
    ensures
        trim_end(s).len() <= s.len(),
        trim_end(s) == s.take(trim_end(s).len() as int),
        trim_end(s).len() > 0 ==> !is_whitespace(trim_end(s).last()),
    decreases s.len(),
{
    if s.len() > 0 && is_whitespace(s.last()) {
        let rest = s.drop_last();
        lemma_trim_end(rest);
        assert(rest.take(trim_end(rest).len() as int) =~= s.take(trim_end(rest).len() as int));
    } else {
        assert(s.take(s.len() as int) =~= s);
    }
}

/// Trimming takes characters away and adds none: what is left stands in the
/// sequence as one stretch.
pub proof fn lemma_trimmed_is_a_stretch(s: Seq<char>)
    ensures
        exists|from: int, to: int|
            0 <= from <= to <= s.len() && trimmed(s) == #[trigger] s.subrange(from, to),
{
    lemma_trim_start(s);
    lemma_trim_end(trim_start(s));
    let from = s.len() - trim_start(s).len();
    let to = from + trimmed(s).len();
    assert(trimmed(s) =~= s.subrange(from, to));
}

/// Trimming twice is trimming once.
pub proof fn lemma_trimmed_is_trimmed(s: Seq<char>)
    ensures
        trimmed(trimmed(s)) == trimmed(s),
{
    let inner = trim_start(s);
    let t = trimmed(s);
    lemma_trim_start(s);
    lemma_trim_end(inner);
    if t.len() > 0 {
        assert(t[0] == inner[0]);
        assert(trim_start(t) == t);
        assert(trim_end(t) == t);
    } else {
        assert(trim_start(t) == t);
        assert(trim_end(t) == t);
    }
}

/// No piece of a split holds the separator.
pub proof fn lemma_pieces_hold_no_separator(s: Seq<char>, sep: char)
    ensures
        split_on(s, sep).len() > 0,
        forall|i: int|
            0 <= i < split_on(s, sep).len() ==> !(#[trigger] split_on(s, sep)[i]).contains(sep),
    decreases s.len(),
{
    if s.len() > 0 {
        let before = split_on(s.drop_last(), sep);
        lemma_pieces_hold_no_separator(s.drop_last(), sep);
        if s.last() != sep {
            let grown = before.last().push(s.last());
            assert(!before.last().contains(sep));
            assert forall|k: int| 0 <= k < grown.len() implies grown[k] != sep by {
                if k < before.last().len() {
                    assert(before.last().contains(before.last()[k]));
                }
            }
        }
    }
}

/// Whatever is kept of some pieces is the trimmed form of one of them, and
/// is not empty.
pub proof fn lemma_kept_come_from_pieces(pieces: Seq<Seq<char>>)
    ensures
        forall|i: int|
            0 <= i < kept(pieces).len() ==> (#[trigger] kept(pieces)[i]).len() > 0 && exists|
                k: int,
            |
                0 <= k < pieces.len() && kept(pieces)[i] == trimmed(#[trigger] pieces[k]),
    decreases pieces.len(),
{
    if pieces.len() == 0 {
        assert(kept(pieces).len() == 0) by {
            reveal(Seq::filter);
        }
    } else {
        let front = pieces.drop_last();
        let piece = pieces.last();
        assert(pieces =~= front.push(piece));
        lemma_kept_push(front, piece);
        lemma_kept_come_from_pieces(front);
        assert forall|i: int| 0 <= i < kept(pieces).len() implies (#[trigger] kept(
            pieces,
        )[i]).len() > 0 && exists|k: int|
            0 <= k < pieces.len() && kept(pieces)[i] == trimmed(#[trigger] pieces[k]) by {
            if i < kept(front).len() {
                let k = choose|k: int|
                    0 <= k < front.len() && kept(front)[i] == trimmed(#[trigger] front[k]);
                assert(pieces[k] == front[k]);
            } else {
                assert(kept(pieces)[i] == trimmed(pieces[pieces.len() - 1]));
            }
        }
    }
}

/// Every token of a separated list is a token: it is not empty, has no white
/// space at either end, and does not hold the separator.
pub proof fn lemma_tokens_are_tokens(s: Seq<char>, sep: char)
    ensures
        forall|i: int|
            0 <= i < tokens(s, sep).len() ==> is_token(#[trigger] tokens(s, sep)[i], sep),
{
    let pieces = split_on(s, sep);
    lemma_pieces_hold_no_separator(s, sep);
    lemma_kept_come_from_pieces(pieces);
    assert forall|i: int| 0 <= i < tokens(s, sep).len() implies is_token(
        #[trigger] tokens(s, sep)[i],
        sep,
    ) by {
        let token = tokens(s, sep)[i];
        let k = choose|k: int| 0 <= k < pieces.len() && token == trimmed(#[trigger] pieces[k]);
        let piece = pieces[k];
        lemma_trimmed_is_trimmed(piece);
        lemma_trimmed_is_a_stretch(piece);
        let (from, to) = choose|from: int, to: int|
            0 <= from <= to <= piece.len() && trimmed(piece) == #[trigger] piece.subrange(
                from,
                to,
            );
        if token.contains(sep) {
            let at = choose|at: int| 0 <= at < token.len() && token[at] == sep;
            assert(piece[from + at] == sep);
            assert(piece.contains(sep));
        }
    }
}

/// Adding one piece adds its trimmed form to what is kept, unless that is
/// empty.
proof fn lemma_kept_push(pieces: Seq<Seq<char>>, piece: Seq<char>)
    ensures
        kept(pieces.push(piece)) == if trimmed(piece).len() > 0 {
            kept(pieces).push(trimmed(piece))
        } else {
            kept(pieces)
        },
{
    reveal(Seq::filter);
    let trim = |piece: Seq<char>| trimmed(piece);
    let all = pieces.push(piece).map_values(trim);
    assert(all.drop_last() =~= pieces.map_values(trim));
    assert(all.last() == trimmed(piece));
}

/// Splitting one more character either opens a new piece, at a separator, or
/// lengthens the last piece.
proof fn lemma_split_step(s: Seq<char>, sep: char, i: int, done: Seq<Seq<char>>, start: int)
    requires
        0 <= start <= i < s.len(),
        split_on(s.take(i), sep) == done.push(s.subrange(start, i)),
    ensures
        s[i] == sep ==> split_on(s.take(i + 1), sep) == done.push(s.subrange(start, i)).push(
            s.subrange(i + 1, i + 1),
        ),
        s[i] != sep ==> split_on(s.take(i + 1), sep) == done.push(s.subrange(start, i + 1)),
{
    let next = s.take(i + 1);
    assert(next.drop_last() =~= s.take(i));
    assert(next.last() == s[i]);
    let before = done.push(s.subrange(start, i));
    assert(s.subrange(i + 1, i + 1) =~= Seq::<char>::empty());
    assert(before.drop_last() =~= done);
    assert(before.last().push(s[i]) =~= s.subrange(start, i + 1));
}

/// Where `chars[start..end]` begins and ends once its leading and trailing
/// white space is taken off.
fn trim_bounds(chars: &[char], start: usize, end: usize) -> (r: (usize, usize))
    requires
        start <= end <= chars.len(),
    ensures
        start <= r.0 <= r.1 <= end,
        chars@.subrange(r.0 as int, r.1 as int) == trimmed(
            chars@.subrange(start as int, end as int),
        ),
{
    let mut a: usize = start;
    while a < end && chars[a].is_whitespace()
        invariant
            start <= a <= end <= chars.len(),
            trim_start(chars@.subrange(start as int, end as int)) == trim_start(
                chars@.subrange(a as int, end as int),
            ),
        decreases end - a,
    {
        assert(chars@.subrange(a as int, end as int).drop_first() =~= chars@.subrange(
            a + 1,
            end as int,
        ));
        a += 1;
    }
    let mut b: usize = end;
    while b > a && chars[b - 1].is_whitespace()
        invariant
            a <= b <= end <= chars.len(),
            trim_end(chars@.subrange(a as int, end as int)) == trim_end(
                chars@.subrange(a as int, b as int),
            ),
        decreases b - a,
    {
        assert(chars@.subrange(a as int, b as int).drop_last() =~= chars@.subrange(
            a as int,
            b - 1,
        ));
        b -= 1;
    }
    (a, b)
}

/// The tokens of `value`, a list separated by `sep`: each piece trimmed, the
/// empty ones left out, in the order in which they stand.
pub fn split_tokens(value: &str, sep: char) -> (r: Vec<String>)
    ensures
        r.deep_view() == tokens(value@, sep),
{
    let chars = chars_of(value);
    let mut out: Vec<String> = Vec::new();
    let ghost mut done: Seq<Seq<char>> = Seq::empty();
    let mut start: usize = 0;
    let mut i: usize = 0;
    assert(chars@.take(0) =~= Seq::<char>::empty());
    assert(split_on(chars@.take(0), sep) =~= done.push(chars@.subrange(0, 0)));
    assert(out.deep_view() =~= kept(done)) by {
        reveal(Seq::filter);
    }
    loop
        invariant
            chars@ == value@,
            start <= i <= chars.len(),
            split_on(chars@.take(i as int), sep) == done.push(
                chars@.subrange(start as int, i as int),
            ),
            out.deep_view() == kept(done),
        decreases chars.len() - i,
    {
        let at_end = i == chars.len();
        if at_end || chars[i] == sep {
            let (a, b) = trim_bounds(chars.as_slice(), start, i);
            let ghost piece = chars@.subrange(start as int, i as int);
            proof {
                lemma_kept_push(done, piece);
            }
            if a < b {
                let token = value.substring_char(a, b).to_owned();
                let ghost before = out.deep_view();
                out.push(token);
                assert(out.deep_view() =~= before.push(trimmed(piece)));
            }
            if at_end {
                assert(chars@.take(i as int) =~= chars@);
                return out;
            }
            proof {
                lemma_split_step(chars@, sep, i as int, done, start as int);
                done = done.push(piece);
            }
            start = i + 1;
        } else {
            proof {
                lemma_split_step(chars@, sep, i as int, done, start as int);
            }
        }
        i += 1;
    }
}

} // verus!
