//! Character-level helpers shared by the parser and the typed-read rules.
use vstd::prelude::*;

verus! {

/// The characters of `s`, in order.
pub fn to_chars(s: &str) -> (v: Vec<char>)
    ensures
        v@ == s@,
{
    let mut v: Vec<char> = Vec::new();
    for c in it: s.chars()
        invariant
            it.seq() == s@,
            v@ == s@.take(it.index()),
    {
        v.push(c);
    }
    v
}

/// Appends one character to a string. Wraps `String::push`, which the
/// standard library documents as appending the given `char` to the end of
/// the string; the contract says exactly that and nothing more.
#[verifier::external_body]
pub(crate) fn push_char(s: &mut String, c: char)
    ensures
        final(s)@ == old(s)@.push(c),
{
    s.push(c)
}

/// Blank characters, which may stand between any two tokens.
pub open spec fn spec_is_space(c: char) -> bool {
    c == ' ' || c == '\t' || c == '\n' || c == '\r'
}

pub fn is_space(c: char) -> (r: bool)
    ensures
        r == spec_is_space(c),
{
    c == ' ' || c == '\t' || c == '\n' || c == '\r'
}

pub open spec fn spec_is_digit(c: char) -> bool {
    '0' <= c <= '9'
}

pub fn is_digit(c: char) -> (r: bool)
    ensures
        r == spec_is_digit(c),
{
    '0' <= c && c <= '9'
}

/// Characters that may begin a name.
pub open spec fn spec_is_name_start(c: char) -> bool {
    ('a' <= c <= 'z') || ('A' <= c <= 'Z') || c == '_'
}

pub fn is_name_start(c: char) -> (r: bool)
    ensures
        r == spec_is_name_start(c),
{
    ('a' <= c && c <= 'z') || ('A' <= c && c <= 'Z') || c == '_'
}

/// Characters that may continue a name.
pub open spec fn spec_is_name_part(c: char) -> bool {
    spec_is_name_start(c) || spec_is_digit(c)
}

pub fn is_name_part(c: char) -> (r: bool)
    ensures
        r == spec_is_name_part(c),
{
    is_name_start(c) || is_digit(c)
}

/// Whether `word` stands in `s` at `pos`.
pub open spec fn spec_at(s: Seq<char>, pos: int, word: Seq<char>) -> bool {
    &&& 0 <= pos
    &&& pos + word.len() <= s.len()
    &&& s.subrange(pos, pos + word.len()) == word
}

pub fn at(s: &Vec<char>, pos: usize, word: &str) -> (r: Option<usize>)
    requires
        pos <= s.len(),
    ensures
        r is Some == spec_at(s@, pos as int, word@),
        r is Some ==> r->0 == pos + word@.len(),
{
    let mut same = true;
    let mut i: usize = pos;
    for c in it: word.chars()
        invariant
            it.seq() == word@,
            pos <= i <= s.len(),
            same ==> i == pos + it.index(),
            same ==> s@.subrange(pos as int, i as int) == word@.take(it.index()),
            !same ==> !spec_at(s@, pos as int, word@),
    {
        if same {
            if i < s.len() && s[i] == c {
                proof {
                    let k = it.index();
                    assert(word@.take(k + 1) == word@.take(k).push(c));
                    assert(s@.subrange(pos as int, i + 1) == s@.subrange(pos as int, i as int).push(
                        s@[i as int],
                    ));
                }
                i += 1;
            } else {
                proof {
                    let k = it.index();
                    if pos + word@.len() <= s.len() {
                        assert(s@.subrange(pos as int, pos + word@.len())[k] == s@[pos + k]);
                    }
                }
                same = false;
            }
        }
    }
    proof {
        if same {
            assert(word@.take(word@.len() as int) == word@);
        }
    }
    if same {
        Some(i)
    } else {
        None
    }
}

/// Where the run of characters that satisfy `spec_is_name_part` ends.
pub open spec fn spec_name_end(s: Seq<char>, pos: int) -> int
    decreases s.len() - pos,
{
    if 0 <= pos < s.len() && spec_is_name_part(s[pos]) {
        spec_name_end(s, pos + 1)
    } else {
        pos
    }
}

pub fn name_end(s: &Vec<char>, pos: usize) -> (end: usize)
    requires
        pos <= s.len(),
    ensures
        end == spec_name_end(s@, pos as int),
        pos <= end <= s.len(),
{
    let mut i: usize = pos;
    while i < s.len() && is_name_part(s[i])
        invariant
            pos <= i <= s.len(),
            spec_name_end(s@, pos as int) == spec_name_end(s@, i as int),
        decreases s.len() - i,
    {
        i += 1;
    }
    i
}

/// The characters of `s` from `from` up to `to`, as a string.
pub fn slice_text(s: &Vec<char>, from: usize, to: usize) -> (r: String)
    requires
        from <= to <= s.len(),
    ensures
        r@ == s@.subrange(from as int, to as int),
{
    let mut r = String::new();
    let mut i: usize = from;
    while i < to
        invariant
            from <= i <= to <= s.len(),
            r@ == s@.subrange(from as int, i as int),
        decreases to - i,
    {
        push_char(&mut r, s[i]);
        proof {
            assert(s@.subrange(from as int, i + 1) == s@.subrange(from as int, i as int).push(
                s@[i as int],
            ));
        }
        i += 1;
    }
    r
}

/// Where the blanks and comments that start at `pos` end. A comment opens
/// with one of three marks and runs to the end of its line; `in_comment`
/// says whether `pos` lies inside one.
pub open spec fn spec_skip_from(s: Seq<char>, pos: int, in_comment: bool) -> int
    decreases s.len() - pos,
{
    if pos < 0 || pos >= s.len() {
        pos
    } else if in_comment {
        spec_skip_from(s, pos + 1, s[pos] != '\n')
    } else if spec_is_space(s[pos]) {
        spec_skip_from(s, pos + 1, false)
    } else if spec_opens_comment(s, pos) {
        spec_skip_from(s, pos + 1, true)
    } else {
        pos
    }
}

/// Whether a comment mark stands at `pos`.
pub open spec fn spec_opens_comment(s: Seq<char>, pos: int) -> bool {
    spec_at(s, pos, "|-o-|"@) || spec_at(s, pos, ":><:"@) || spec_at(s, pos, "<(-.-)>"@)
}

pub fn opens_comment(s: &Vec<char>, pos: usize) -> (r: bool)
    requires
        pos <= s.len(),
    ensures
        r == spec_opens_comment(s@, pos as int),
{
    at(s, pos, "|-o-|").is_some() || at(s, pos, ":><:").is_some() || at(s, pos, "<(-.-)>").is_some()
}

/// The first position at or after `pos` that is neither blank nor part of
/// a comment.
pub open spec fn spec_skip(s: Seq<char>, pos: int) -> int {
    spec_skip_from(s, pos, false)
}

pub fn skip(s: &Vec<char>, pos: usize) -> (end: usize)
    requires
        pos <= s.len(),
    ensures
        end == spec_skip(s@, pos as int),
        pos <= end <= s.len(),
{
    let mut i: usize = pos;
    let mut in_comment = false;
    loop
        invariant
            pos <= i <= s.len(),
            spec_skip(s@, pos as int) == spec_skip_from(s@, i as int, in_comment),
        ensures
            i == spec_skip(s@, pos as int),
        decreases s.len() - i,
    {
        if i >= s.len() {
            break;
        }
        if in_comment {
            in_comment = s[i] != '\n';
        } else if is_space(s[i]) {
        } else if opens_comment(s, i) {
            in_comment = true;
        } else {
            break;
        }
        i += 1;
    }
    i
}

} // verus!
