//! Text as sequences of characters: comparison, joining and substitution.

use vstd::prelude::*;
use vstd::string::StringSliceAdditionalSpecFns;
use vstd::utf8::encode_utf8_decode_utf8;

verus! {

/// Whether two strings hold the same characters.
pub fn same_text(a: &str, b: &str) -> (same: bool)
    ensures
        same == (a@ == b@),
{
    let x = a.as_bytes();
    let y = b.as_bytes();
    proof {
        encode_utf8_decode_utf8(a@);
        encode_utf8_decode_utf8(b@);
    }
    if x.len() != y.len() {
        return false;
    }
    let mut i: usize = 0;
    while i < x.len()
        invariant
            i <= x@.len(),
            x@.len() == y@.len(),
            x@ == a.spec_bytes(),
            y@ == b.spec_bytes(),
            x@.take(i as int) == y@.take(i as int),
        decreases x@.len() - i,
    {
        if x[i] != y[i] {
            return false;
        }
        assert(x@.take(i + 1) == x@.take(i as int).push(x@[i as int]));
        assert(y@.take(i + 1) == y@.take(i as int).push(y@[i as int]));
        i += 1;
    }
    assert(x@ == x@.take(i as int));
    assert(y@ == y@.take(i as int));
    true
}

/// The characters of a string, one by one.
pub fn chars_of(text: &str) -> (chars: Vec<char>)
    ensures
        chars@ == text@,
{
    let mut chars: Vec<char> = Vec::new();
    for c in it: text.chars()
        invariant
            it.seq() == text@,
            chars@ == it.seq().take(it.index() as int),
    {
        chars.push(c);
    }
    chars
}

/// The parts in order, with the separator between each two neighbours.
pub open spec fn joined(parts: Seq<Seq<char>>, separator: Seq<char>) -> Seq<char>
    decreases parts.len(),
{
    if parts.len() == 0 {
        Seq::empty()
    } else if parts.len() == 1 {
        parts[0]
    } else {
        joined(parts.drop_last(), separator) + separator + parts.last()
    }
}

/// Joins the parts into one string, the separator between each two.
pub fn join(parts: &Vec<&str>, separator: &str) -> (text: String)
    ensures
        text@ == joined(parts.deep_view(), separator@),
{
    let mut text = String::new();
    let mut i: usize = 0;
    while i < parts.len()
        invariant
            i <= parts.len(),
            text@ == joined(parts.deep_view().take(i as int), separator@),
        decreases parts.len() - i,
    {
        proof {
            let before = parts.deep_view().take(i as int);
            let now = parts.deep_view().take(i + 1);
            assert(now.drop_last() == before);
            assert(now.last() == parts[i as int]@);
        }
        if i > 0 {
            text.append(separator);
        }
        text.append(parts[i]);
        i += 1;
    }
    assert(parts.deep_view().take(i as int) == parts.deep_view());
    text
}

/// The template with every occurrence of the placeholder replaced, reading
/// from the left and never looking again at what an occurrence covered. An
/// empty placeholder occurs nowhere.
pub open spec fn substituted(
    template: Seq<char>,
    placeholder: Seq<char>,
    replacement: Seq<char>,
) -> Seq<char>
    decreases template.len(),
{
    if placeholder.len() == 0 || template.len() < placeholder.len() {
        template
    } else if template.subrange(0, placeholder.len() as int) == placeholder {
        replacement + substituted(
            template.skip(placeholder.len() as int),
            placeholder,
            replacement,
        )
    } else {
        template.take(1) + substituted(template.skip(1), placeholder, replacement)
    }
}

/// Whether `pattern` stands in `text` at position `at`.
fn stands_at(text: &Vec<char>, pattern: &Vec<char>, at: usize) -> (stands: bool)
    requires
        at + pattern@.len() <= text@.len(),
    ensures
        stands == (text@.subrange(at as int, at + pattern@.len()) == pattern@),
{
    let n = text.len();
    let mut k: usize = 0;
    while k < pattern.len()
        invariant
            k <= pattern@.len(),
            at + pattern@.len() <= text@.len() == n,
            text@.subrange(at as int, at + k) == pattern@.take(k as int),
        decreases pattern@.len() - k,
    {
        if text[at + k] != pattern[k] {
            assert(text@.subrange(at as int, at + pattern@.len())[k as int] != pattern@[k as int]);
            return false;
        }
        assert(text@.subrange(at as int, at + k + 1) == text@.subrange(at as int, at + k).push(
            text@[at + k],
        ));
        assert(pattern@.take(k + 1) == pattern@.take(k as int).push(pattern@[k as int]));
        k += 1;
    }
    assert(pattern@.take(k as int) == pattern@);
    true
}

/// Replaces every occurrence of the placeholder in the template.
pub fn substitute(template: &str, placeholder: &str, replacement: &str) -> (text: String)
    ensures
        text@ == substituted(template@, placeholder@, replacement@),
{
    let source = chars_of(template);
    let pattern = chars_of(placeholder);
    let n = source.len();
    let m = pattern.len();
    if m == 0 || n < m {
        return String::from_str(template);
    }
    let ghost whole = substituted(template@, placeholder@, replacement@);
    let mut text = String::new();
    let mut start: usize = 0;
    let mut i: usize = 0;
    assert(template@.skip(0) == template@);
    assert(text@ + template@.subrange(0, 0) == Seq::<char>::empty());
    while i <= n - m
        invariant
            0 < m <= n,
            start <= i <= n,
            n == template@.len(),
            m == placeholder@.len(),
            source@ == template@,
            pattern@ == placeholder@,
            whole == text@ + template@.subrange(start as int, i as int) + substituted(
                template@.skip(i as int),
                placeholder@,
                replacement@,
            ),
        decreases n - i,
    {
        let ghost rest = template@.skip(i as int);
        assert(rest.subrange(0, m as int) == template@.subrange(i as int, i + m));
        if stands_at(&source, &pattern, i) {
            text.append(template.substring_char(start, i));
            text.append(replacement);
            assert(rest.skip(m as int) == template@.skip(i + m));
            i = i + m;
            start = i;
            assert(template@.subrange(start as int, i as int) == Seq::<char>::empty());
        } else {
            assert(rest.skip(1) == template@.skip(i + 1));
            assert(template@.subrange(start as int, i as int) + rest.take(1)
                == template@.subrange(start as int, i + 1));
            i = i + 1;
        }
    }
    assert(template@.subrange(start as int, i as int) + template@.skip(i as int)
        == template@.subrange(start as int, n as int));
    text.append(template.substring_char(start, n));
    text
}

} // verus!
