//! Lines, words and surrounding white space of a text.

use vstd::prelude::*;
use vstd::string::*;

verus! {

/// What a sequence of strings says.
pub open spec fn string_views(strings: Seq<String>) -> Seq<Seq<char>> {
    strings.map_values(|string: String| string@)
}

/// The characters with the Unicode property `White_Space`.
pub open spec fn is_space(c: char) -> bool {
    let n = c as u32;
    ||| 0x9 <= n <= 0xd
    ||| n == 0x20
    ||| n == 0x85
    ||| n == 0xa0
    ||| n == 0x1680
    ||| 0x2000 <= n <= 0x200a
    ||| n == 0x2028
    ||| n == 0x2029
    ||| n == 0x202f
    ||| n == 0x205f
    ||| n == 0x3000
}

/// Whether `c` separates words.
pub fn char_is_space(c: char) -> (space: bool)
    ensures
        space == is_space(c),
{
    let n: u32 = c as u32;
    (0x9 <= n && n <= 0xd) || n == 0x20 || n == 0x85 || n == 0xa0 || n == 0x1680
        || (0x2000 <= n && n <= 0x200a) || n == 0x2028 || n == 0x2029 || n == 0x202f
        || n == 0x205f || n == 0x3000
}

/// The characters of `text`, in order.
pub fn chars_of(text: &str) -> (chars: Vec<char>)
    ensures
        chars@ == text@,
{
    let mut chars: Vec<char> = Vec::new();
    for c in it: text.chars()
        invariant
            it.seq() == text@,
            chars@ == text@.take(it.index() as int),
    {
        assert(text@.take(it.index() as int + 1) == text@.take(it.index() as int).push(c));
        chars.push(c);
    }
    assert(text@.take(text@.len() as int) == text@);
    chars
}

/// Whether `text` ends with `suffix`.
pub open spec fn has_suffix(text: Seq<char>, suffix: Seq<char>) -> bool {
    suffix.len() <= text.len() && text.skip(text.len() - suffix.len()) == suffix
}

/// Whether `text` ends with `suffix`.
pub fn ends_with(text: &str, suffix: &str) -> (ends: bool)
    ensures
        ends == has_suffix(text@, suffix@),
{
    let chars = chars_of(text);
    let end = chars_of(suffix);
    if end.len() > chars.len() {
        return false;
    }
    let skipped: usize = chars.len() - end.len();
    let mut i: usize = 0;
    while i < end.len()
        invariant
            chars@ == text@,
            end@ == suffix@,
            skipped == chars.len() - end.len(),
            i <= end@.len(),
            forall|j: int| 0 <= j < i ==> #[trigger] end@[j] == text@.skip(skipped as int)[j],
        decreases end@.len() - i,
    {
        if chars[skipped + i] != end[i] {
            assert(text@.skip(skipped as int)[i as int] != suffix@[i as int]);
            return false;
        }
        i += 1;
    }
    assert(text@.skip(skipped as int) =~= suffix@);
    true
}

/// How many characters of `s` come before the first `c`: all of them where there is none.
pub open spec fn until_char(s: Seq<char>, c: char) -> int
    decreases s.len(),
{
    if s.len() == 0 || s[0] == c {
        0
    } else {
        1 + until_char(s.drop_first(), c)
    }
}

/// How many white space characters `s` starts with.
pub open spec fn leading_space(s: Seq<char>) -> int
    decreases s.len(),
{
    if s.len() == 0 || !is_space(s[0]) {
        0
    } else {
        1 + leading_space(s.drop_first())
    }
}

/// How many characters of `s` come before the first white space.
pub open spec fn until_space(s: Seq<char>) -> int
    decreases s.len(),
{
    if s.len() == 0 || is_space(s[0]) {
        0
    } else {
        1 + until_space(s.drop_first())
    }
}

/// How many white space characters `s` ends with.
pub open spec fn trailing_space(s: Seq<char>) -> int
    decreases s.len(),
{
    if s.len() == 0 || !is_space(s.last()) {
        0
    } else {
        1 + trailing_space(s.drop_last())
    }
}

/// The words of a text: what white space separates.
pub open spec fn words(s: Seq<char>) -> Seq<Seq<char>>
    decreases s.len(),
    via words_decreases
{
    let rest = s.skip(leading_space(s));
    if rest.len() == 0 {
        Seq::empty()
    } else {
        seq![rest.take(until_space(rest))] + words(rest.skip(until_space(rest)))
    }
}

#[via_fn]
proof fn words_decreases(s: Seq<char>) {
    lemma_leading_space(s);
    let rest = s.skip(leading_space(s));
    lemma_until_space(rest);
}

/// The first white space does not come where `leading_space` stops.
pub proof fn lemma_leading_space(s: Seq<char>)
    ensures
        0 <= leading_space(s) <= s.len(),
        forall|i: int| 0 <= i < leading_space(s) ==> is_space(#[trigger] s[i]),
        leading_space(s) < s.len() ==> !is_space(s[leading_space(s)]),
    decreases s.len(),
{
    if s.len() > 0 && is_space(s[0]) {
        lemma_leading_space(s.drop_first());
        assert forall|i: int| 0 <= i < leading_space(s) implies is_space(#[trigger] s[i]) by {
            if i > 0 {
                assert(s[i] == s.drop_first()[i - 1]);
            }
        }
    }
}

/// The first white space comes where `until_space` stops.
pub proof fn lemma_until_space(s: Seq<char>)
    ensures
        0 <= until_space(s) <= s.len(),
        forall|i: int| 0 <= i < until_space(s) ==> !is_space(#[trigger] s[i]),
        until_space(s) < s.len() ==> is_space(s[until_space(s)]),
    decreases s.len(),
{
    if s.len() > 0 && !is_space(s[0]) {
        lemma_until_space(s.drop_first());
        assert forall|i: int| 0 <= i < until_space(s) implies !is_space(#[trigger] s[i]) by {
            if i > 0 {
                assert(s[i] == s.drop_first()[i - 1]);
            }
        }
    }
}

/// The first `c` comes where `until_char` stops.
pub proof fn lemma_until_char(s: Seq<char>, c: char)
    ensures
        0 <= until_char(s, c) <= s.len(),
        forall|i: int| 0 <= i < until_char(s, c) ==> #[trigger] s[i] != c,
        until_char(s, c) < s.len() ==> s[until_char(s, c)] == c,
    decreases s.len(),
{
    if s.len() > 0 && s[0] != c {
        lemma_until_char(s.drop_first(), c);
        assert forall|i: int| 0 <= i < until_char(s, c) implies #[trigger] s[i] != c by {
            if i > 0 {
                assert(s[i] == s.drop_first()[i - 1]);
            }
        }
    }
}

/// The lines of a text. A line ends with a line feed, which may follow a carriage return; the end
/// of the last line may be missing.
pub open spec fn lines(s: Seq<char>) -> Seq<Seq<char>>
    decreases s.len(),
    via lines_decreases
{
    let end = until_char(s, '\n');
    if s.len() == 0 {
        Seq::empty()
    } else if end == s.len() {
        seq![s]
    } else {
        let line = s.take(end);
        seq![
            if line.len() > 0 && line.last() == '\r' {
                line.drop_last()
            } else {
                line
            },
        ] + lines(s.skip(end + 1))
    }
}

#[via_fn]
proof fn lines_decreases(s: Seq<char>) {
    lemma_until_char(s, '\n');
}

/// A text without the white space around it.
pub open spec fn trim(s: Seq<char>) -> Seq<char> {
    let rest = s.skip(leading_space(s));
    rest.take(rest.len() - trailing_space(rest))
}

/// Whether `s` starts with `prefix`.
pub open spec fn has_prefix(s: Seq<char>, prefix: Seq<char>) -> bool {
    prefix.len() <= s.len() && s.take(prefix.len() as int) == prefix
}

/// Where the white space ends that stands at `from`.
pub fn skip_space(chars: &Vec<char>, from: usize, to: usize) -> (end: usize)
    requires
        from <= to <= chars@.len(),
    ensures
        from <= end <= to,
        end == from + leading_space(chars@.subrange(from as int, to as int)),
        forall|k: int| from <= k < end ==> is_space(#[trigger] chars@[k]),
        end < to ==> !is_space(chars@[end as int]),
{
    let mut i: usize = from;
    while i < to && char_is_space(chars[i])
        invariant
            from <= i <= to <= chars@.len(),
            forall|k: int| from <= k < i ==> is_space(#[trigger] chars@[k]),
            leading_space(chars@.subrange(from as int, to as int)) == i - from + leading_space(
                chars@.subrange(i as int, to as int),
            ),
        decreases to - i,
    {
        assert(chars@.subrange(i as int, to as int).drop_first() == chars@.subrange(
            i + 1,
            to as int,
        ));
        i += 1;
    }
    i
}

/// Where the word ends that stands at `from`.
pub fn skip_word(chars: &Vec<char>, from: usize, to: usize) -> (end: usize)
    requires
        from <= to <= chars@.len(),
    ensures
        from <= end <= to,
        end == from + until_space(chars@.subrange(from as int, to as int)),
        forall|k: int| from <= k < end ==> !is_space(#[trigger] chars@[k]),
        end < to ==> is_space(chars@[end as int]),
{
    let mut i: usize = from;
    while i < to && !char_is_space(chars[i])
        invariant
            from <= i <= to <= chars@.len(),
            forall|k: int| from <= k < i ==> !is_space(#[trigger] chars@[k]),
            until_space(chars@.subrange(from as int, to as int)) == i - from + until_space(
                chars@.subrange(i as int, to as int),
            ),
        decreases to - i,
    {
        assert(chars@.subrange(i as int, to as int).drop_first() == chars@.subrange(
            i + 1,
            to as int,
        ));
        i += 1;
    }
    i
}

/// Where the first `c` stands at or after `from`; `to` where there is none before `to`.
pub fn find_char(chars: &Vec<char>, from: usize, to: usize, c: char) -> (end: usize)
    requires
        from <= to <= chars@.len(),
    ensures
        from <= end <= to,
        end == from + until_char(chars@.subrange(from as int, to as int), c),
        forall|k: int| from <= k < end ==> #[trigger] chars@[k] != c,
        end < to ==> chars@[end as int] == c,
{
    let mut i: usize = from;
    while i < to && chars[i] != c
        invariant
            from <= i <= to <= chars@.len(),
            forall|k: int| from <= k < i ==> #[trigger] chars@[k] != c,
            until_char(chars@.subrange(from as int, to as int), c) == i - from + until_char(
                chars@.subrange(i as int, to as int),
                c,
            ),
        decreases to - i,
    {
        assert(chars@.subrange(i as int, to as int).drop_first() == chars@.subrange(
            i + 1,
            to as int,
        ));
        i += 1;
    }
    i
}

/// The second word between `from` and `to`, by where it starts and ends.
pub fn second_word(chars: &Vec<char>, from: usize, to: usize) -> (word: Option<(usize, usize)>)
    requires
        from <= to <= chars@.len(),
    ensures
        ({
            let all = words(chars@.subrange(from as int, to as int));
            match word {
                Some((start, end)) => start <= end <= chars@.len() && all.len() > 1 && all[1]
                    == chars@.subrange(start as int, end as int),
                None => all.len() <= 1,
            }
        }),
{
    let start = skip_space(chars, from, to);
    let ghost line = chars@.subrange(from as int, to as int);
    let ghost rest = chars@.subrange(start as int, to as int);
    assert(line.skip(leading_space(line)) =~= rest);
    let end = skip_word(chars, start, to);
    let ghost tail = chars@.subrange(end as int, to as int);
    assert(rest.skip(until_space(rest)) =~= tail);
    let second = skip_space(chars, end, to);
    let ghost second_rest = chars@.subrange(second as int, to as int);
    assert(tail.skip(leading_space(tail)) =~= second_rest);
    reveal_with_fuel(words, 2);
    if start == to {
        assert(rest.len() == 0);
        return None;
    }
    if second == to {
        assert(second_rest.len() == 0);
        assert(words(tail).len() == 0);
        return None;
    }
    let second_end = skip_word(chars, second, to);
    assert(second_rest.take(until_space(second_rest)) =~= chars@.subrange(
        second as int,
        second_end as int,
    ));
    Some((second, second_end))
}

/// Whether the characters from `from` to `to` start with `prefix`.
pub fn range_starts_with(chars: &Vec<char>, from: usize, to: usize, prefix: &str) -> (starts: bool)
    requires
        from <= to <= chars@.len(),
    ensures
        starts == has_prefix(chars@.subrange(from as int, to as int), prefix@),
{
    let start = chars_of(prefix);
    let ghost line = chars@.subrange(from as int, to as int);
    if start.len() > to - from {
        return false;
    }
    let mut i: usize = 0;
    while i < start.len()
        invariant
            from <= to <= chars@.len(),
            line == chars@.subrange(from as int, to as int),
            start@ == prefix@,
            start@.len() <= to - from,
            i <= start@.len(),
            forall|j: int| 0 <= j < i ==> #[trigger] start@[j] == line[j],
        decreases start@.len() - i,
    {
        if chars[from + i] != start[i] {
            assert(line.take(prefix@.len() as int)[i as int] != prefix@[i as int]);
            return false;
        }
        i += 1;
    }
    assert(line.take(prefix@.len() as int) =~= prefix@);
    true
}

/// Where the white space starts that stands before `to`.
fn skip_space_back(chars: &Vec<char>, from: usize, to: usize) -> (start: usize)
    requires
        from <= to <= chars@.len(),
    ensures
        from <= start <= to,
        start == to - trailing_space(chars@.subrange(from as int, to as int)),
{
    let mut i: usize = to;
    while i > from && char_is_space(chars[i - 1])
        invariant
            from <= i <= to <= chars@.len(),
            trailing_space(chars@.subrange(from as int, to as int)) == to - i + trailing_space(
                chars@.subrange(from as int, i as int),
            ),
        decreases i,
    {
        assert(chars@.subrange(from as int, i as int).drop_last() == chars@.subrange(
            from as int,
            i - 1,
        ));
        i -= 1;
    }
    i
}

/// A text without the white space around it.
pub fn trimmed(text: &str) -> (trimmed: String)
    ensures
        trimmed@ == trim(text@),
{
    let chars = chars_of(text);
    let from = skip_space(&chars, 0, chars.len());
    assert(chars@.subrange(0, chars@.len() as int) == text@);
    assert(chars@.subrange(from as int, chars@.len() as int) =~= text@.skip(leading_space(text@)));
    let to = skip_space_back(&chars, from, chars.len());
    let trimmed = text.substring_char(from, to).to_owned();
    assert(trimmed@ =~= trim(text@));
    trimmed
}

/// The characters that separate words are these, and no others.
pub proof fn law_space(c: char)
    ensures
        is_space(c) <==> seq![
            '\u{9}',
            '\u{a}',
            '\u{b}',
            '\u{c}',
            '\u{d}',
            '\u{20}',
            '\u{85}',
            '\u{a0}',
            '\u{1680}',
            '\u{2000}',
            '\u{2001}',
            '\u{2002}',
            '\u{2003}',
            '\u{2004}',
            '\u{2005}',
            '\u{2006}',
            '\u{2007}',
            '\u{2008}',
            '\u{2009}',
            '\u{200a}',
            '\u{2028}',
            '\u{2029}',
            '\u{202f}',
            '\u{205f}',
            '\u{3000}',
        ].contains(c),
{
    let all = seq![
        '\u{9}',
        '\u{a}',
        '\u{b}',
        '\u{c}',
        '\u{d}',
        '\u{20}',
        '\u{85}',
        '\u{a0}',
        '\u{1680}',
        '\u{2000}',
        '\u{2001}',
        '\u{2002}',
        '\u{2003}',
        '\u{2004}',
        '\u{2005}',
        '\u{2006}',
        '\u{2007}',
        '\u{2008}',
        '\u{2009}',
        '\u{200a}',
        '\u{2028}',
        '\u{2029}',
        '\u{202f}',
        '\u{205f}',
        '\u{3000}',
    ];
    if is_space(c) {
        let n = c as u32;
        let at: int = if n <= 0xd {
            n - 9
        } else if n == 0x20 {
            5
        } else if n == 0x85 {
            6
        } else if n == 0xa0 {
            7
        } else if n == 0x1680 {
            8
        } else if n <= 0x200a {
            9 + n - 0x2000
        } else if n == 0x2028 {
            20
        } else if n == 0x2029 {
            21
        } else if n == 0x202f {
            22
        } else if n == 0x205f {
            23
        } else {
            24
        };
        assert(all[at] == c);
    }
}

/// A text starts with another where it is that text and something behind it.
pub proof fn law_prefix(text: Seq<char>, prefix: Seq<char>)
    ensures
        has_prefix(text, prefix) <==> exists|rest: Seq<char>| text == #[trigger] (prefix + rest),
{
    if has_prefix(text, prefix) {
        assert(text =~= prefix + text.skip(prefix.len() as int));
    }
    assert forall|rest: Seq<char>| text == #[trigger] (prefix + rest) implies has_prefix(
        text,
        prefix,
    ) by {
        assert(text.take(prefix.len() as int) =~= prefix);
    }
}

/// A text ends with another where it is something and that text behind it.
pub proof fn law_suffix(text: Seq<char>, suffix: Seq<char>)
    ensures
        has_suffix(text, suffix) <==> exists|front: Seq<char>| text == #[trigger] (front + suffix),
{
    if has_suffix(text, suffix) {
        assert(text =~= text.take(text.len() - suffix.len()) + suffix);
    }
    assert forall|front: Seq<char>| text == #[trigger] (front + suffix) implies has_suffix(
        text,
        suffix,
    ) by {
        assert(text.skip(text.len() - suffix.len()) =~= suffix);
    }
}

/// The white space at the end of a text goes back to the last character that is none.
pub proof fn law_trailing_space(s: Seq<char>)
    ensures
        0 <= trailing_space(s) <= s.len(),
        forall|i: int| s.len() - trailing_space(s) <= i < s.len() ==> is_space(#[trigger] s[i]),
        trailing_space(s) < s.len() ==> !is_space(s[s.len() - trailing_space(s) - 1]),
    decreases s.len(),
{
    if s.len() > 0 && is_space(s.last()) {
        law_trailing_space(s.drop_last());
        assert forall|i: int| s.len() - trailing_space(s) <= i < s.len() implies is_space(
            #[trigger] s[i],
        ) by {
            if i < s.len() - 1 {
                assert(s[i] == s.drop_last()[i]);
            }
        }
    }
}

/// Trimming takes white space away at both ends, all of it and nothing else.
pub proof fn law_trim(s: Seq<char>)
    ensures
        exists|before: Seq<char>, after: Seq<char>|
            {
                &&& s == #[trigger] (before + trim(s) + after)
                &&& forall|i: int| 0 <= i < before.len() ==> is_space(#[trigger] before[i])
                &&& forall|i: int| 0 <= i < after.len() ==> is_space(#[trigger] after[i])
            },
        trim(s).len() > 0 ==> !is_space(trim(s)[0]) && !is_space(trim(s).last()),
{
    lemma_leading_space(s);
    let rest = s.skip(leading_space(s));
    law_trailing_space(rest);
    let before = s.take(leading_space(s));
    let after = rest.skip(rest.len() - trailing_space(rest));
    assert(s =~= before + trim(s) + after);
    if trim(s).len() > 0 {
        assert(trim(s)[0] == s[leading_space(s)]);
    }
}

/// Each word is what stands between white space: the white space before a word does not count, and
/// the word ends where white space follows or the text is over. White space alone has no words.
pub proof fn law_words(gap: Seq<char>, word: Seq<char>, rest: Seq<char>)
    requires
        forall|i: int| 0 <= i < gap.len() ==> is_space(#[trigger] gap[i]),
        word.len() > 0,
        forall|i: int| 0 <= i < word.len() ==> !is_space(#[trigger] word[i]),
        rest.len() > 0 ==> is_space(rest[0]),
    ensures
        words(gap + word + rest) == seq![word] + words(rest),
        words(gap).len() == 0,
{
    let s = gap + word + rest;
    lemma_leading_space(s);
    assert(s[gap.len() as int] == word[0]);
    if leading_space(s) < gap.len() {
        assert(s[leading_space(s)] == gap[leading_space(s)]);
    }
    assert(leading_space(s) == gap.len());
    let tail = s.skip(gap.len() as int);
    assert(tail =~= word + rest);
    lemma_until_space(tail);
    if until_space(tail) < word.len() {
        assert(tail[until_space(tail)] == word[until_space(tail)]);
    }
    if until_space(tail) > word.len() {
        assert(tail[word.len() as int] == rest[0]);
    }
    assert(tail.take(word.len() as int) =~= word);
    assert(tail.skip(word.len() as int) =~= rest);
    lemma_leading_space(gap);
    if leading_space(gap) < gap.len() {
        assert(is_space(gap[leading_space(gap)]));
    }
}

/// Each line is what stands before a line feed, without a carriage return right before it. What
/// follows the last line feed is a line too, unless it is empty.
pub proof fn law_lines(line: Seq<char>, rest: Seq<char>)
    requires
        forall|i: int| 0 <= i < line.len() ==> #[trigger] line[i] != '\n',
    ensures
        line.len() == 0 || line.last() != '\r' ==> lines(line + seq!['\n'] + rest) == seq![line]
            + lines(rest),
        lines(line + seq!['\r', '\n'] + rest) == seq![line] + lines(rest),
        lines(line) == (if line.len() == 0 {
            Seq::empty()
        } else {
            seq![line]
        }),
{
    let size = line.len() as int;
    let plain = line + seq!['\n'] + rest;
    lemma_until_char(plain, '\n');
    assert(plain[line.len() as int] == '\n');
    if until_char(plain, '\n') < line.len() {
        assert(plain[until_char(plain, '\n')] == line[until_char(plain, '\n')]);
    }
    assert(plain.take(line.len() as int) =~= line);
    assert(plain.skip(size + 1) =~= rest);
    let returned = line + seq!['\r', '\n'] + rest;
    lemma_until_char(returned, '\n');
    assert(returned[size + 1] == '\n');
    assert(returned[line.len() as int] == '\r');
    if until_char(returned, '\n') < line.len() {
        assert(returned[until_char(returned, '\n')] == line[until_char(returned, '\n')]);
    }
    assert(until_char(returned, '\n') == size + 1);
    assert(returned.take(size + 1).drop_last() =~= line);
    assert(returned.take(size + 1).last() == '\r');
    assert(returned.skip(size + 2) =~= rest);
    lemma_until_char(line, '\n');
    if until_char(line, '\n') < line.len() {
        assert(line[until_char(line, '\n')] != '\n');
    }
}

} // verus!
