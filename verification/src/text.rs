//! Text helpers and the mathematical functions on `Seq<char>` that describe
//! them. A string is modelled by the sequence of its characters.

use vstd::prelude::*;

verus! {

/// The characters with the Unicode property `White_Space`.
pub open spec fn is_white_space(c: char) -> bool {
    ||| '\u{9}' <= c <= '\u{d}'
    ||| c == ' '
    ||| c == '\u{85}'
    ||| c == '\u{a0}'
    ||| c == '\u{1680}'
    ||| '\u{2000}' <= c <= '\u{200a}'
    ||| c == '\u{2028}'
    ||| c == '\u{2029}'
    ||| c == '\u{202f}'
    ||| c == '\u{205f}'
    ||| c == '\u{3000}'
}

/// `s` without the white space that it begins with.
pub open spec fn trim_start(s: Seq<char>) -> Seq<char>
    decreases s.len(),
{
    if s.len() > 0 && is_white_space(s.first()) {
        trim_start(s.drop_first())
    } else {
        s
    }
}

/// `s` without the white space that it ends with.
pub open spec fn trim_end(s: Seq<char>) -> Seq<char>
    decreases s.len(),
{
    if s.len() > 0 && is_white_space(s.last()) {
        trim_end(s.drop_last())
    } else {
        s
    }
}

/// `s` without the white space around it.
pub open spec fn trimmed(s: Seq<char>) -> Seq<char> {
    trim_end(trim_start(s))
}

/// Whether `c` is white space.
pub fn white_space(c: char) -> (found: bool)
    ensures
        found == is_white_space(c),
{
    ('\u{9}' <= c && c <= '\u{d}') || c == ' ' || c == '\u{85}' || c == '\u{a0}' || c == '\u{1680}'
        || ('\u{2000}' <= c && c <= '\u{200a}') || c == '\u{2028}' || c == '\u{2029}' || c
        == '\u{202f}' || c == '\u{205f}' || c == '\u{3000}'
}

/// The characters of `s` as a vector.
pub fn characters(s: &str) -> (chars: Vec<char>)
    ensures
        chars@ == s@,
{
    let mut chars: Vec<char> = Vec::new();
    for c in it: s.chars()
        invariant
            it.seq() == s@,
            chars@ == s@.take(it.index()),
    {
        chars.push(c);
    }
    chars
}

/// Whether two texts have the same characters.
pub fn same_text(a: &str, b: &str) -> (same: bool)
    ensures
        same == (a@ == b@),
{
    a.to_owned() == b.to_owned()
}

/// The bounds of what is left of `chars[from..to]` without the white space
/// around it.
pub fn trim_bounds(chars: &Vec<char>, from: usize, to: usize) -> (bounds: (usize, usize))
    requires
        from <= to <= chars@.len(),
    ensures
        from <= bounds.0 <= bounds.1 <= to,
        chars@.subrange(bounds.0 as int, bounds.1 as int) == trimmed(
            chars@.subrange(from as int, to as int),
        ),
{
    let mut start: usize = from;
    while start < to && white_space(chars[start])
        invariant
            from <= start <= to <= chars@.len(),
            trim_start(chars@.subrange(from as int, to as int)) == trim_start(
                chars@.subrange(start as int, to as int),
            ),
        decreases to - start,
    {
        assert(chars@.subrange(start as int, to as int).drop_first() =~= chars@.subrange(
            start + 1,
            to as int,
        ));
        start = start + 1;
    }
    let mut end: usize = to;
    while start < end && white_space(chars[end - 1])
        invariant
            from <= start <= end <= to <= chars@.len(),
            trim_end(chars@.subrange(start as int, to as int)) == trim_end(
                chars@.subrange(start as int, end as int),
            ),
        decreases end,
    {
        assert(chars@.subrange(start as int, end as int).drop_last() =~= chars@.subrange(
            start as int,
            end - 1,
        ));
        end = end - 1;
    }
    (start, end)
}

/// `s` without the white space around it.
pub fn trim(s: &str) -> (t: &str)
    ensures
        t@ == trimmed(s@),
{
    let chars = characters(s);
    let bounds = trim_bounds(&chars, 0, chars.len());
    assert(chars@.subrange(0, chars@.len() as int) =~= s@);
    s.substring_char(bounds.0, bounds.1)
}

/// Trimming leaves a part of the text that neither begins nor ends with white
/// space.
pub proof fn lemma_trimmed_ends(s: Seq<char>)
    ensures
        trimmed(s).len() > 0 ==> !is_white_space(trimmed(s).first()) && !is_white_space(
            trimmed(s).last(),
        ),
        trimmed(s).len() <= s.len(),
{
    lemma_trim_start_first(s);
    lemma_trim_end_last(trim_start(s));
}

proof fn lemma_trim_start_first(s: Seq<char>)
    ensures
        trim_start(s).len() > 0 ==> !is_white_space(trim_start(s).first()),
        trim_start(s).len() <= s.len(),
    decreases s.len(),
{
    if s.len() > 0 && is_white_space(s.first()) {
        lemma_trim_start_first(s.drop_first());
    }
}

proof fn lemma_trim_end_last(s: Seq<char>)
    ensures
        trim_end(s).len() > 0 ==> !is_white_space(trim_end(s).last()) && trim_end(s).first()
            == s.first(),
        trim_end(s).len() <= s.len(),
    decreases s.len(),
{
    if s.len() > 0 && is_white_space(s.last()) {
        lemma_trim_end_last(s.drop_last());
    }
}

/// A text with no white space at either end is its own trimmed form.
pub proof fn lemma_trimmed_fixed(s: Seq<char>)
    requires
        s.len() > 0 ==> !is_white_space(s.first()) && !is_white_space(s.last()),
    ensures
        trimmed(s) == s,
{
}

/// The lower-case form of an ASCII letter; any other character is kept.
pub open spec fn ascii_lower(c: char) -> char {
    if 'A' <= c <= 'Z' {
        (c as int + 32) as char
    } else {
        c
    }
}

/// `s` with its ASCII letters in lower case.
pub open spec fn ascii_lowered(s: Seq<char>) -> Seq<char> {
    s.map_values(|c: char| ascii_lower(c))
}

fn lower_char(c: char) -> (l: char)
    ensures
        l == ascii_lower(c),
{
    if 'A' <= c && c <= 'Z' {
        ((c as u8) + 32) as char
    } else {
        c
    }
}

/// Whether `s`, with its ASCII letters in lower case, is `word`.
pub fn reads_as(s: &str, word: &str) -> (same: bool)
    ensures
        same == (ascii_lowered(s@) == word@),
{
    let left = characters(s);
    let right = characters(word);
    if left.len() != right.len() {
        assert(ascii_lowered(s@).len() != word@.len());
        return false;
    }
    for i in 0..left.len()
        invariant
            left@ == s@,
            right@ == word@,
            left@.len() == right@.len(),
            forall|j: int| 0 <= j < i ==> ascii_lower(s@[j]) == #[trigger] word@[j],
    {
        if lower_char(left[i]) != right[i] {
            assert(ascii_lowered(s@)[i as int] != word@[i as int]);
            return false;
        }
    }
    assert(ascii_lowered(s@) =~= word@);
    true
}

/// Whether `needle` stands in `s` at the index `at`.
pub open spec fn found_at(s: Seq<char>, needle: Seq<char>, at: int) -> bool {
    0 <= at && at + needle.len() <= s.len() && s.subrange(at, at + needle.len()) == needle
}

/// Whether `needle` stands anywhere in `s`.
pub open spec fn occurs(s: Seq<char>, needle: Seq<char>) -> bool {
    exists|at: int| #[trigger] found_at(s, needle, at)
}

/// What stands in a part of a text stands in the text.
pub proof fn lemma_found_within(
    s: Seq<char>,
    part: Seq<char>,
    at: int,
    needle: Seq<char>,
    offset: int,
)
    requires
        found_at(s, part, at),
        found_at(part, needle, offset),
    ensures
        found_at(s, needle, at + offset),
        occurs(s, needle),
{
    assert(s.subrange(at + offset, at + offset + needle.len()) =~= part.subrange(
        offset,
        offset + needle.len(),
    ));
}

/// Whether `needle` stands in `chars` at the index `at`.
pub fn stands_at(chars: &Vec<char>, needle: &Vec<char>, at: usize) -> (found: bool)
    ensures
        found == found_at(chars@, needle@, at as int),
{
    if at > chars.len() || needle.len() > chars.len() - at {
        return false;
    }
    for i in 0..needle.len()
        invariant
            at + needle.len() <= chars.len(),
            forall|j: int| 0 <= j < i ==> chars@[at + j] == #[trigger] needle@[j],
    {
        if chars[at + i] != needle[i] {
            assert(chars@.subrange(at as int, at + needle@.len())[i as int] != needle@[i as int]);
            return false;
        }
    }
    assert(chars@.subrange(at as int, at + needle@.len()) =~= needle@);
    true
}

/// Whether `s` begins with `prefix`.
pub fn starts_with(s: &str, prefix: &str) -> (found: bool)
    ensures
        found == prefix@.is_prefix_of(s@),
{
    let chars = characters(s);
    let needle = characters(prefix);
    stands_at(&chars, &needle, 0)
}

/// Whether `needle` stands anywhere in `s`.
pub fn contains(s: &str, needle: &str) -> (found: bool)
    ensures
        found == occurs(s@, needle@),
{
    let chars = characters(s);
    let wanted = characters(needle);
    let mut at: usize = 0;
    while at < chars.len()
        invariant
            chars@ == s@,
            wanted@ == needle@,
            at <= chars@.len(),
            forall|j: int| 0 <= j < at ==> !#[trigger] found_at(s@, needle@, j),
        decreases chars@.len() - at,
    {
        if stands_at(&chars, &wanted, at) {
            return true;
        }
        at = at + 1;
    }
    stands_at(&chars, &wanted, at)
}

/// `s` without the run of `c` that it begins with.
pub open spec fn without_leading(s: Seq<char>, c: char) -> Seq<char>
    decreases s.len(),
{
    if s.len() > 0 && s.first() == c {
        without_leading(s.drop_first(), c)
    } else {
        s
    }
}

/// `s` without the run of `c` that it begins with.
pub fn strip_leading(s: &str, c: char) -> (t: &str)
    ensures
        t@ == without_leading(s@, c),
{
    let chars = characters(s);
    let mut start: usize = 0;
    assert(s@.skip(0) =~= s@);
    while start < chars.len() && chars[start] == c
        invariant
            chars@ == s@,
            start <= s@.len(),
            without_leading(s@, c) == without_leading(s@.skip(start as int), c),
        decreases s@.len() - start,
    {
        assert(s@.skip(start as int).drop_first() =~= s@.skip(start + 1));
        start = start + 1;
    }
    assert(s@.skip(start as int) =~= s@.subrange(start as int, s@.len() as int));
    s.substring_char(start, chars.len())
}

/// The parts of `s`: the texts between the places where `c` stands. A text that ends
/// with `c` has an empty last part.
pub open spec fn parts(s: Seq<char>, c: char) -> Seq<Seq<char>>
    decreases s.len(),
{
    if s.len() == 0 {
        seq![Seq::empty()]
    } else {
        let before = parts(s.drop_last(), c);
        if s.last() == c {
            before.push(Seq::empty())
        } else {
            before.drop_last().push(before.last().push(s.last()))
        }
    }
}

/// The lines of `s`: the texts between its line feeds. A text that ends with a
/// line feed has an empty last line.
pub open spec fn lines(s: Seq<char>) -> Seq<Seq<char>> {
    parts(s, '\n')
}

/// Every text has a part.
pub proof fn lemma_parts_not_empty(s: Seq<char>, c: char)
    ensures
        parts(s, c).len() > 0,
    decreases s.len(),
{
    if s.len() > 0 {
        lemma_parts_not_empty(s.drop_last(), c);
    }
}

/// The texts of a list of characters each.
pub open spec fn texts(list: Seq<Vec<char>>) -> Seq<Seq<char>> {
    list.map_values(|item: Vec<char>| item@)
}

/// The parts of `s[from..to]`.
pub fn split(s: &Vec<char>, from: usize, to: usize, c: char) -> (found: Vec<Vec<char>>)
    requires
        from <= to <= s@.len(),
    ensures
        texts(found@) == parts(s@.subrange(from as int, to as int), c),
{
    let ghost whole = s@.subrange(from as int, to as int);
    let mut found: Vec<Vec<char>> = Vec::new();
    let mut part: Vec<char> = Vec::new();
    let mut i: usize = from;
    assert(texts(found@).push(part@) =~= seq![Seq::empty()]);
    assert(whole.take(0) =~= Seq::empty());
    while i < to
        invariant
            from <= i <= to <= s@.len(),
            whole == s@.subrange(from as int, to as int),
            parts(whole.take(i - from), c) == texts(found@).push(part@),
        decreases to - i,
    {
        let ghost done = texts(found@);
        assert(whole.take(i + 1 - from).drop_last() =~= whole.take(i - from));
        assert(whole.take(i + 1 - from).last() == s@[i as int]);
        assert(done.push(part@).drop_last() =~= done);
        if s[i] == c {
            let ghost last = part@;
            found.push(part);
            assert(texts(found@) =~= done.push(last));
            part = Vec::new();
            assert(part@ =~= Seq::empty());
        } else {
            part.push(s[i]);
        }
        i = i + 1;
    }
    assert(whole.take(to - from) =~= whole);
    let ghost done = texts(found@);
    let ghost last = part@;
    found.push(part);
    assert(texts(found@) =~= done.push(last));
    found
}

/// No line holds a line feed.
pub proof fn lemma_lines_are_single(s: Seq<char>)
    ensures
        forall|i: int| 0 <= i < lines(s).len() ==> !(#[trigger] lines(s)[i]).contains('\n'),
    decreases s.len(),
{
    if s.len() > 0 {
        lemma_lines_are_single(s.drop_last());
        lemma_parts_not_empty(s.drop_last(), '\n');
        let before = lines(s.drop_last());
        if s.last() != '\n' {
            let line = before.last().push(s.last());
            assert(!line.contains('\n')) by {
                assert(!before[before.len() - 1].contains('\n'));
                assert forall|j: int| 0 <= j < line.len() implies line[j] != '\n' by {
                    if j < before.last().len() {
                        assert(before.last()[j] != '\n');
                    }
                }
            }
        }
    }
}

/// A line feed ends the lines before it, and begins a new one.
pub proof fn lemma_lines_after_feed(s: Seq<char>, last: Seq<char>)
    requires
        !last.contains('\n'),
    ensures
        lines(s.push('\n') + last) == lines(s).push(last),
    decreases last.len(),
{
    let whole = s.push('\n') + last;
    if last.len() == 0 {
        assert(whole.drop_last() =~= s);
        assert(last =~= Seq::empty());
    } else {
        let shorter = last.drop_last();
        assert(last[last.len() - 1] != '\n');
        assert(forall|j: int| 0 <= j < shorter.len() ==> shorter[j] == last[j]);
        lemma_lines_after_feed(s, shorter);
        assert(whole.drop_last() =~= s.push('\n') + shorter);
        assert(shorter.push(last.last()) =~= last);
        assert(lines(s).push(shorter).drop_last() =~= lines(s));
    }
}

/// What has no line feed goes on with the last line.
pub proof fn lemma_last_line_goes_on(s: Seq<char>, more: Seq<char>)
    requires
        !more.contains('\n'),
    ensures
        lines(s + more) == lines(s).drop_last().push(lines(s).last() + more),
    decreases more.len(),
{
    lemma_parts_not_empty(s, '\n');
    let before = lines(s);
    if more.len() == 0 {
        assert(s + more =~= s);
        assert(before.last() + more =~= before.last());
        assert(before.drop_last().push(before.last()) =~= before);
    } else {
        let shorter = more.drop_last();
        assert(more[more.len() - 1] != '\n');
        assert(forall|j: int| 0 <= j < shorter.len() ==> shorter[j] == more[j]);
        lemma_last_line_goes_on(s, shorter);
        assert((s + more).drop_last() =~= s + shorter);
        assert((before.last() + shorter).push(more.last()) =~= before.last() + more);
        assert(before.drop_last().push(before.last() + shorter).drop_last() =~= before.drop_last());
    }
}

/// A text without line feeds is one line.
pub proof fn lemma_single_line(s: Seq<char>)
    requires
        !s.contains('\n'),
    ensures
        lines(s) == seq![s],
    decreases s.len(),
{
    if s.len() > 0 {
        let shorter = s.drop_last();
        assert(s[s.len() - 1] != '\n');
        assert(forall|j: int| 0 <= j < shorter.len() ==> shorter[j] == s[j]);
        lemma_single_line(shorter);
        assert(shorter.push(s.last()) =~= s);
        assert(seq![shorter].drop_last().push(s) =~= seq![s]);
    } else {
        assert(s =~= Seq::empty());
    }
}

/// Trimming adds no character.
pub proof fn lemma_trimmed_part(s: Seq<char>, c: char)
    ensures
        trimmed(s).contains(c) ==> s.contains(c),
{
    lemma_trim_end_part(trim_start(s), c);
    lemma_trim_start_part(s, c);
}

proof fn lemma_trim_start_part(s: Seq<char>, c: char)
    ensures
        trim_start(s).contains(c) ==> s.contains(c),
    decreases s.len(),
{
    if s.len() > 0 && is_white_space(s.first()) {
        lemma_trim_start_part(s.drop_first(), c);
        if s.drop_first().contains(c) {
            let i = choose|i: int| 0 <= i < s.drop_first().len() && s.drop_first()[i] == c;
            assert(s[i + 1] == c);
        }
    }
}

proof fn lemma_trim_end_part(s: Seq<char>, c: char)
    ensures
        trim_end(s).contains(c) ==> s.contains(c),
    decreases s.len(),
{
    if s.len() > 0 && is_white_space(s.last()) {
        lemma_trim_end_part(s.drop_last(), c);
        if s.drop_last().contains(c) {
            let i = choose|i: int| 0 <= i < s.drop_last().len() && s.drop_last()[i] == c;
            assert(s[i] == c);
        }
    }
}

/// The texts in `parts`, one after the other, with `separator` between each two.
pub open spec fn joined(parts: Seq<Seq<char>>, separator: Seq<char>) -> Seq<char>
    decreases parts.len(),
{
    if parts.len() == 0 {
        Seq::empty()
    } else if parts.len() == 1 {
        parts[0]
    } else {
        joined(parts.drop_last(), separator) + separator + parts.last()
    }
}

/// The decimal digit for `d`.
pub open spec fn digit(d: nat) -> char {
    ('0' as int + d) as char
}

/// `n` in decimal notation.
pub open spec fn decimal(n: nat) -> Seq<char>
    decreases n,
{
    if n < 10 {
        seq![digit(n)]
    } else {
        decimal(n / 10).push(digit(n % 10))
    }
}

/// Decimal notation is made of digits.
pub proof fn lemma_decimal_digits(n: nat)
    ensures
        forall|i: int| 0 <= i < decimal(n).len() ==> '0' <= #[trigger] decimal(n)[i] <= '9',
    decreases n,
{
    let last = digit(n % 10);
    assert('0' <= last <= '9');
    if n >= 10 {
        lemma_decimal_digits(n / 10);
        assert forall|i: int| 0 <= i < decimal(n).len() implies '0' <= #[trigger] decimal(n)[i]
            <= '9' by {
            if i < decimal(n / 10).len() {
                assert(decimal(n)[i] == decimal(n / 10)[i]);
            }
        }
    } else {
        assert(decimal(n) =~= seq![last]);
    }
}

fn digit_text(d: u64) -> (t: &'static str)
    requires
        d < 10,
    ensures
        t@ == seq![digit(d as nat)],
{
    proof {
        reveal_strlit("0");
        reveal_strlit("1");
        reveal_strlit("2");
        reveal_strlit("3");
        reveal_strlit("4");
        reveal_strlit("5");
        reveal_strlit("6");
        reveal_strlit("7");
        reveal_strlit("8");
        reveal_strlit("9");
    }
    let t = if d == 0 {
        "0"
    } else if d == 1 {
        "1"
    } else if d == 2 {
        "2"
    } else if d == 3 {
        "3"
    } else if d == 4 {
        "4"
    } else if d == 5 {
        "5"
    } else if d == 6 {
        "6"
    } else if d == 7 {
        "7"
    } else if d == 8 {
        "8"
    } else {
        "9"
    };
    assert(t@ =~= seq![digit(d as nat)]);
    t
}

/// `n` in decimal notation.
pub fn decimal_text(n: u64) -> (t: String)
    ensures
        t@ == decimal(n as nat),
    decreases n,
{
    if n < 10 {
        digit_text(n).to_owned()
    } else {
        let mut t = decimal_text(n / 10);
        t.append(digit_text(n % 10));
        assert(t@ =~= decimal(n as nat));
        t
    }
}

/// White space is what these code points stand for.
pub proof fn law_white_space_characters(c: char)
    ensures
        is_white_space(c) <==> {
            let code = c as u32;
            ||| 9 <= code <= 13
            ||| code == 32
            ||| code == 133
            ||| code == 160
            ||| code == 5760
            ||| 8192 <= code <= 8202
            ||| code == 8232
            ||| code == 8233
            ||| code == 8239
            ||| code == 8287
            ||| code == 12288
        },
{
}

proof fn lemma_trim_start_at(s: Seq<char>) -> (at: int)
    ensures
        0 <= at <= s.len(),
        trim_start(s) == s.skip(at),
        forall|k: int| 0 <= k < at ==> is_white_space(#[trigger] s[k]),
        at < s.len() ==> !is_white_space(s[at]),
    decreases s.len(),
{
    if s.len() > 0 && is_white_space(s.first()) {
        let rest = s.drop_first();
        let at = lemma_trim_start_at(rest);
        assert(rest.skip(at) =~= s.skip(at + 1));
        assert forall|k: int| 0 <= k < at + 1 implies is_white_space(#[trigger] s[k]) by {
            if k > 0 {
                assert(rest[k - 1] == s[k]);
            }
        }
        at + 1
    } else {
        assert(s.skip(0) =~= s);
        0
    }
}

proof fn lemma_trim_end_at(s: Seq<char>) -> (at: int)
    ensures
        0 <= at <= s.len(),
        trim_end(s) == s.take(at),
        forall|k: int| at <= k < s.len() ==> is_white_space(#[trigger] s[k]),
        at > 0 ==> !is_white_space(s[at - 1]),
    decreases s.len(),
{
    if s.len() > 0 && is_white_space(s.last()) {
        let rest = s.drop_last();
        let at = lemma_trim_end_at(rest);
        assert(rest.take(at) =~= s.take(at));
        assert forall|k: int| at <= k < s.len() implies is_white_space(#[trigger] s[k]) by {
            if k < rest.len() {
                assert(rest[k] == s[k]);
            }
        }
        at
    } else {
        assert(s.take(s.len() as int) =~= s);
        s.len() as int
    }
}

/// Trimming cuts off the white space at both ends, all of it and nothing else.
pub proof fn law_trimmed_is_the_middle(s: Seq<char>)
    ensures
        exists|from: int, to: int|
            #![trigger s.subrange(from, to)]
            {
                &&& 0 <= from <= to <= s.len()
                &&& trimmed(s) == s.subrange(from, to)
                &&& forall|k: int|
                    0 <= k < from || to <= k < s.len() ==> is_white_space(#[trigger] s[k])
                &&& from < to ==> !is_white_space(s[from]) && !is_white_space(s[to - 1])
            },
{
    let from = lemma_trim_start_at(s);
    let rest = s.skip(from);
    let length = lemma_trim_end_at(rest);
    let to = from + length;
    assert(rest.take(length) =~= s.subrange(from, to));
    assert forall|k: int| 0 <= k < from || to <= k < s.len() implies is_white_space(
        #[trigger] s[k],
    ) by {
        if k >= to {
            assert(rest[k - from] == s[k]);
        }
    }
    if from < to {
        assert(rest[length - 1] == s[to - 1]);
    }
    assert(trimmed(s) == s.subrange(from, to));
}

/// Lower case keeps the number of characters. It moves the letters from `A` to `Z` up by
/// the distance between the two alphabets, and keeps every other character.
pub proof fn law_ascii_lowered_letters(s: Seq<char>, i: int)
    requires
        0 <= i < s.len(),
    ensures
        ascii_lowered(s).len() == s.len(),
        65 <= s[i] as u32 <= 90 ==> ascii_lowered(s)[i] as u32 == s[i] as u32 + 32,
        !(65 <= s[i] as u32 <= 90) ==> ascii_lowered(s)[i] == s[i],
{
}

/// A text stands in another exactly where the other is made of something, the text, and
/// something.
pub proof fn law_occurs_between(s: Seq<char>, needle: Seq<char>)
    ensures
        occurs(s, needle) <==> exists|before: Seq<char>, after: Seq<char>|
            s == #[trigger] (before + needle + after),
{
    if occurs(s, needle) {
        let at = choose|at: int| #[trigger] found_at(s, needle, at);
        let before = s.take(at);
        let after = s.skip(at + needle.len());
        assert(s =~= before + needle + after) by {
            assert(s.subrange(at, at + needle.len()) =~= needle);
            assert forall|k: int| 0 <= k < s.len() implies s[k] == (before + needle + after)[k] by {
                if at <= k < at + needle.len() {
                    assert(s.subrange(at, at + needle.len())[k - at] == s[k]);
                }
            }
        }
    }
    if exists|before: Seq<char>, after: Seq<char>| s == #[trigger] (before + needle + after) {
        let (before, after) = choose|before: Seq<char>, after: Seq<char>|
            s == #[trigger] (before + needle + after);
        let at = before.len() as int;
        assert(s.subrange(at, at + needle.len()) =~= needle);
        assert(found_at(s, needle, at));
    }
}

/// What is left of a text without a leading character is its end from the first other
/// character on.
pub proof fn law_without_leading_cuts_the_run(s: Seq<char>, c: char)
    ensures
        exists|at: int|
            #![trigger s.skip(at)]
            {
                &&& 0 <= at <= s.len()
                &&& without_leading(s, c) == s.skip(at)
                &&& forall|k: int| 0 <= k < at ==> #[trigger] s[k] == c
                &&& at < s.len() ==> s[at] != c
            },
    decreases s.len(),
{
    if s.len() > 0 && s.first() == c {
        let rest = s.drop_first();
        law_without_leading_cuts_the_run(rest, c);
        let at = choose|at: int|
            #![trigger rest.skip(at)]
            {
                &&& 0 <= at <= rest.len()
                &&& without_leading(rest, c) == rest.skip(at)
                &&& forall|k: int| 0 <= k < at ==> #[trigger] rest[k] == c
                &&& at < rest.len() ==> rest[at] != c
            };
        assert(rest.skip(at) =~= s.skip(at + 1));
        assert forall|k: int| 0 <= k < at + 1 implies #[trigger] s[k] == c by {
            if k > 0 {
                assert(rest[k - 1] == c);
            }
        }
        assert(without_leading(s, c) == s.skip(at + 1));
    } else {
        assert(s.skip(0) =~= s);
    }
}

/// Joining nothing gives nothing, joining one text gives that text, and joining two lists
/// gives the one, the separator and the other.
pub proof fn law_joined_lists(
    first: Seq<Seq<char>>,
    second: Seq<Seq<char>>,
    only: Seq<char>,
    separator: Seq<char>,
)
    requires
        first.len() > 0,
        second.len() > 0,
    ensures
        joined(Seq::empty(), separator) == Seq::<char>::empty(),
        joined(seq![only], separator) == only,
        joined(first + second, separator) == joined(first, separator) + separator + joined(
            second,
            separator,
        ),
    decreases second.len(),
{
    let both = first + second;
    assert(both.drop_last() =~= first + second.drop_last());
    assert(both.last() == second.last());
    if second.len() > 1 {
        law_joined_lists(first, second.drop_last(), only, separator);
        assert(joined(both, separator) =~= joined(first, separator) + separator + joined(
            second,
            separator,
        ));
    } else {
        assert(first + second.drop_last() =~= first);
    }
}

/// Splitting undoes itself: the parts hold no separator, and joined by it they are the
/// text.
pub proof fn law_parts_make_the_text(s: Seq<char>, c: char)
    ensures
        parts(s, c).len() > 0,
        joined(parts(s, c), seq![c]) == s,
        forall|i: int| 0 <= i < parts(s, c).len() ==> !(#[trigger] parts(s, c)[i]).contains(c),
    decreases s.len(),
{
    if s.len() > 0 {
        let shorter = s.drop_last();
        law_parts_make_the_text(shorter, c);
        let before = parts(shorter, c);
        let after = parts(s, c);
        if s.last() == c {
            assert(after.drop_last() =~= before);
            assert(joined(after, seq![c]) =~= s);
        } else {
            assert(after.drop_last() =~= before.drop_last());
            assert(shorter.push(s.last()) =~= s);
            assert(joined(after, seq![c]) =~= s);
            let line = before.last().push(s.last());
            assert(!before[before.len() - 1].contains(c));
            assert(!line.contains(c)) by {
                assert forall|j: int| 0 <= j < line.len() implies line[j] != c by {
                    if j < before.last().len() {
                        assert(before.last()[j] != c);
                    }
                }
            }
        }
    }
}

/// Lines are split at line feeds: joined by line feeds they are the text again, and none
/// of them holds one.
pub proof fn law_lines_make_the_text(s: Seq<char>)
    ensures
        lines(s).len() > 0,
        joined(lines(s), seq!['\n']) == s,
        forall|i: int| 0 <= i < lines(s).len() ==> !(#[trigger] lines(s)[i]).contains('\n'),
{
    law_parts_make_the_text(s, '\n');
}

/// A separator ends the parts before it, and begins a new one.
pub proof fn lemma_parts_after_separator(s: Seq<char>, last: Seq<char>, c: char)
    requires
        !last.contains(c),
    ensures
        parts(s.push(c) + last, c) == parts(s, c).push(last),
    decreases last.len(),
{
    let whole = s.push(c) + last;
    if last.len() == 0 {
        assert(whole.drop_last() =~= s);
        assert(last =~= Seq::empty());
    } else {
        let shorter = last.drop_last();
        assert(last[last.len() - 1] != c);
        assert(forall|j: int| 0 <= j < shorter.len() ==> shorter[j] == last[j]);
        lemma_parts_after_separator(s, shorter, c);
        assert(whole.drop_last() =~= s.push(c) + shorter);
        assert(shorter.push(last.last()) =~= last);
        assert(parts(s, c).push(shorter).drop_last() =~= parts(s, c));
    }
}

proof fn lemma_single_part(s: Seq<char>, c: char)
    requires
        !s.contains(c),
    ensures
        parts(s, c) == seq![s],
    decreases s.len(),
{
    if s.len() > 0 {
        let shorter = s.drop_last();
        assert(s[s.len() - 1] != c);
        assert(forall|j: int| 0 <= j < shorter.len() ==> shorter[j] == s[j]);
        lemma_single_part(shorter, c);
        assert(shorter.push(s.last()) =~= s);
        assert(seq![shorter].drop_last().push(s) =~= seq![s]);
    } else {
        assert(s =~= Seq::empty());
    }
}

/// Joining is undone by splitting, where no text holds the separator.
pub proof fn law_joined_texts_are_split(list: Seq<Seq<char>>, c: char)
    requires
        list.len() > 0,
        forall|i: int| 0 <= i < list.len() ==> !(#[trigger] list[i]).contains(c),
    ensures
        parts(joined(list, seq![c]), c) == list,
    decreases list.len(),
{
    assert(!list[list.len() - 1].contains(c));
    if list.len() == 1 {
        lemma_single_part(list[0], c);
        assert(seq![list[0]] =~= list);
    } else {
        let shorter = list.drop_last();
        assert forall|i: int| 0 <= i < shorter.len() implies !(#[trigger] shorter[i]).contains(
            c,
        ) by {
            assert(shorter[i] == list[i]);
        }
        law_joined_texts_are_split(shorter, c);
        let before = joined(shorter, seq![c]);
        lemma_parts_after_separator(before, list.last(), c);
        assert(before + seq![c] + list.last() =~= before.push(c) + list.last());
        assert(shorter.push(list.last()) =~= list);
    }
}

/// Decimal notation: a digit for each number below ten, and the digits of a number times
/// ten plus a digit are those of the number and then that digit.
pub proof fn law_decimal_notation(n: nat, d: nat)
    requires
        d < 10,
    ensures
        decimal(d) == seq![seq!['0', '1', '2', '3', '4', '5', '6', '7', '8', '9'][d as int]],
        n > 0 ==> decimal(10 * n + d) == decimal(n) + decimal(d),
{
    assert(decimal(d) =~= seq![digit(d)]);
    if n > 0 {
        let m = 10 * n + d;
        assert(m / 10 == n && m % 10 == d);
        assert(decimal(m) =~= decimal(n) + decimal(d));
    }
}

/// Texts are taken one for one.
pub proof fn law_texts_one_for_one(list: Seq<Vec<char>>, i: int)
    requires
        0 <= i < list.len(),
    ensures
        texts(list).len() == list.len(),
        texts(list)[i] == list[i]@,
{
}

} // verus!
