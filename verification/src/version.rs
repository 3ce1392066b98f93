//! Which of two versions is the newer one.
//!
//! A version is numbers with dots between them, such as `1.10.0`. What follows a
//! hyphen marks a pre-release, such as `1.10.0-rc.1`, which is older than the release
//! itself. What follows a plus sign says how a version was built and makes no
//! difference.

use vstd::prelude::*;

use crate::text;

verus! {

/// How old one thing is, seen from another.
#[derive(Clone, Copy, Debug, PartialEq, Eq, Structural)]
pub enum Order {
    Older,
    Same,
    Newer,
}

/// The same order, seen from the other side.
pub open spec fn mirrored(order: Order) -> Order {
    match order {
        Order::Older => Order::Newer,
        Order::Same => Order::Same,
        Order::Newer => Order::Older,
    }
}

/// How `a` stands to `b`, where the greater number is the newer.
pub open spec fn number_order(a: int, b: int) -> Order {
    if a > b {
        Order::Newer
    } else if a < b {
        Order::Older
    } else {
        Order::Same
    }
}

/// Whether `c` is a decimal digit.
pub open spec fn is_digit(c: char) -> bool {
    '0' <= c <= '9'
}

/// The digits that `s` begins with.
pub open spec fn leading_digits(s: Seq<char>) -> Seq<char>
    decreases s.len(),
{
    if s.len() > 0 && is_digit(s.first()) {
        seq![s.first()] + leading_digits(s.drop_first())
    } else {
        Seq::empty()
    }
}

/// The number that the digits `digits` stand for.
pub open spec fn number(digits: Seq<char>) -> int
    decreases digits.len(),
{
    if digits.len() == 0 {
        0
    } else {
        10 * number(digits.drop_last()) + (digits.last() as int - '0' as int)
    }
}

/// The number that a list of parts begins with: that of the digits at the beginning
/// of the first part, and zero where there are none.
pub open spec fn first_number(parts: Seq<Seq<char>>) -> int {
    if parts.len() > 0 {
        number(leading_digits(parts.first()))
    } else {
        0
    }
}

/// The parts after the first.
pub open spec fn rest(parts: Seq<Seq<char>>) -> Seq<Seq<char>> {
    if parts.len() > 0 {
        parts.drop_first()
    } else {
        parts
    }
}

/// How the numbers of two releases stand to each other: the first two that differ
/// decide. A number that is missing counts as zero.
pub open spec fn release_order(a: Seq<Seq<char>>, b: Seq<Seq<char>>) -> Order
    decreases a.len() + b.len(),
{
    if a.len() == 0 && b.len() == 0 {
        Order::Same
    } else {
        let order = number_order(first_number(a), first_number(b));
        if order is Same {
            release_order(rest(a), rest(b))
        } else {
            order
        }
    }
}

/// How two texts stand to each other: the first two characters that differ decide,
/// and where none do, the longer text is the newer.
pub open spec fn text_order(a: Seq<char>, b: Seq<char>) -> Order
    decreases a.len(),
{
    if a.len() == 0 || b.len() == 0 {
        number_order(a.len() as int, b.len() as int)
    } else if a.first() == b.first() {
        text_order(a.drop_first(), b.drop_first())
    } else {
        number_order(a.first() as int, b.first() as int)
    }
}

/// Whether a part of a pre-release is a number.
pub open spec fn is_number(part: Seq<char>) -> bool {
    part.len() > 0 && leading_digits(part).len() == part.len()
}

/// How two parts of pre-releases stand to each other: numbers by what they are, other
/// texts by their characters, and a number is older than any other text.
pub open spec fn part_order(a: Seq<char>, b: Seq<char>) -> Order {
    if is_number(a) && is_number(b) {
        number_order(number(leading_digits(a)), number(leading_digits(b)))
    } else if is_number(a) {
        Order::Older
    } else if is_number(b) {
        Order::Newer
    } else {
        text_order(a, b)
    }
}

/// How two pre-releases of one release stand to each other: the first two parts that
/// differ decide, and where none do, the one with more parts is the newer.
pub open spec fn parts_order(a: Seq<Seq<char>>, b: Seq<Seq<char>>) -> Order
    decreases a.len(),
{
    if a.len() == 0 || b.len() == 0 {
        number_order(a.len() as int, b.len() as int)
    } else {
        let order = part_order(a.first(), b.first());
        if order is Same {
            parts_order(a.drop_first(), b.drop_first())
        } else {
            order
        }
    }
}

/// How two versions of one release stand to each other. The release itself, which
/// has no mark of a pre-release, is newer than any pre-release of it.
pub open spec fn pre_release_order(
    a: Option<Seq<Seq<char>>>,
    b: Option<Seq<Seq<char>>>,
) -> Order {
    match (a, b) {
        (Some(a), Some(b)) => parts_order(a, b),
        (Some(_), None) => Order::Older,
        (None, Some(_)) => Order::Newer,
        (None, None) => Order::Same,
    }
}

/// `s` up to the first `c`.
pub open spec fn up_to(s: Seq<char>, c: char) -> Seq<char> {
    match s.index_of_first(c) {
        Some(at) => s.take(at),
        None => s,
    }
}

/// The parts of the release that `version` belongs to.
pub open spec fn release_parts(version: Seq<char>) -> Seq<Seq<char>> {
    text::parts(up_to(up_to(version, '+'), '-'), '.')
}

/// The parts of what marks `version` as a pre-release; `None` where it is none.
pub open spec fn pre_release_parts(version: Seq<char>) -> Option<Seq<Seq<char>>> {
    let version = up_to(version, '+');
    match version.index_of_first('-') {
        Some(at) => Some(text::parts(version.skip(at + 1), '.')),
        None => None,
    }
}

/// How the version `a` stands to the version `b`.
pub open spec fn version_order(a: Seq<char>, b: Seq<char>) -> Order {
    let order = release_order(release_parts(a), release_parts(b));
    if order is Same {
        pre_release_order(pre_release_parts(a), pre_release_parts(b))
    } else {
        order
    }
}

/// Whether the version `latest` is newer than the version `current`.
pub open spec fn newer(latest: Seq<char>, current: Seq<char>) -> bool {
    version_order(latest, current) is Newer
}

/// Whether `s` names a version: it begins with a number.
pub open spec fn names_version(s: Seq<char>) -> bool {
    leading_digits(s).len() > 0
}

proof fn lemma_leading_digits(s: Seq<char>, count: int)
    requires
        0 <= count <= s.len(),
        forall|i: int| 0 <= i < count ==> is_digit(#[trigger] s[i]),
        count < s.len() ==> !is_digit(s[count]),
    ensures
        leading_digits(s) == s.take(count),
    decreases count,
{
    if count > 0 {
        let tail = s.drop_first();
        assert forall|i: int| 0 <= i < count - 1 implies is_digit(#[trigger] tail[i]) by {
            assert(is_digit(s[i + 1]));
        }
        assert(is_digit(s[0]));
        lemma_leading_digits(tail, count - 1);
        assert(seq![s.first()] + tail.take(count - 1) =~= s.take(count));
    } else {
        assert(s.take(0) =~= Seq::empty());
    }
}

/// How many digits `part` begins with.
fn count_digits(part: &Vec<char>) -> (count: usize)
    ensures
        count <= part@.len(),
        leading_digits(part@) == part@.take(count as int),
        forall|i: int| 0 <= i < count ==> is_digit(#[trigger] part@[i]),
{
    let mut count: usize = 0;
    while count < part.len() && '0' <= part[count] && part[count] <= '9'
        invariant
            count <= part@.len(),
            forall|i: int| 0 <= i < count ==> is_digit(#[trigger] part@[i]),
        decreases part@.len() - count,
    {
        count = count + 1;
    }
    proof {
        lemma_leading_digits(part@, count as int);
    }
    count
}

/// How the numbers that stand in `a[..a_end]` and `b[..b_end]` stand to each other.
/// They may have any number of digits.
fn order_of_numbers(a: &Vec<char>, a_end: usize, b: &Vec<char>, b_end: usize) -> (order: Order)
    requires
        a_end <= a@.len(),
        b_end <= b@.len(),
        forall|i: int| 0 <= i < a_end ==> is_digit(#[trigger] a@[i]),
        forall|i: int| 0 <= i < b_end ==> is_digit(#[trigger] b@[i]),
    ensures
        order == number_order(number(a@.take(a_end as int)), number(b@.take(b_end as int))),
{
    let width: usize = if a_end > b_end {
        a_end
    } else {
        b_end
    };
    let a_pad: usize = width - a_end;
    let b_pad: usize = width - b_end;
    let mut order = Order::Same;
    let mut at: usize = 0;
    assert(a@.take(0) =~= Seq::empty());
    assert(b@.take(0) =~= Seq::empty());
    while at < width
        invariant
            at <= width,
            a_pad + a_end == width,
            b_pad + b_end == width,
            a_end <= a@.len(),
            b_end <= b@.len(),
            forall|i: int| 0 <= i < a_end ==> is_digit(#[trigger] a@[i]),
            forall|i: int| 0 <= i < b_end ==> is_digit(#[trigger] b@[i]),
            order == number_order(
                number(a@.take(if at < a_pad { 0 } else { at - a_pad })),
                number(b@.take(if at < b_pad { 0 } else { at - b_pad })),
            ),
        decreases width - at,
    {
        let ghost a_done = number(a@.take(if at < a_pad { 0 } else { at - a_pad }));
        let ghost b_done = number(b@.take(if at < b_pad { 0 } else { at - b_pad }));
        let a_digit = if at < a_pad {
            '0'
        } else {
            a[at - a_pad]
        };
        let b_digit = if at < b_pad {
            '0'
        } else {
            b[at - b_pad]
        };
        proof {
            assert(number(Seq::<char>::empty()) == 0);
            assert(a@.take(0) =~= Seq::empty());
            assert(b@.take(0) =~= Seq::empty());
            if at >= a_pad {
                assert(is_digit(a@[at - a_pad]));
                assert(a@.take(at + 1 - a_pad).drop_last() =~= a@.take(at - a_pad));
            }
            if at >= b_pad {
                assert(is_digit(b@[at - b_pad]));
                assert(b@.take(at + 1 - b_pad).drop_last() =~= b@.take(at - b_pad));
            }
            assert(number(a@.take(if at + 1 < a_pad { 0 } else { at + 1 - a_pad })) == 10 * a_done
                + (a_digit as int - '0' as int));
            assert(number(b@.take(if at + 1 < b_pad { 0 } else { at + 1 - b_pad })) == 10 * b_done
                + (b_digit as int - '0' as int));
        }
        if order == Order::Same {
            if a_digit > b_digit {
                order = Order::Newer;
            } else if a_digit < b_digit {
                order = Order::Older;
            }
        }
        at = at + 1;
    }
    order
}

/// How the numbers of two releases stand to each other.
fn order_of_releases(a: &Vec<Vec<char>>, b: &Vec<Vec<char>>) -> (order: Order)
    ensures
        order == release_order(text::texts(a@), text::texts(b@)),
{
    let ghost a_parts = text::texts(a@);
    let ghost b_parts = text::texts(b@);
    let none: Vec<char> = Vec::new();
    let mut i: usize = 0;
    assert(a_parts.skip(0) =~= a_parts);
    assert(b_parts.skip(0) =~= b_parts);
    while i < a.len() || i < b.len()
        invariant
            a_parts == text::texts(a@),
            b_parts == text::texts(b@),
            none@.len() == 0,
            release_order(a_parts, b_parts) == release_order(
                a_parts.skip(if i < a@.len() { i as int } else { a@.len() as int }),
                b_parts.skip(if i < b@.len() { i as int } else { b@.len() as int }),
            ),
        decreases a@.len() + b@.len() - i,
    {
        let ghost a_left = a_parts.skip(if i < a@.len() { i as int } else { a@.len() as int });
        let ghost b_left = b_parts.skip(if i < b@.len() { i as int } else { b@.len() as int });
        let a_part = if i < a.len() {
            &a[i]
        } else {
            &none
        };
        let b_part = if i < b.len() {
            &b[i]
        } else {
            &none
        };
        let a_end = count_digits(a_part);
        let b_end = count_digits(b_part);
        let order = order_of_numbers(a_part, a_end, b_part, b_end);
        assert(first_number(a_left) == number(leading_digits(a_part@)));
        assert(first_number(b_left) == number(leading_digits(b_part@)));
        if order != Order::Same {
            return order;
        }
        i = i + 1;
        assert(rest(a_left) =~= a_parts.skip(if i < a@.len() { i as int } else { a@.len() as int }));
        assert(rest(b_left) =~= b_parts.skip(if i < b@.len() { i as int } else { b@.len() as int }));
    }
    Order::Same
}

/// How two texts stand to each other.
fn order_of_texts(a: &Vec<char>, b: &Vec<char>) -> (order: Order)
    ensures
        order == text_order(a@, b@),
{
    let mut i: usize = 0;
    assert(a@.skip(0) =~= a@);
    assert(b@.skip(0) =~= b@);
    while i < a.len() && i < b.len()
        invariant
            i <= a@.len(),
            i <= b@.len(),
            text_order(a@, b@) == text_order(a@.skip(i as int), b@.skip(i as int)),
        decreases a@.len() - i,
    {
        if a[i] > b[i] {
            return Order::Newer;
        }
        if a[i] < b[i] {
            return Order::Older;
        }
        assert(a@.skip(i as int).drop_first() =~= a@.skip(i + 1));
        assert(b@.skip(i as int).drop_first() =~= b@.skip(i + 1));
        i = i + 1;
    }
    if i < a.len() {
        Order::Newer
    } else if i < b.len() {
        Order::Older
    } else {
        Order::Same
    }
}

/// How two parts of pre-releases stand to each other.
fn order_of_parts(a: &Vec<char>, b: &Vec<char>) -> (order: Order)
    ensures
        order == part_order(a@, b@),
{
    let a_end = count_digits(a);
    let b_end = count_digits(b);
    let a_number = a.len() > 0 && a_end == a.len();
    let b_number = b.len() > 0 && b_end == b.len();
    if a_number && b_number {
        order_of_numbers(a, a_end, b, b_end)
    } else if a_number {
        Order::Older
    } else if b_number {
        Order::Newer
    } else {
        order_of_texts(a, b)
    }
}

/// How two pre-releases of one release stand to each other.
fn order_of_pre_releases(a: &Vec<Vec<char>>, b: &Vec<Vec<char>>) -> (order: Order)
    ensures
        order == parts_order(text::texts(a@), text::texts(b@)),
{
    let ghost a_parts = text::texts(a@);
    let ghost b_parts = text::texts(b@);
    let mut i: usize = 0;
    assert(a_parts.skip(0) =~= a_parts);
    assert(b_parts.skip(0) =~= b_parts);
    while i < a.len() && i < b.len()
        invariant
            a_parts == text::texts(a@),
            b_parts == text::texts(b@),
            i <= a@.len(),
            i <= b@.len(),
            parts_order(a_parts, b_parts) == parts_order(
                a_parts.skip(i as int),
                b_parts.skip(i as int),
            ),
        decreases a@.len() - i,
    {
        let order = order_of_parts(&a[i], &b[i]);
        assert(a_parts.skip(i as int).first() == a@[i as int]@);
        assert(b_parts.skip(i as int).first() == b@[i as int]@);
        if order != Order::Same {
            return order;
        }
        assert(a_parts.skip(i as int).drop_first() =~= a_parts.skip(i + 1));
        assert(b_parts.skip(i as int).drop_first() =~= b_parts.skip(i + 1));
        i = i + 1;
    }
    if i < a.len() {
        Order::Newer
    } else if i < b.len() {
        Order::Older
    } else {
        Order::Same
    }
}

/// The index of the first `c` in `s[..to]`, and `to` where there is none.
fn position(s: &Vec<char>, to: usize, c: char) -> (at: usize)
    requires
        to <= s@.len(),
    ensures
        at <= to,
        up_to(s@.take(to as int), c) == s@.take(at as int),
        match s@.take(to as int).index_of_first(c) {
            Some(first) => at == first && at < to,
            None => at == to,
        },
{
    let ghost part = s@.take(to as int);
    proof {
        part.index_of_first_ensures(c);
    }
    let mut at: usize = 0;
    while at < to && s[at] != c
        invariant
            at <= to <= s@.len(),
            part == s@.take(to as int),
            forall|j: int| 0 <= j < at ==> part[j] != c,
        decreases to - at,
    {
        at = at + 1;
    }
    proof {
        if at < to {
            assert(part[at as int] == c);
        }
        assert(part.take(at as int) =~= s@.take(at as int));
    }
    at
}

/// The parts of a version: those of its release, and those that mark it as a
/// pre-release, where it is one.
fn version_parts(version: &str) -> (found: (Vec<Vec<char>>, Option<Vec<Vec<char>>>))
    ensures
        text::texts(found.0@) == release_parts(version@),
        match pre_release_parts(version@) {
            Some(parts) => found.1 is Some && text::texts(found.1->Some_0@) == parts,
            None => found.1 is None,
        },
{
    let chars = text::characters(version);
    assert(chars@.take(chars@.len() as int) =~= version@);
    let end = position(&chars, chars.len(), '+');
    let at = position(&chars, end, '-');
    assert(chars@.subrange(0, at as int) =~= chars@.take(at as int));
    let release = text::split(&chars, 0, at, '.');
    if at < end {
        assert(chars@.take(end as int).skip(at + 1) =~= chars@.subrange(at + 1, end as int));
        (release, Some(text::split(&chars, at + 1, end, '.')))
    } else {
        (release, None)
    }
}

/// Whether `s` names a version.
pub fn is_version(s: &str) -> (found: bool)
    ensures
        found == names_version(s@),
{
    let chars = text::characters(s);
    count_digits(&chars) > 0
}

/// Whether the version `latest` is newer than the version `current`.
pub fn is_newer(latest: &str, current: &str) -> (found: bool)
    ensures
        found == newer(latest@, current@),
{
    let (latest_release, latest_mark) = version_parts(latest);
    let (current_release, current_mark) = version_parts(current);
    match order_of_releases(&latest_release, &current_release) {
        Order::Newer => true,
        Order::Older => false,
        Order::Same => match (&latest_mark, &current_mark) {
            (Some(latest_mark), Some(current_mark)) => order_of_pre_releases(
                latest_mark,
                current_mark,
            ) == Order::Newer,
            (Some(_), None) => false,
            (None, Some(_)) => true,
            (None, None) => false,
        },
    }
}

proof fn lemma_release_order_mirrored(a: Seq<Seq<char>>, b: Seq<Seq<char>>)
    ensures
        release_order(b, a) == mirrored(release_order(a, b)),
    decreases a.len() + b.len(),
{
    if a.len() > 0 || b.len() > 0 {
        lemma_release_order_mirrored(rest(a), rest(b));
    }
}

proof fn lemma_text_order_mirrored(a: Seq<char>, b: Seq<char>)
    ensures
        text_order(b, a) == mirrored(text_order(a, b)),
    decreases a.len(),
{
    if a.len() > 0 && b.len() > 0 {
        lemma_text_order_mirrored(a.drop_first(), b.drop_first());
    }
}

proof fn lemma_parts_order_mirrored(a: Seq<Seq<char>>, b: Seq<Seq<char>>)
    ensures
        parts_order(b, a) == mirrored(parts_order(a, b)),
    decreases a.len(),
{
    if a.len() > 0 && b.len() > 0 {
        lemma_text_order_mirrored(a.first(), b.first());
        lemma_parts_order_mirrored(a.drop_first(), b.drop_first());
    }
}

/// Of two versions one is newer exactly where the other is older. So no two are each
/// newer than the other, and none is newer than itself.
pub proof fn law_order_is_mirrored(a: Seq<char>, b: Seq<char>)
    ensures
        version_order(b, a) == mirrored(version_order(a, b)),
        !(newer(a, b) && newer(b, a)),
        version_order(a, a) is Same,
{
    lemma_release_order_mirrored(release_parts(a), release_parts(b));
    lemma_release_order_mirrored(release_parts(a), release_parts(a));
    if let Some(a_mark) = pre_release_parts(a) {
        lemma_parts_order_mirrored(a_mark, a_mark);
        if let Some(b_mark) = pre_release_parts(b) {
            lemma_parts_order_mirrored(a_mark, b_mark);
        }
    }
}

/// Whether `whole`, the order from a first to a third, is what `first`, from the first
/// to a second, and `second`, from there to the third, make of it, where neither step
/// leads to something newer.
spec fn leads(first: Order, second: Order, whole: Order) -> bool {
    first !is Older && second !is Older ==> whole == if first is Same {
        second
    } else {
        first
    }
}

proof fn lemma_release_order_leads(a: Seq<Seq<char>>, b: Seq<Seq<char>>, c: Seq<Seq<char>>)
    ensures
        leads(release_order(a, b), release_order(b, c), release_order(a, c)),
    decreases a.len() + b.len() + c.len(),
{
    if a.len() == 0 && b.len() == 0 {
        assert(a =~= b);
    } else if b.len() == 0 && c.len() == 0 {
        assert(b =~= c);
    } else if a.len() == 0 && c.len() == 0 {
        lemma_release_order_mirrored(a, b);
        assert(a =~= c);
    } else {
        lemma_release_order_leads(rest(a), rest(b), rest(c));
    }
}

proof fn lemma_text_order_leads(a: Seq<char>, b: Seq<char>, c: Seq<char>)
    ensures
        leads(text_order(a, b), text_order(b, c), text_order(a, c)),
    decreases a.len(),
{
    if a.len() > 0 && b.len() > 0 && c.len() > 0 {
        lemma_text_order_leads(a.drop_first(), b.drop_first(), c.drop_first());
    }
}

proof fn lemma_parts_order_leads(a: Seq<Seq<char>>, b: Seq<Seq<char>>, c: Seq<Seq<char>>)
    ensures
        leads(parts_order(a, b), parts_order(b, c), parts_order(a, c)),
    decreases a.len(),
{
    if a.len() > 0 && b.len() > 0 && c.len() > 0 {
        lemma_text_order_leads(a.first(), b.first(), c.first());
        lemma_parts_order_leads(a.drop_first(), b.drop_first(), c.drop_first());
    }
}

/// What is newer than a newer version is newer.
pub proof fn law_newer_is_transitive(a: Seq<char>, b: Seq<char>, c: Seq<char>)
    requires
        newer(a, b),
        newer(b, c),
    ensures
        newer(a, c),
{
    lemma_release_order_leads(release_parts(a), release_parts(b), release_parts(c));
    if let (Some(a_mark), Some(b_mark), Some(c_mark)) = (
        pre_release_parts(a),
        pre_release_parts(b),
        pre_release_parts(c),
    ) {
        lemma_parts_order_leads(a_mark, b_mark, c_mark);
    }
}

/// A release is newer than each of its pre-releases.
pub proof fn law_release_is_newer_than_its_pre_releases(release: Seq<char>, mark: Seq<char>)
    requires
        !release.contains('-'),
        !release.contains('+'),
        !mark.contains('+'),
    ensures
        newer(release, release.push('-') + mark),
{
    let marked = release.push('-') + mark;
    release.index_of_first_ensures('+');
    release.index_of_first_ensures('-');
    marked.index_of_first_ensures('+');
    marked.index_of_first_ensures('-');
    assert(!marked.contains('+')) by {
        assert forall|i: int| 0 <= i < marked.len() implies marked[i] != '+' by {
            if i < release.len() {
                assert(marked[i] == release[i]);
            } else if i > release.len() {
                assert(marked[i] == mark[i - release.len() - 1]);
            }
        }
    }
    assert(marked[release.len() as int] == '-');
    assert(forall|i: int| 0 <= i < release.len() ==> marked[i] == release[i]);
    let at = marked.index_of_first('-')->Some_0;
    assert(at == release.len()) by {
        if at < release.len() {
            assert(release[at] == '-');
        }
    }
    assert(marked.take(at) =~= release);
    lemma_release_order_mirrored(release_parts(release), release_parts(release));
}

/// A text names a version exactly where it begins with a decimal digit.
pub proof fn law_version_begins_with_a_digit(s: Seq<char>)
    ensures
        names_version(s) <==> s.len() > 0 && '0' <= s.first() <= '9',
{
    if s.len() > 0 && is_digit(s.first()) {
        assert(leading_digits(s).len() == 1 + leading_digits(s.drop_first()).len());
    }
}

/// The number that is written in decimal notation is read back.
pub proof fn law_decimal_is_read_back(n: nat)
    ensures
        number(text::decimal(n)) == n,
        leading_digits(text::decimal(n)) == text::decimal(n),
        is_number(text::decimal(n)),
    decreases n,
{
    text::lemma_decimal_digits(n);
    let digits = text::decimal(n);
    assert forall|i: int| 0 <= i < digits.len() implies is_digit(#[trigger] digits[i]) by {
        assert('0' <= text::decimal(n)[i] <= '9');
    }
    lemma_leading_digits(digits, digits.len() as int);
    assert(digits.take(digits.len() as int) =~= digits);
    assert(text::digit(n % 10) as int == '0' as int + n % 10);
    if n >= 10 {
        law_decimal_is_read_back(n / 10);
        assert(digits.drop_last() =~= text::decimal(n / 10));
        assert(10 * (n / 10) + n % 10 == n);
    } else {
        assert(digits.drop_last() =~= Seq::empty());
        assert(number(Seq::<char>::empty()) == 0);
    }
}

/// The decimal notations of numbers.
spec fn written(numbers: Seq<nat>) -> Seq<Seq<char>> {
    numbers.map_values(|n: nat| text::decimal(n))
}

proof fn lemma_written_has_no(numbers: Seq<nat>, c: char, i: int)
    requires
        0 <= i < numbers.len(),
        !is_digit(c),
    ensures
        !written(numbers)[i].contains(c),
{
    text::lemma_decimal_digits(numbers[i]);
    let digits = text::decimal(numbers[i]);
    assert(written(numbers)[i] == digits);
    assert forall|j: int| 0 <= j < digits.len() implies digits[j] != c by {
        assert('0' <= text::decimal(numbers[i])[j] <= '9');
    }
}

proof fn lemma_joined_has_no(list: Seq<Seq<char>>, separator: char, c: char)
    requires
        separator != c,
        forall|i: int| 0 <= i < list.len() ==> !(#[trigger] list[i]).contains(c),
    ensures
        !text::joined(list, seq![separator]).contains(c),
    decreases list.len(),
{
    let whole = text::joined(list, seq![separator]);
    if list.len() == 1 {
        assert(!list[0].contains(c));
    } else if list.len() > 1 {
        let shorter = list.drop_last();
        assert forall|i: int| 0 <= i < shorter.len() implies !(#[trigger] shorter[i]).contains(
            c,
        ) by {
            assert(shorter[i] == list[i]);
        }
        lemma_joined_has_no(shorter, separator, c);
        assert(!list[list.len() - 1].contains(c));
        let before = text::joined(shorter, seq![separator]);
        assert forall|j: int| 0 <= j < whole.len() implies whole[j] != c by {
            if j < before.len() {
                assert(whole[j] == before[j]);
            } else if j > before.len() {
                assert(whole[j] == list.last()[j - before.len() - 1]);
            }
        }
    }
}

proof fn lemma_plain_release(s: Seq<char>)
    requires
        !s.contains('+'),
        !s.contains('-'),
    ensures
        release_parts(s) == text::parts(s, '.'),
        pre_release_parts(s) is None,
{
    s.index_of_first_ensures('+');
    s.index_of_first_ensures('-');
}

proof fn lemma_dotted(numbers: Seq<nat>)
    requires
        numbers.len() > 0,
    ensures
        release_parts(text::joined(written(numbers), seq!['.'])) == written(numbers),
        pre_release_parts(text::joined(written(numbers), seq!['.'])) is None,
{
    let list = written(numbers);
    assert forall|i: int| 0 <= i < list.len() implies !(#[trigger] list[i]).contains('.')
        && !list[i].contains('+') && !list[i].contains('-') by {
        lemma_written_has_no(numbers, '.', i);
        lemma_written_has_no(numbers, '+', i);
        lemma_written_has_no(numbers, '-', i);
    }
    lemma_joined_has_no(list, '.', '+');
    lemma_joined_has_no(list, '.', '-');
    lemma_plain_release(text::joined(list, seq!['.']));
    text::law_joined_texts_are_split(list, '.');
}

proof fn lemma_release_order_of_numbers(a: Seq<nat>, b: Seq<nat>, at: int)
    requires
        0 <= at,
        forall|j: int|
            #![trigger a[j]]
            #![trigger b[j]]
            0 <= j < at ==> (if j < a.len() {
                a[j]
            } else {
                0
            }) == (if j < b.len() {
                b[j]
            } else {
                0
            }),
    ensures
        ({
            let x = if at < a.len() {
                a[at]
            } else {
                0
            };
            let y = if at < b.len() {
                b[at]
            } else {
                0
            };
            &&& x > y ==> release_order(written(a), written(b)) is Newer
            &&& x < y ==> release_order(written(a), written(b)) is Older
            &&& x == y && at + 1 >= a.len() && at + 1 >= b.len() ==> release_order(
                written(a),
                written(b),
            ) is Same
        }),
    decreases at,
{
    let a_list = written(a);
    let b_list = written(b);
    if a.len() > 0 {
        law_decimal_is_read_back(a[0]);
        assert(a_list.first() == text::decimal(a[0]));
    }
    if b.len() > 0 {
        law_decimal_is_read_back(b[0]);
        assert(b_list.first() == text::decimal(b[0]));
    }
    let a_rest = if a.len() > 0 {
        a.drop_first()
    } else {
        a
    };
    let b_rest = if b.len() > 0 {
        b.drop_first()
    } else {
        b
    };
    assert(rest(a_list) =~= written(a_rest));
    assert(rest(b_list) =~= written(b_rest));
    if at > 0 {
        assert((if 0 < a.len() {
            a[0]
        } else {
            0
        }) == (if 0 < b.len() {
            b[0]
        } else {
            0
        }));
        assert forall|j: int|
            #![trigger a_rest[j]]
            #![trigger b_rest[j]]
            0 <= j < at - 1 implies (if j < a_rest.len() {
            a_rest[j]
        } else {
            0
        }) == (if j < b_rest.len() {
            b_rest[j]
        } else {
            0
        }) by {
            assert((if j + 1 < a.len() {
                a[j + 1]
            } else {
                0
            }) == (if j + 1 < b.len() {
                b[j + 1]
            } else {
                0
            }));
        }
        lemma_release_order_of_numbers(a_rest, b_rest, at - 1);
    } else {
        if a.len() <= 1 && b.len() <= 1 {
            assert(a_rest.len() == 0 && b_rest.len() == 0);
        }
    }
}

/// Of two versions that are numbers with dots between them, the first two numbers that
/// differ decide, whatever number of digits they have. A number that is missing counts as
/// zero, and where no two numbers differ, neither version is newer.
pub proof fn law_first_different_number_decides(a: Seq<nat>, b: Seq<nat>, at: int)
    requires
        a.len() > 0,
        b.len() > 0,
        0 <= at,
        forall|j: int|
            #![trigger a[j]]
            #![trigger b[j]]
            0 <= j < at ==> (if j < a.len() {
                a[j]
            } else {
                0
            }) == (if j < b.len() {
                b[j]
            } else {
                0
            }),
    ensures
        ({
            let x = if at < a.len() {
                a[at]
            } else {
                0
            };
            let y = if at < b.len() {
                b[at]
            } else {
                0
            };
            let a_text = text::joined(a.map_values(|n: nat| text::decimal(n)), seq!['.']);
            let b_text = text::joined(b.map_values(|n: nat| text::decimal(n)), seq!['.']);
            &&& x > y ==> newer(a_text, b_text) && !newer(b_text, a_text)
            &&& x < y ==> newer(b_text, a_text) && !newer(a_text, b_text)
            &&& x == y && at + 1 >= a.len() && at + 1 >= b.len() ==> !newer(a_text, b_text)
                && !newer(b_text, a_text)
        }),
{
    assert(a.map_values(|n: nat| text::decimal(n)) =~= written(a));
    assert(b.map_values(|n: nat| text::decimal(n)) =~= written(b));
    lemma_dotted(a);
    lemma_dotted(b);
    lemma_release_order_of_numbers(a, b, at);
    lemma_release_order_mirrored(written(a), written(b));
}

/// Of two versions of three numbers each, the one with the greater first number is newer;
/// where those are the same, the one with the greater second; and where those are too, the
/// one with the greater third.
pub proof fn law_three_numbers_decide(x1: nat, y1: nat, z1: nat, x2: nat, y2: nat, z2: nat)
    ensures
        newer(
            text::decimal(x1) + "."@ + text::decimal(y1) + "."@ + text::decimal(z1),
            text::decimal(x2) + "."@ + text::decimal(y2) + "."@ + text::decimal(z2),
        ) <==> x1 > x2 || (x1 == x2 && y1 > y2) || (x1 == x2 && y1 == y2 && z1 > z2),
{
    reveal_strlit(".");
    assert("."@ =~= seq!['.']);
    let a = seq![x1, y1, z1];
    let b = seq![x2, y2, z2];
    lemma_three_joined(x1, y1, z1);
    lemma_three_joined(x2, y2, z2);
    let at: int = if x1 != x2 {
        0
    } else if y1 != y2 {
        1
    } else {
        2
    };
    law_first_different_number_decides(a, b, at);
}

proof fn lemma_three_joined(x: nat, y: nat, z: nat)
    ensures
        text::joined(seq![x, y, z].map_values(|n: nat| text::decimal(n)), seq!['.'])
            == text::decimal(x) + seq!['.'] + text::decimal(y) + seq!['.'] + text::decimal(z),
{
    let list = seq![x, y, z].map_values(|n: nat| text::decimal(n));
    let (a, b, c) = (text::decimal(x), text::decimal(y), text::decimal(z));
    assert(list =~= seq![a, b, c]);
    assert(list.drop_last() =~= seq![a, b]);
    assert(seq![a, b].drop_last() =~= seq![a]);
    reveal_with_fuel(text::joined, 4);
}

proof fn lemma_marked(release: Seq<char>, mark: Seq<char>)
    requires
        !release.contains('-'),
        !release.contains('+'),
        !mark.contains('+'),
    ensures
        release_parts(release + seq!['-'] + mark) == text::parts(release, '.'),
        pre_release_parts(release + seq!['-'] + mark) == Some(text::parts(mark, '.')),
{
    let marked = release + seq!['-'] + mark;
    marked.index_of_first_ensures('+');
    marked.index_of_first_ensures('-');
    assert(!marked.contains('+')) by {
        assert forall|i: int| 0 <= i < marked.len() implies marked[i] != '+' by {
            if i < release.len() {
                assert(marked[i] == release[i]);
            } else if i > release.len() {
                assert(marked[i] == mark[i - release.len() - 1]);
            }
        }
    }
    assert(marked[release.len() as int] == '-');
    assert(forall|i: int| 0 <= i < release.len() ==> marked[i] == release[i]);
    let at = marked.index_of_first('-')->Some_0;
    assert(at == release.len()) by {
        if at < release.len() {
            assert(release[at] == '-');
        }
    }
    assert(marked.take(at) =~= release);
    assert(marked.skip(at + 1) =~= mark);
}

/// The mark of a pre-release counts only between versions of one release: where the
/// releases are of different age, they decide.
pub proof fn law_releases_decide_before_marks(
    a: Seq<char>,
    b: Seq<char>,
    a_mark: Seq<char>,
    b_mark: Seq<char>,
)
    requires
        !a.contains('-'),
        !a.contains('+'),
        !b.contains('-'),
        !b.contains('+'),
        !a_mark.contains('+'),
        !b_mark.contains('+'),
        newer(a, b),
    ensures
        newer(a + seq!['-'] + a_mark, b + seq!['-'] + b_mark),
        newer(a + seq!['-'] + a_mark, b),
        newer(a, b + seq!['-'] + b_mark),
{
    lemma_plain_release(a);
    lemma_plain_release(b);
    lemma_marked(a, a_mark);
    lemma_marked(b, b_mark);
}

/// How a version was built makes no difference to its age.
pub proof fn law_build_makes_no_difference(a: Seq<char>, b: Seq<char>, build: Seq<char>)
    requires
        !a.contains('+'),
    ensures
        version_order(a + seq!['+'] + build, b) == version_order(a, b),
        version_order(b, a + seq!['+'] + build) == version_order(b, a),
{
    let built = a + seq!['+'] + build;
    a.index_of_first_ensures('+');
    built.index_of_first_ensures('+');
    assert(built[a.len() as int] == '+');
    assert(forall|i: int| 0 <= i < a.len() ==> built[i] == a[i]);
    let at = built.index_of_first('+')->Some_0;
    assert(at == a.len()) by {
        if at < a.len() {
            assert(a[at] == '+');
        }
    }
    assert(built.take(at) =~= a);
}

proof fn lemma_part_is_itself(part: Seq<char>)
    ensures
        part_order(part, part) is Same,
{
    lemma_text_order_mirrored(part, part);
}

/// Of two pre-releases of one release whose marks begin with the same parts, if any, the
/// next part decides. Numbers are compared as numbers and are older than any other text,
/// other texts are compared by their characters, and more parts are newer than fewer.
pub proof fn law_next_part_of_a_mark_decides(
    a: Seq<char>,
    b: Seq<char>,
    same: Seq<Seq<char>>,
    x: nat,
    y: nat,
    word: Seq<char>,
    other: Seq<char>,
)
    requires
        !a.contains('-'),
        !a.contains('+'),
        !b.contains('-'),
        !b.contains('+'),
        version_order(a, b) is Same,
        forall|i: int|
            0 <= i < same.len() ==> !(#[trigger] same[i]).contains('.') && !same[i].contains('+'),
        !word.contains('.'),
        !word.contains('+'),
        exists|i: int| 0 <= i < word.len() && !('0' <= #[trigger] word[i] <= '9'),
        !other.contains('.'),
        !other.contains('+'),
        exists|i: int| 0 <= i < other.len() && !('0' <= #[trigger] other[i] <= '9'),
    ensures
        ({
            let marked = |release: Seq<char>, part: Seq<char>|
                release + seq!['-'] + text::joined(same.push(part), seq!['.']);
            &&& newer(marked(a, text::decimal(x)), marked(b, text::decimal(y))) <==> x > y
            &&& newer(marked(a, word), marked(b, text::decimal(x)))
            &&& !newer(marked(a, text::decimal(x)), marked(b, word))
            &&& newer(marked(a, word), marked(b, other)) <==> text_order(word, other) is Newer
            &&& same.len() > 0 ==> {
                let common = b + seq!['-'] + text::joined(same, seq!['.']);
                newer(marked(a, word), common) && newer(marked(a, text::decimal(x)), common)
            }
        }),
{
    let x_text = text::decimal(x);
    let y_text = text::decimal(y);
    law_decimal_is_read_back(x);
    law_decimal_is_read_back(y);
    lemma_word_is_no_number(word);
    lemma_word_is_no_number(other);
    assert(written(seq![x, y])[0] == x_text && written(seq![x, y])[1] == y_text);
    lemma_written_has_no(seq![x, y], '.', 0);
    lemma_written_has_no(seq![x, y], '+', 0);
    lemma_written_has_no(seq![x, y], '.', 1);
    lemma_written_has_no(seq![x, y], '+', 1);
    lemma_plain_release(a);
    lemma_plain_release(b);
    lemma_longer_mark_parts(a, same, x_text);
    lemma_longer_mark_parts(a, same, word);
    lemma_longer_mark_parts(b, same, x_text);
    lemma_longer_mark_parts(b, same, y_text);
    lemma_longer_mark_parts(b, same, word);
    lemma_longer_mark_parts(b, same, other);
    lemma_after_same(same, x_text, y_text);
    lemma_after_same(same, word, x_text);
    lemma_after_same(same, x_text, word);
    lemma_after_same(same, word, other);
    if same.len() > 0 {
        lemma_mark_parts(b, same);
        lemma_one_part_more(same, word);
        lemma_one_part_more(same, x_text);
    }
}

proof fn lemma_one_part_more(same: Seq<Seq<char>>, part: Seq<char>)
    ensures
        parts_order(same.push(part), same) is Newer,
    decreases same.len(),
{
    if same.len() > 0 {
        lemma_part_is_itself(same.first());
        lemma_one_part_more(same.drop_first(), part);
        assert(same.push(part).drop_first() =~= same.drop_first().push(part));
    }
}

proof fn lemma_after_same(same: Seq<Seq<char>>, a: Seq<char>, b: Seq<char>)
    ensures
        parts_order(same.push(a), same.push(b)) == part_order(a, b),
    decreases same.len(),
{
    if same.len() > 0 {
        lemma_part_is_itself(same.first());
        lemma_after_same(same.drop_first(), a, b);
        assert(same.push(a).drop_first() =~= same.drop_first().push(a));
        assert(same.push(b).drop_first() =~= same.drop_first().push(b));
    } else {
        assert(same.push(a).drop_first() =~= Seq::empty());
        assert(same.push(b).drop_first() =~= Seq::empty());
        reveal_with_fuel(parts_order, 2);
    }
}

proof fn lemma_word_is_no_number(word: Seq<char>)
    requires
        exists|i: int| 0 <= i < word.len() && !('0' <= #[trigger] word[i] <= '9'),
    ensures
        !is_number(word),
    decreases word.len(),
{
    let i = choose|i: int| 0 <= i < word.len() && !('0' <= #[trigger] word[i] <= '9');
    lemma_leading_digits_short(word, i);
}

proof fn lemma_leading_digits_short(s: Seq<char>, at: int)
    requires
        0 <= at < s.len(),
        !is_digit(s[at]),
    ensures
        leading_digits(s).len() <= at,
    decreases at,
{
    if at > 0 && is_digit(s.first()) {
        lemma_leading_digits_short(s.drop_first(), at - 1);
    }
}

proof fn lemma_mark_parts(release: Seq<char>, list: Seq<Seq<char>>)
    requires
        !release.contains('-'),
        !release.contains('+'),
        list.len() > 0,
        forall|i: int|
            0 <= i < list.len() ==> !(#[trigger] list[i]).contains('.') && !list[i].contains('+'),
    ensures
        ({
            let marked = release + seq!['-'] + text::joined(list, seq!['.']);
            &&& release_parts(marked) == text::parts(release, '.')
            &&& pre_release_parts(marked) == Some(list)
        }),
{
    lemma_joined_has_no(list, '.', '+');
    lemma_marked(release, text::joined(list, seq!['.']));
    text::law_joined_texts_are_split(list, '.');
}

proof fn lemma_longer_mark_parts(release: Seq<char>, same: Seq<Seq<char>>, part: Seq<char>)
    requires
        !release.contains('-'),
        !release.contains('+'),
        forall|i: int|
            0 <= i < same.len() ==> !(#[trigger] same[i]).contains('.') && !same[i].contains('+'),
        !part.contains('.'),
        !part.contains('+'),
    ensures
        ({
            let marked = release + seq!['-'] + text::joined(same.push(part), seq!['.']);
            &&& release_parts(marked) == text::parts(release, '.')
            &&& pre_release_parts(marked) == Some(same.push(part))
        }),
{
    let list = same.push(part);
    assert forall|i: int| 0 <= i < list.len() implies !(#[trigger] list[i]).contains('.')
        && !list[i].contains('+') by {
        if i < same.len() {
            assert(list[i] == same[i]);
        }
    }
    lemma_mark_parts(release, list);
}

/// Of two texts that begin alike, the first character that differs decides, by its code
/// point, and a text is newer than what it begins with.
pub proof fn law_first_different_character_decides(
    same: Seq<char>,
    c: char,
    d: char,
    more: Seq<char>,
    other: Seq<char>,
)
    ensures
        text_order(same + seq![c] + more, same + seq![d] + other) is Newer <==> (c as u32 > d as u32
            || (c == d && text_order(more, other) is Newer)),
        text_order(same + seq![c] + more, same) is Newer,
        text_order(same, same) is Same,
    decreases same.len(),
{
    let a = same + seq![c] + more;
    let b = same + seq![d] + other;
    if same.len() > 0 {
        let rest = same.drop_first();
        law_first_different_character_decides(rest, c, d, more, other);
        assert(a.drop_first() =~= rest + seq![c] + more);
        assert(b.drop_first() =~= rest + seq![d] + other);
    } else {
        assert(a.drop_first() =~= more);
        assert(b.drop_first() =~= other);
    }
}

proof fn lemma_leading_zeros(zeros: Seq<char>, digits: Seq<char>)
    requires
        forall|i: int| 0 <= i < zeros.len() ==> #[trigger] zeros[i] == '0',
    ensures
        number(zeros + digits) == number(digits),
    decreases zeros.len() + digits.len(),
{
    let all = zeros + digits;
    if digits.len() > 0 {
        lemma_leading_zeros(zeros, digits.drop_last());
        assert(all.drop_last() =~= zeros + digits.drop_last());
    } else if zeros.len() > 0 {
        let fewer = zeros.drop_last();
        assert forall|i: int| 0 <= i < fewer.len() implies #[trigger] fewer[i] == '0' by {
            assert(zeros[i] == '0');
        }
        lemma_leading_zeros(fewer, digits);
        assert(all.drop_last() =~= fewer + digits);
        assert(all.last() == zeros[zeros.len() - 1]);
    } else {
        assert(all =~= digits);
    }
}

proof fn lemma_number_of_part(zeros: Seq<char>, n: nat, rest: Seq<char>)
    requires
        forall|i: int| 0 <= i < zeros.len() ==> #[trigger] zeros[i] == '0',
        rest.len() > 0 ==> !is_digit(rest[0]),
    ensures
        number(leading_digits(zeros + text::decimal(n) + rest)) == n,
        number(leading_digits(rest)) == 0,
{
    let digits = text::decimal(n);
    let part = zeros + digits + rest;
    let count = zeros.len() + digits.len();
    text::lemma_decimal_digits(n);
    assert forall|i: int| 0 <= i < count implies is_digit(#[trigger] part[i]) by {
        if i < zeros.len() {
            assert(part[i] == zeros[i]);
        } else {
            assert(part[i] == text::decimal(n)[i - zeros.len()]);
        }
    }
    if count < part.len() {
        assert(part[count as int] == rest[0]);
    }
    lemma_leading_digits(part, count as int);
    assert(part.take(count as int) =~= zeros + digits);
    lemma_leading_zeros(zeros, digits);
    law_decimal_is_read_back(n);
    lemma_leading_digits(rest, 0);
    assert(rest.take(0) =~= Seq::empty());
}

proof fn lemma_only_numbers_count(a: Seq<Seq<char>>, b: Seq<Seq<char>>, c: Seq<Seq<char>>)
    requires
        a.len() == b.len(),
        forall|i: int|
            0 <= i < a.len() ==> number(leading_digits(#[trigger] a[i])) == number(
                leading_digits(b[i]),
            ),
    ensures
        release_order(a, c) == release_order(b, c),
    decreases a.len() + c.len(),
{
    if a.len() > 0 {
        assert(number(leading_digits(a[0])) == number(leading_digits(b[0])));
        let a_rest = a.drop_first();
        let b_rest = b.drop_first();
        assert forall|i: int| 0 <= i < a_rest.len() implies number(
            leading_digits(#[trigger] a_rest[i]),
        ) == number(leading_digits(b_rest[i])) by {
            assert(number(leading_digits(a[i + 1])) == number(leading_digits(b[i + 1])));
        }
        lemma_only_numbers_count(a_rest, b_rest, rest(c));
    } else {
        assert(a =~= b);
    }
}

/// Of a part of a release only the number at its beginning counts. Zeros before it and text
/// behind it make no difference, and a part without a number counts as zero.
pub proof fn law_only_the_number_of_a_part_counts(
    numbers: Seq<nat>,
    zeros: Seq<Seq<char>>,
    behind: Seq<Seq<char>>,
    bare: Seq<bool>,
    other: Seq<char>,
)
    requires
        numbers.len() > 0,
        zeros.len() == numbers.len(),
        behind.len() == numbers.len(),
        bare.len() == numbers.len(),
        forall|i: int, k: int|
            0 <= i < zeros.len() && 0 <= k < zeros[i].len() ==> #[trigger] zeros[i][k] == '0',
        forall|i: int|
            0 <= i < behind.len() ==> !(#[trigger] behind[i]).contains('.') && !behind[i].contains(
                '-',
            ) && !behind[i].contains('+') && (behind[i].len() > 0 ==> !('0' <= behind[i][0]
                <= '9')),
        forall|i: int| 0 <= i < bare.len() && #[trigger] bare[i] ==> numbers[i] == 0,
    ensures
        ({
            let parts = Seq::new(
                numbers.len(),
                |i: int|
                    if bare[i] {
                        behind[i]
                    } else {
                        zeros[i] + text::decimal(numbers[i]) + behind[i]
                    },
            );
            let plain = text::joined(numbers.map_values(|n: nat| text::decimal(n)), seq!['.']);
            version_order(text::joined(parts, seq!['.']), other) == version_order(plain, other)
        }),
{
    let parts = Seq::new(
        numbers.len(),
        |i: int|
            if bare[i] {
                behind[i]
            } else {
                zeros[i] + text::decimal(numbers[i]) + behind[i]
            },
    );
    let whole = text::joined(parts, seq!['.']);
    assert(numbers.map_values(|n: nat| text::decimal(n)) =~= written(numbers));
    assert forall|i: int| 0 <= i < parts.len() implies !(#[trigger] parts[i]).contains('.')
        && !parts[i].contains('+') && !parts[i].contains('-') by {
        lemma_part_has_no(numbers, zeros[i], behind[i], i, '.');
        lemma_part_has_no(numbers, zeros[i], behind[i], i, '+');
        lemma_part_has_no(numbers, zeros[i], behind[i], i, '-');
    }
    lemma_joined_has_no(parts, '.', '+');
    lemma_joined_has_no(parts, '.', '-');
    lemma_plain_release(whole);
    text::law_joined_texts_are_split(parts, '.');
    lemma_dotted(numbers);
    assert forall|i: int| 0 <= i < parts.len() implies number(leading_digits(#[trigger] parts[i]))
        == number(leading_digits(written(numbers)[i])) by {
        lemma_number_of_part(zeros[i], numbers[i], behind[i]);
        law_decimal_is_read_back(numbers[i]);
        assert(written(numbers)[i] == text::decimal(numbers[i]));
        assert(bare[i] ==> numbers[i] == 0);
    }
    lemma_only_numbers_count(parts, written(numbers), release_parts(other));
}

proof fn lemma_part_has_no(
    numbers: Seq<nat>,
    zeros: Seq<char>,
    behind: Seq<char>,
    i: int,
    c: char,
)
    requires
        0 <= i < numbers.len(),
        !is_digit(c),
        forall|k: int| 0 <= k < zeros.len() ==> #[trigger] zeros[k] == '0',
        !behind.contains(c),
    ensures
        !(zeros + text::decimal(numbers[i]) + behind).contains(c),
{
    lemma_written_has_no(numbers, c, i);
    let digits = text::decimal(numbers[i]);
    assert(written(numbers)[i] == digits);
    let part = zeros + digits + behind;
    assert forall|k: int| 0 <= k < part.len() implies part[k] != c by {
        if k < zeros.len() {
            assert(part[k] == zeros[k]);
        } else if k < zeros.len() + digits.len() {
            assert(part[k] == digits[k - zeros.len()]);
        } else {
            assert(part[k] == behind[k - zeros.len() - digits.len()]);
        }
    }
}

} // verus!
