//! Text on the level of characters: each function here is stated over the sequence of characters
//! that a string holds.
use vstd::prelude::*;

verus! {

/// `String::push` appends the given character to the end of the string.
pub assume_specification[ String::push ](s: &mut String, c: char)
    ensures
        final(s)@ == old(s)@.push(c),
;

// ---- what the functions below compute -------------------------------------------------------

/// `a` stands before `b` in the order of strings: at the first character in which they differ,
/// `a` holds the smaller one, or `a` ends there.
pub open spec fn before(a: Seq<char>, b: Seq<char>) -> bool
    decreases a.len(),
{
    if b.len() == 0 {
        false
    } else if a.len() == 0 {
        true
    } else if a[0] != b[0] {
        a[0] < b[0]
    } else {
        before(a.drop_first(), b.drop_first())
    }
}

/// The UTF-8 encoding of a text.
pub open spec fn utf8(s: Seq<char>) -> Seq<u8> {
    vstd::utf8::encode_utf8(s)
}

/// `part` occurs somewhere in `whole`.
pub open spec fn occurs(part: Seq<char>, whole: Seq<char>) -> bool {
    exists|i: int| occurs_at(part, whole, i)
}

/// `part` stands in `whole` from position `i` on.
pub open spec fn occurs_at(part: Seq<char>, whole: Seq<char>, i: int) -> bool {
    0 <= i && i + part.len() <= whole.len() && whole.subrange(i, i + part.len()) == part
}

/// Where `part` occurs in `whole` for the first time, from position `i` on.
pub open spec fn first_occurrence(part: Seq<char>, whole: Seq<char>, i: int) -> Option<int>
    decreases whole.len() + 1 - i,
{
    if !(0 <= i <= whole.len()) {
        None
    } else if occurs_at(part, whole, i) {
        Some(i)
    } else {
        first_occurrence(part, whole, i + 1)
    }
}

/// The pieces of `s` between the occurrences of `c`; one more than there are occurrences.
pub open spec fn split(s: Seq<char>, c: char) -> Seq<Seq<char>>
    decreases s.len(),
{
    if s.len() == 0 {
        seq![Seq::empty()]
    } else {
        let head = split(s.drop_last(), c);
        if s.last() == c {
            head.push(Seq::empty())
        } else {
            head.drop_last().push(head.last().push(s.last()))
        }
    }
}

/// The pieces that hold at least one character, in order.
pub open spec fn nonempty(pieces: Seq<Seq<char>>) -> Seq<Seq<char>>
    decreases pieces.len(),
{
    if pieces.len() == 0 {
        Seq::empty()
    } else if pieces.last().len() > 0 {
        nonempty(pieces.drop_last()).push(pieces.last())
    } else {
        nonempty(pieces.drop_last())
    }
}

/// The pieces one after the other, with `sep` between them.
pub open spec fn joined(pieces: Seq<Seq<char>>, sep: Seq<char>) -> Seq<char>
    decreases pieces.len(),
{
    if pieces.len() == 0 {
        Seq::empty()
    } else if pieces.len() == 1 {
        pieces[0]
    } else {
        joined(pieces.drop_last(), sep) + sep + pieces.last()
    }
}

/// `s` without the occurrences of the nonempty `tail` that end it.
pub open spec fn trimmed_end(s: Seq<char>, tail: Seq<char>) -> Seq<char>
    decreases s.len(),
{
    if tail.len() > 0 && tail.is_suffix_of(s) {
        trimmed_end(s.take(s.len() - tail.len()), tail)
    } else {
        s
    }
}

/// The characters that Unicode counts as white space.
pub open spec fn white(c: char) -> bool {
    ||| '\u{9}' <= c <= '\u{d}'
    ||| c == ' '
    ||| c == '\u{85}'
    ||| c == '\u{a0}'
    ||| c == '\u{1680}'
    ||| '\u{2000}' <= c <= '\u{200a}'
    ||| c == '\u{2028}'
    ||| c == '\u{2029}'
    ||| c == '\u{202f}'
    ||| c == '\u{205f}'
    ||| c == '\u{3000}'
}

/// `s` without the white space that starts it.
pub open spec fn trimmed_left(s: Seq<char>) -> Seq<char>
    decreases s.len(),
{
    if s.len() > 0 && white(s[0]) {
        trimmed_left(s.drop_first())
    } else {
        s
    }
}

/// `s` without the white space that ends it.
pub open spec fn trimmed_right(s: Seq<char>) -> Seq<char>
    decreases s.len(),
{
    if s.len() > 0 && white(s.last()) {
        trimmed_right(s.drop_last())
    } else {
        s
    }
}

/// `s` without white space at either end.
pub open spec fn trimmed(s: Seq<char>) -> Seq<char> {
    trimmed_right(trimmed_left(s))
}

/// An ASCII capital letter becomes its small letter; every other character stays.
pub open spec fn lower_char(c: char) -> char {
    if 'A' <= c <= 'Z' {
        ((c as u32) + 32) as char
    } else {
        c
    }
}

/// An ASCII small letter becomes its capital letter; every other character stays.
pub open spec fn upper_char(c: char) -> char {
    if 'a' <= c <= 'z' {
        ((c as u32) - 32) as char
    } else {
        c
    }
}

pub open spec fn lower(s: Seq<char>) -> Seq<char> {
    s.map_values(|c: char| lower_char(c))
}

pub open spec fn upper(s: Seq<char>) -> Seq<char> {
    s.map_values(|c: char| upper_char(c))
}

pub open spec fn is_digit(c: char) -> bool {
    '0' <= c <= '9'
}

pub open spec fn is_letter(c: char) -> bool {
    'a' <= c <= 'z' || 'A' <= c <= 'Z'
}

pub open spec fn all_digits(s: Seq<char>) -> bool {
    forall|i: int| 0 <= i < s.len() ==> is_digit(#[trigger] s[i])
}

/// `s` with every `c` replaced by `with`.
pub open spec fn replaced(s: Seq<char>, c: char, with: Seq<char>) -> Seq<char>
    decreases s.len(),
{
    if s.len() == 0 {
        s
    } else if s.last() == c {
        replaced(s.drop_last(), c, with) + with
    } else {
        replaced(s.drop_last(), c, with).push(s.last())
    }
}

pub open spec fn digit_char(d: int) -> char {
    (48 + d) as u32 as char
}

/// A number in decimal notation, without leading zeros.
pub open spec fn decimal(n: nat) -> Seq<char>
    decreases n,
{
    if n < 10 {
        seq![digit_char(n as int)]
    } else {
        decimal(n / 10).push(digit_char((n % 10) as int))
    }
}

/// A number in decimal notation, with a minus sign where it is negative.
pub open spec fn signed_decimal(n: int) -> Seq<char> {
    if n < 0 {
        "-"@ + decimal((-n) as nat)
    } else {
        decimal(n as nat)
    }
}

/// The number that a row of decimal digits stands for.
pub open spec fn digits_value(s: Seq<char>) -> nat
    decreases s.len(),
{
    if s.len() == 0 {
        0
    } else {
        digits_value(s.drop_last()) * 10 + ((s.last() as u32) - 48) as nat
    }
}

/// `s` without one leading plus sign.
pub open spec fn unsigned(s: Seq<char>) -> Seq<char> {
    if s.len() > 0 && s[0] == '+' {
        s.drop_first()
    } else {
        s
    }
}

/// The number that `s` reads as: at least one digit and nothing else behind an optional plus
/// sign, with a value of at most `max`.
pub open spec fn number(s: Seq<char>, max: nat) -> Option<nat> {
    let d = unsigned(s);
    if d.len() > 0 && all_digits(d) && digits_value(d) <= max {
        Some(digits_value(d))
    } else {
        None
    }
}

/// Where `c` stands in `s` for the first time, or the length of `s`.
pub open spec fn first_of(s: Seq<char>, c: char) -> int
    decreases s.len(),
{
    if s.len() == 0 || s[0] == c {
        0
    } else {
        1 + first_of(s.drop_first(), c)
    }
}

/// Where `c` stands in `s` for the last time, or -1.
pub open spec fn last_of(s: Seq<char>, c: char) -> int
    decreases s.len(),
{
    if s.len() == 0 {
        -1
    } else if s.last() == c {
        s.len() - 1
    } else {
        last_of(s.drop_last(), c)
    }
}

// ---- the functions ----------------------------------------------------------------------------

/// The characters of a string, in order.
pub fn chars_of(s: &str) -> (r: Vec<char>)
    ensures
        r@ == s@,
{
    let mut out: Vec<char> = Vec::new();
    for c in it: s.chars()
        invariant
            out@ == s@.take(it.index() as int),
            it.seq() == s@,
    {
        out.push(c);
        assert(s@.take(it.index() + 1) =~= s@.take(it.index() as int).push(c));
    }
    assert(s@.take(s@.len() as int) =~= s@);
    out
}

/// The string that holds the characters from `from` up to `to`.
pub fn string_of(chars: &Vec<char>, from: usize, to: usize) -> (r: String)
    requires
        from <= to <= chars@.len(),
    ensures
        r@ == chars@.subrange(from as int, to as int),
{
    let mut out = String::new();
    let mut i: usize = from;
    while i < to
        invariant
            from <= i <= to <= chars@.len(),
            out@ == chars@.subrange(from as int, i as int),
        decreases to - i,
    {
        out.push(chars[i]);
        assert(chars@.subrange(from as int, i + 1) =~= chars@.subrange(from as int, i as int).push(
            chars@[i as int],
        ));
        i = i + 1;
    }
    out
}

/// Whether two strings hold the same characters.
pub fn same(a: &str, b: &str) -> (r: bool)
    ensures
        r == (a@ == b@),
{
    let x = chars_of(a);
    let y = chars_of(b);
    if x.len() != y.len() {
        return false;
    }
    let mut i: usize = 0;
    while i < x.len()
        invariant
            x@ == a@,
            y@ == b@,
            x@.len() == y@.len(),
            i <= x@.len(),
            forall|j: int| 0 <= j < i ==> a@[j] == b@[j],
        decreases x.len() - i,
    {
        if x[i] != y[i] {
            return false;
        }
        i = i + 1;
    }
    assert(a@ =~= b@);
    true
}

/// Whether `a` stands before `b` in the order of strings.
pub fn is_before(a: &str, b: &str) -> (r: bool)
    ensures
        r == before(a@, b@),
{
    let x = chars_of(a);
    let y = chars_of(b);
    let mut i: usize = 0;
    assert(a@.skip(0) =~= a@ && b@.skip(0) =~= b@);
    while i < x.len() && i < y.len()
        invariant_except_break
            x@ == a@,
            y@ == b@,
            i <= x@.len(),
            i <= y@.len(),
            before(a@, b@) == before(a@.skip(i as int), b@.skip(i as int)),
        ensures
            x@ == a@,
            y@ == b@,
            i <= x@.len(),
            i <= y@.len(),
            before(a@, b@) == before(a@.skip(i as int), b@.skip(i as int)),
            i == x@.len() || i == y@.len() || x@[i as int] != y@[i as int],
        decreases x.len() - i,
    {
        assert(a@.skip(i as int)[0] == x@[i as int]);
        assert(b@.skip(i as int)[0] == y@[i as int]);
        if x[i] != y[i] {
            break;
        }
        assert(a@.skip(i as int).drop_first() =~= a@.skip(i + 1));
        assert(b@.skip(i as int).drop_first() =~= b@.skip(i + 1));
        i = i + 1;
    }
    if i == y.len() {
        false
    } else if i == x.len() {
        true
    } else {
        assert(a@.skip(i as int)[0] == x@[i as int]);
        assert(b@.skip(i as int)[0] == y@[i as int]);
        x[i] < y[i]
    }
}

/// Whether `part` stands in `whole` from position `at` on.
pub fn stands_at(part: &Vec<char>, whole: &Vec<char>, at: usize) -> (r: bool)
    ensures
        r == occurs_at(part@, whole@, at as int),
{
    if at > whole.len() || part.len() > whole.len() - at {
        return false;
    }
    let end: usize = at + part.len();
    let mut i: usize = 0;
    while i < part.len()
        invariant
            at + part@.len() == end,
            end <= whole@.len(),
            i <= part@.len(),
            forall|j: int| 0 <= j < i ==> part@[j] == whole@[at + j],
        decreases part.len() - i,
    {
        if part[i] != whole[at + i] {
            assert(whole@.subrange(at as int, at + part@.len())[i as int] != part@[i as int]);
            return false;
        }
        i = i + 1;
    }
    assert(whole@.subrange(at as int, at + part@.len()) =~= part@);
    true
}

/// Whether `s` starts with `head`.
pub fn starts_with(s: &str, head: &str) -> (r: bool)
    ensures
        r == head@.is_prefix_of(s@),
{
    stands_at(&chars_of(head), &chars_of(s), 0)
}

/// Whether `s` ends with `tail`.
pub fn ends_with(s: &str, tail: &str) -> (r: bool)
    ensures
        r == tail@.is_suffix_of(s@),
{
    let whole = chars_of(s);
    let part = chars_of(tail);
    if part.len() > whole.len() {
        return false;
    }
    stands_at(&part, &whole, whole.len() - part.len())
}

/// What follows `head` in `s`, where `s` starts with it.
pub fn strip_prefix(s: &str, head: &str) -> (r: Option<String>)
    ensures
        r.deep_view() == (if head@.is_prefix_of(s@) {
            Some(s@.skip(head@.len() as int))
        } else {
            None
        }),
{
    let whole = chars_of(s);
    let part = chars_of(head);
    if stands_at(&part, &whole, 0) {
        Some(string_of(&whole, part.len(), whole.len()))
    } else {
        None
    }
}

/// What precedes `tail` in `s`, where `s` ends with it.
pub fn strip_suffix(s: &str, tail: &str) -> (r: Option<String>)
    ensures
        r.deep_view() == (if tail@.is_suffix_of(s@) {
            Some(s@.take(s@.len() - tail@.len()))
        } else {
            None
        }),
{
    let whole = chars_of(s);
    let part = chars_of(tail);
    if part.len() <= whole.len() && stands_at(&part, &whole, whole.len() - part.len()) {
        Some(string_of(&whole, 0, whole.len() - part.len()))
    } else {
        None
    }
}

/// Whether `c` is one of the characters of `s`.
pub fn has_char(s: &str, c: char) -> (r: bool)
    ensures
        r == s@.contains(c),
{
    let x = chars_of(s);
    let mut i: usize = 0;
    while i < x.len()
        invariant
            x@ == s@,
            i <= x@.len(),
            forall|j: int| 0 <= j < i ==> s@[j] != c,
        decreases x.len() - i,
    {
        if x[i] == c {
            assert(s@[i as int] == c);
            return true;
        }
        i = i + 1;
    }
    false
}

/// Whether `part` occurs in `s`.
pub fn has_text(s: &str, part: &str) -> (r: bool)
    ensures
        r == occurs(part@, s@),
{
    let x = chars_of(s);
    let p = chars_of(part);
    let mut i: usize = 0;
    while i < x.len()
        invariant
            x@ == s@,
            p@ == part@,
            i <= x@.len(),
            forall|j: int| 0 <= j < i ==> !occurs_at(part@, s@, j),
        decreases x.len() - i,
    {
        if stands_at(&p, &x, i) {
            return true;
        }
        i = i + 1;
    }
    let r = stands_at(&p, &x, i);
    assert(forall|j: int| occurs_at(part@, s@, j) ==> j <= i);
    r
}

/// Where `part` stands in the characters for the first time.
pub fn find_text(whole: &Vec<char>, part: &Vec<char>) -> (r: Option<usize>)
    ensures
        match r {
            Some(i) => first_occurrence(part@, whole@, 0) == Some(i as int) && i + part@.len()
                <= whole@.len(),
            None => first_occurrence(part@, whole@, 0) is None,
        },
{
    let mut i: usize = 0;
    while i < whole.len()
        invariant
            i <= whole@.len(),
            first_occurrence(part@, whole@, 0) == first_occurrence(part@, whole@, i as int),
        decreases whole.len() - i,
    {
        if stands_at(part, whole, i) {
            return Some(i);
        }
        i = i + 1;
    }
    if stands_at(part, whole, i) {
        Some(i)
    } else {
        assert(first_occurrence(part@, whole@, i + 1) is None);
        None
    }
}

/// The pieces of `s` between the occurrences of `c`.
pub fn split_on(s: &str, c: char) -> (r: Vec<String>)
    ensures
        r.deep_view() == split(s@, c),
{
    let x = chars_of(s);
    let mut out: Vec<String> = Vec::new();
    let mut start: usize = 0;
    let mut i: usize = 0;
    assert(out.deep_view().push(s@.subrange(0, 0)) =~~= split(s@.take(0), c));
    while i < x.len()
        invariant
            x@ == s@,
            start <= i <= x@.len(),
            split(s@.take(i as int), c) == out.deep_view().push(s@.subrange(start as int, i as int)),
        decreases x.len() - i,
    {
        proof {
            assert(s@.take(i + 1).drop_last() =~= s@.take(i as int));
            assert(s@.subrange(start as int, i + 1) =~= s@.subrange(start as int, i as int).push(
                s@[i as int],
            ));
            assert(out.deep_view().push(s@.subrange(start as int, i as int)).drop_last()
                =~= out.deep_view());
        }
        if x[i] == c {
            let ghost prior = out.deep_view();
            out.push(string_of(&x, start, i));
            start = i + 1;
            proof {
                assert(out.deep_view() =~= prior.push(out@.last().deep_view()));
                assert(s@.subrange(start as int, i + 1) =~= Seq::<char>::empty());
            }
        }
        i = i + 1;
    }
    let ghost prior = out.deep_view();
    out.push(string_of(&x, start, x.len()));
    proof {
        assert(out.deep_view() =~= prior.push(out@.last().deep_view()));
        assert(s@.take(s@.len() as int) =~= s@);
    }
    out
}

/// Splitting always yields at least one piece.
pub proof fn split_nonempty(s: Seq<char>, c: char)
    ensures
        split(s, c).len() >= 1,
    decreases s.len(),
{
    if s.len() > 0 {
        split_nonempty(s.drop_last(), c);
    }
}

/// The pieces of a list that hold at least one character, in order.
pub fn keep_nonempty(pieces: Vec<String>) -> (r: Vec<String>)
    ensures
        r.deep_view() == nonempty(pieces.deep_view()),
{
    let mut out: Vec<String> = Vec::new();
    let mut i: usize = 0;
    while i < pieces.len()
        invariant
            i <= pieces@.len(),
            out.deep_view() == nonempty(pieces.deep_view().take(i as int)),
        decreases pieces.len() - i,
    {
        assert(pieces.deep_view().take(i + 1).drop_last() =~= pieces.deep_view().take(i as int));
        if !pieces[i].as_str().is_empty() {
            let ghost prior = out.deep_view();
            out.push(pieces[i].clone());
            assert(out.deep_view() =~= prior.push(pieces.deep_view()[i as int]));
        }
        i = i + 1;
    }
    assert(pieces.deep_view().take(i as int) =~= pieces.deep_view());
    out
}

/// The pieces one after the other, with `sep` between them.
pub fn join(pieces: &Vec<String>, sep: &str) -> (r: String)
    ensures
        r@ == joined(pieces.deep_view(), sep@),
{
    let mut out = String::new();
    let mut i: usize = 0;
    while i < pieces.len()
        invariant
            i <= pieces@.len(),
            out@ == joined(pieces.deep_view().take(i as int), sep@),
        decreases pieces.len() - i,
    {
        assert(pieces.deep_view().take(i + 1).drop_last() =~= pieces.deep_view().take(i as int));
        if i > 0 {
            out.append(sep);
        }
        out.append(pieces[i].as_str());
        assert(out@ =~= joined(pieces.deep_view().take(i + 1), sep@));
        i = i + 1;
    }
    assert(pieces.deep_view().take(i as int) =~= pieces.deep_view());
    out
}

/// `s` without the occurrences of `tail` that end it.
pub fn trim_end(s: &str, tail: &str) -> (r: String)
    requires
        tail@.len() > 0,
    ensures
        r@ == trimmed_end(s@, tail@),
{
    let x = chars_of(s);
    let t = chars_of(tail);
    let mut end: usize = x.len();
    assert(s@.take(s@.len() as int) =~= s@);
    while end >= t.len() && stands_at(&t, &x, end - t.len())
        invariant
            x@ == s@,
            t@ == tail@,
            t@.len() > 0,
            end <= x@.len(),
            trimmed_end(s@, tail@) == trimmed_end(s@.take(end as int), tail@),
        decreases end,
    {
        proof {
            let cut = s@.take(end as int);
            assert(s@.subrange(end - tail@.len(), end as int) =~= cut.subrange(
                cut.len() - tail@.len(),
                cut.len() as int,
            ));
            assert(cut.take(cut.len() - tail@.len()) =~= s@.take(end - tail@.len()));
        }
        end = end - t.len();
    }
    proof {
        let cut = s@.take(end as int);
        if tail@.is_suffix_of(cut) {
            assert(s@.subrange(end - tail@.len(), end as int) =~= cut.subrange(
                cut.len() - tail@.len(),
                cut.len() as int,
            ));
        }
        assert(cut =~= s@.subrange(0, end as int));
    }
    string_of(&x, 0, end)
}

/// Whether Unicode counts the character as white space.
pub fn is_white(c: char) -> (r: bool)
    ensures
        r == white(c),
{
    ('\u{9}' <= c && c <= '\u{d}') || c == ' ' || c == '\u{85}' || c == '\u{a0}' || c == '\u{1680}'
        || ('\u{2000}' <= c && c <= '\u{200a}') || c == '\u{2028}' || c == '\u{2029}' || c
        == '\u{202f}' || c == '\u{205f}' || c == '\u{3000}'
}

/// `s` without white space at either end.
pub fn trim(s: &str) -> (r: String)
    ensures
        r@ == trimmed(s@),
{
    let x = chars_of(s);
    let mut from: usize = 0;
    assert(s@.skip(0) =~= s@);
    while from < x.len() && is_white(x[from])
        invariant
            x@ == s@,
            from <= x@.len(),
            trimmed_left(s@) == trimmed_left(s@.skip(from as int)),
        decreases x.len() - from,
    {
        assert(s@.skip(from as int).drop_first() =~= s@.skip(from + 1));
        from = from + 1;
    }
    let ghost left = s@.skip(from as int);
    assert(trimmed_left(s@) == left);
    let mut to: usize = x.len();
    assert(s@.subrange(from as int, to as int) =~= left);
    while from < to && is_white(x[to - 1])
        invariant
            x@ == s@,
            from <= to <= x@.len(),
            trimmed_right(left) == trimmed_right(s@.subrange(from as int, to as int)),
        decreases to,
    {
        assert(s@.subrange(from as int, to as int).drop_last() =~= s@.subrange(
            from as int,
            to - 1,
        ));
        to = to - 1;
    }
    string_of(&x, from, to)
}

pub fn to_lower_char(c: char) -> (r: char)
    ensures
        r == lower_char(c),
{
    if 'A' <= c && c <= 'Z' {
        ((c as u8) + 32) as char
    } else {
        c
    }
}

pub fn to_upper_char(c: char) -> (r: char)
    ensures
        r == upper_char(c),
{
    if 'a' <= c && c <= 'z' {
        ((c as u8) - 32) as char
    } else {
        c
    }
}

/// `s` with every ASCII capital letter made small.
pub fn to_lower(s: &str) -> (r: String)
    ensures
        r@ == lower(s@),
{
    let x = chars_of(s);
    let mut out = String::new();
    let mut i: usize = 0;
    while i < x.len()
        invariant
            x@ == s@,
            i <= x@.len(),
            out@ == lower(s@.take(i as int)),
        decreases x.len() - i,
    {
        out.push(to_lower_char(x[i]));
        i = i + 1;
        assert(out@ =~= lower(s@.take(i as int)));
    }
    assert(s@.take(i as int) =~= s@);
    out
}

/// `s` with every ASCII small letter made capital.
pub fn to_upper(s: &str) -> (r: String)
    ensures
        r@ == upper(s@),
{
    let x = chars_of(s);
    let mut out = String::new();
    let mut i: usize = 0;
    while i < x.len()
        invariant
            x@ == s@,
            i <= x@.len(),
            out@ == upper(s@.take(i as int)),
        decreases x.len() - i,
    {
        out.push(to_upper_char(x[i]));
        i = i + 1;
        assert(out@ =~= upper(s@.take(i as int)));
    }
    assert(s@.take(i as int) =~= s@);
    out
}

/// `s` with every `c` replaced by `with`.
pub fn replace(s: &str, c: char, with: &str) -> (r: String)
    ensures
        r@ == replaced(s@, c, with@),
{
    let x = chars_of(s);
    let mut out = String::new();
    let mut i: usize = 0;
    while i < x.len()
        invariant
            x@ == s@,
            i <= x@.len(),
            out@ == replaced(s@.take(i as int), c, with@),
        decreases x.len() - i,
    {
        assert(s@.take(i + 1).drop_last() =~= s@.take(i as int));
        if x[i] == c {
            out.append(with);
        } else {
            out.push(x[i]);
        }
        i = i + 1;
    }
    assert(s@.take(i as int) =~= s@);
    out
}

/// A number in decimal notation.
pub fn decimal_text(n: u64) -> (r: String)
    ensures
        r@ == decimal(n as nat),
    decreases n,
{
    let digit: u8 = 48 + (n % 10) as u8;
    if n < 10 {
        let mut out = String::new();
        out.push(digit as char);
        assert(out@ =~= decimal(n as nat));
        out
    } else {
        let mut out = decimal_text(n / 10);
        out.push(digit as char);
        out
    }
}

/// A number in decimal notation, with a minus sign where it is negative.
pub fn signed_text(n: i64) -> (r: String)
    ensures
        r@ == signed_decimal(n as int),
{
    if n < 0 {
        let size: u64 = (-(n + 1)) as u64 + 1;
        let mut out = "-".to_owned();
        out.append(decimal_text(size).as_str());
        out
    } else {
        decimal_text(n as u64)
    }
}

/// The number that `s` reads as, where it is one of at most `max`.
pub fn parse_number(s: &str, max: u64) -> (r: Option<u64>)
    ensures
        match r {
            Some(n) => number(s@, max as nat) == Some(n as nat),
            None => number(s@, max as nat) is None,
        },
{
    let x = chars_of(s);
    let start: usize = if x.len() > 0 && x[0] == '+' {
        1
    } else {
        0
    };
    let ghost d = unsigned(s@);
    assert(d =~= s@.skip(start as int));
    if start == x.len() {
        return None;
    }
    let mut value: u64 = 0;
    let mut over = false;
    let mut i: usize = start;
    while i < x.len()
        invariant
            x@ == s@,
            start <= i <= x@.len(),
            d == s@.skip(start as int),
            d == unsigned(s@),
            all_digits(d.take(i - start)),
            over ==> digits_value(d.take(i - start)) > max,
            !over ==> value == digits_value(d.take(i - start)) && value <= max,
        decreases x.len() - i,
    {
        let c = x[i];
        proof {
            assert(d.take(i + 1 - start).drop_last() =~= d.take(i - start));
            assert(d.take(i + 1 - start).last() == c);
        }
        if !('0' <= c && c <= '9') {
            assert(!is_digit(d[i - start]));
            return None;
        }
        let v: u64 = ((c as u32) - 48) as u64;
        assert(digits_value(d.take(i + 1 - start)) == digits_value(d.take(i - start)) * 10 + v);
        if !over {
            if v > max || value > (max - v) / 10 {
                over = true;
            } else {
                value = value * 10 + v;
            }
        }
        i = i + 1;
    }
    assert(d.take(i - start) =~= d);
    if over {
        None
    } else {
        Some(value)
    }
}

/// Where `c` stands in the characters for the first time, or their number.
pub fn find_char(x: &Vec<char>, c: char) -> (r: usize)
    ensures
        r == first_of(x@, c),
        r <= x@.len(),
        r < x@.len() ==> x@[r as int] == c,
        forall|j: int| 0 <= j < r ==> x@[j] != c,
{
    let mut i: usize = 0;
    assert(x@.skip(0) =~= x@);
    while i < x.len() && x[i] != c
        invariant
            i <= x@.len(),
            first_of(x@, c) == i + first_of(x@.skip(i as int), c),
            forall|j: int| 0 <= j < i ==> x@[j] != c,
        decreases x.len() - i,
    {
        assert(x@.skip(i as int).drop_first() =~= x@.skip(i + 1));
        i = i + 1;
    }
    i
}

/// Where `c` stands in the characters for the last time.
pub fn find_last_char(x: &Vec<char>, c: char) -> (r: Option<usize>)
    ensures
        match r {
            Some(i) => i == last_of(x@, c) && i < x@.len() && x@[i as int] == c,
            None => last_of(x@, c) == -1 && !x@.contains(c),
        },
{
    let mut i: usize = x.len();
    assert(x@.take(i as int) =~= x@);
    while i > 0
        invariant
            i <= x@.len(),
            last_of(x@, c) == last_of(x@.take(i as int), c),
            forall|j: int| i <= j < x@.len() ==> x@[j] != c,
        decreases i,
    {
        if x[i - 1] == c {
            return Some(i - 1);
        }
        assert(x@.take(i as int).drop_last() =~= x@.take(i - 1));
        i = i - 1;
    }
    None
}

// ---- the order of strings ---------------------------------------------------------------------

/// No text stands before itself.
pub proof fn before_is_irreflexive(a: Seq<char>)
    ensures
        !before(a, a),
    decreases a.len(),
{
    if a.len() > 0 {
        before_is_irreflexive(a.drop_first());
    }
}

/// What stands before a text stands before everything that the text stands before.
pub proof fn before_is_transitive(a: Seq<char>, b: Seq<char>, c: Seq<char>)
    requires
        before(a, b),
        before(b, c),
    ensures
        before(a, c),
    decreases a.len(),
{
    if a.len() > 0 && b.len() > 0 && c.len() > 0 && a[0] == b[0] && b[0] == c[0] {
        before_is_transitive(a.drop_first(), b.drop_first(), c.drop_first());
    }
}

/// Of two different texts, one stands before the other.
pub proof fn before_is_total(a: Seq<char>, b: Seq<char>)
    ensures
        a == b || before(a, b) || before(b, a),
    decreases a.len(),
{
    if a.len() == 0 && b.len() == 0 {
        assert(a =~= b);
    } else if a.len() > 0 && b.len() > 0 && a[0] == b[0] {
        before_is_total(a.drop_first(), b.drop_first());
        if a.drop_first() == b.drop_first() {
            assert(a =~= seq![a[0]] + a.drop_first());
            assert(b =~= seq![b[0]] + b.drop_first());
        }
    }
}

/// The order of texts is strict, and of two different texts one stands before the other: all that
/// sorting by a text needs.
pub proof fn text_order_is_strict()
    ensures
        forall|a: Seq<char>| !#[trigger] before(a, a),
        forall|a: Seq<char>, b: Seq<char>, c: Seq<char>|
            #[trigger] before(a, b) && #[trigger] before(b, c) ==> before(a, c),
        forall|a: Seq<char>, b: Seq<char>, c: Seq<char>|
            !#[trigger] before(a, b) && !#[trigger] before(b, c) ==> !before(a, c),
        forall|a: Seq<char>, b: Seq<char>| a == b || #[trigger] before(a, b) || before(b, a),
{
    assert forall|a: Seq<char>| !#[trigger] before(a, a) by {
        before_is_irreflexive(a);
    }
    assert forall|a: Seq<char>, b: Seq<char>, c: Seq<char>|
        #[trigger] before(a, b) && #[trigger] before(b, c) implies before(a, c) by {
        before_is_transitive(a, b, c);
    }
    assert forall|a: Seq<char>, b: Seq<char>| a == b || #[trigger] before(a, b) || before(b, a) by {
        before_is_total(a, b);
    }
    assert forall|a: Seq<char>, b: Seq<char>, c: Seq<char>|
        !#[trigger] before(a, b) && !#[trigger] before(b, c) implies !before(a, c) by {
        assert(a == b || before(b, a));
        assert(b == c || before(c, b));
    }
}

// ---- splitting and numbers --------------------------------------------------------------------

/// A text without the separator is one piece.
pub proof fn split_without_separator(s: Seq<char>, c: char)
    requires
        !s.contains(c),
    ensures
        split(s, c) == seq![s],
    decreases s.len(),
{
    if s.len() > 0 {
        let head = s.drop_last();
        assert(s[s.len() - 1] == s.last());
        assert forall|i: int| 0 <= i < head.len() implies head[i] != c by {
            assert(s[i] != c);
        }
        split_without_separator(head, c);
        assert(head.push(s.last()) =~= s);
        assert(split(s, c) =~= seq![s]);
    } else {
        assert(s =~= Seq::empty());
    }
}

/// What stands before the first separator is the first piece.
pub proof fn split_at_separator(a: Seq<char>, c: char, b: Seq<char>)
    requires
        !a.contains(c),
    ensures
        split(a.push(c) + b, c) == seq![a] + split(b, c),
    decreases b.len(),
{
    let s = a.push(c) + b;
    if b.len() == 0 {
        assert(s =~= a.push(c));
        assert(s.drop_last() =~= a);
        split_without_separator(a, c);
        assert(split(b, c) =~= seq![Seq::<char>::empty()]);
        assert(split(s, c) =~= seq![a] + split(b, c));
    } else {
        let head = b.drop_last();
        assert(s.drop_last() =~= a.push(c) + head);
        split_at_separator(a, c, head);
        split_nonempty(head, c);
        let before = seq![a] + split(head, c);
        assert(before.last() == split(head, c).last());
        assert(before.drop_last() =~= seq![a] + split(head, c).drop_last());
        assert(s.last() == b.last());
        assert(split(s, c) =~= seq![a] + split(b, c));
    }
}

/// Joining the pieces with the separator gives the text again.
pub proof fn joining_undoes_splitting(s: Seq<char>, c: char)
    ensures
        joined(split(s, c), seq![c]) == s,
    decreases s.len(),
{
    if s.len() > 0 {
        let head = s.drop_last();
        let pieces = split(head, c);
        joining_undoes_splitting(head, c);
        split_nonempty(head, c);
        if s.last() == c {
            assert(pieces.push(Seq::empty()).drop_last() =~= pieces);
            assert(joined(split(s, c), seq![c]) =~= s);
        } else {
            let last = pieces.last().push(s.last());
            let now = pieces.drop_last().push(last);
            assert(now.drop_last() =~= pieces.drop_last());
            if pieces.len() == 1 {
                assert(pieces[0] == pieces.last() && now[0] == last);
            }
            assert(joined(now, seq![c]) =~= joined(pieces, seq![c]).push(s.last()));
            assert(head.push(s.last()) =~= s);
        }
    } else {
        assert(s =~= Seq::empty());
    }
}

/// A number in decimal notation is a row of digits that stands for it.
pub proof fn decimal_reads_back(n: nat, max: nat)
    requires
        n <= max,
    ensures
        decimal(n).len() > 0,
        all_digits(decimal(n)),
        digits_value(decimal(n)) == n,
        number(decimal(n), max) == Some(n),
        !decimal(n).contains('.'),
    decreases n,
{
    let d = decimal(n);
    if n >= 10 {
        decimal_reads_back(n / 10, max);
        let head = decimal(n / 10);
        assert(d.drop_last() =~= head);
        assert forall|i: int| 0 <= i < d.len() implies is_digit(#[trigger] d[i]) by {
            if i < head.len() {
                assert(is_digit(head[i]));
            }
        }
    } else {
        assert(d.drop_last() =~= Seq::empty());
        assert(digits_value(d.drop_last()) == 0);
    }
    assert(is_digit(d[0]));
    assert(unsigned(d) == d);
    assert forall|i: int| 0 <= i < d.len() implies d[i] != '.' by {
        assert(is_digit(d[i]));
    }
}

// ---- trimming and changing text ---------------------------------------------------------------

pub open spec fn all_white(s: Seq<char>) -> bool {
    forall|i: int| 0 <= i < s.len() ==> white(#[trigger] s[i])
}

/// Trimming takes the white space off both ends, and nothing else.
pub proof fn trimming_takes_white_space_off(lead: Seq<char>, text: Seq<char>, trail: Seq<char>)
    requires
        all_white(lead),
        all_white(trail),
        text.len() > 0,
        !white(text[0]),
        !white(text.last()),
    ensures
        trimmed(lead + text + trail) == text,
{
    trimming_left(lead, text + trail);
    assert(lead + text + trail =~= lead + (text + trail));
    trimming_right(text, trail);
}

proof fn trimming_left(lead: Seq<char>, rest: Seq<char>)
    requires
        all_white(lead),
        rest.len() > 0,
        !white(rest[0]),
    ensures
        trimmed_left(lead + rest) == rest,
    decreases lead.len(),
{
    let all = lead + rest;
    if lead.len() > 0 {
        assert(all[0] == lead[0]);
        assert(all.drop_first() =~= lead.drop_first() + rest);
        trimming_left(lead.drop_first(), rest);
    } else {
        assert(all =~= rest);
    }
}

proof fn trimming_right(text: Seq<char>, trail: Seq<char>)
    requires
        all_white(trail),
        text.len() > 0,
        !white(text.last()),
    ensures
        trimmed_right(text + trail) == text,
    decreases trail.len(),
{
    let all = text + trail;
    if trail.len() > 0 {
        assert(all.last() == trail.last());
        assert(all.drop_last() =~= text + trail.drop_last());
        trimming_right(text, trail.drop_last());
    } else {
        assert(all =~= text);
    }
}

/// White space alone is trimmed to nothing.
pub proof fn trimming_leaves_nothing_of_white_space(s: Seq<char>)
    requires
        all_white(s),
    ensures
        trimmed(s).len() == 0,
    decreases s.len(),
{
    if s.len() > 0 {
        assert(white(s[0]));
        trimming_leaves_nothing_of_white_space(s.drop_first());
        assert(trimmed(s) == trimmed(s.drop_first()));
    }
}

/// Trimming an ending takes it off as often as it stands there.
pub proof fn trimming_an_ending_takes_all_of_it(s: Seq<char>, tail: Seq<char>)
    requires
        tail.len() > 0,
    ensures
        !tail.is_suffix_of(trimmed_end(s, tail)),
        trimmed_end(s, tail).is_prefix_of(s),
        trimmed_end(s + tail, tail) == trimmed_end(s, tail),
        !tail.is_suffix_of(s) ==> trimmed_end(s, tail) == s,
    decreases s.len(),
{
    let longer = s + tail;
    assert(longer.subrange(longer.len() - tail.len(), longer.len() as int) =~= tail);
    assert(longer.take(longer.len() - tail.len()) =~= s);
    if tail.is_suffix_of(s) {
        let shorter = s.take(s.len() - tail.len());
        trimming_an_ending_takes_all_of_it(shorter, tail);
        let end = trimmed_end(shorter, tail);
        assert(s.subrange(0, end.len() as int) =~= shorter.subrange(0, end.len() as int));
    } else {
        assert(s.subrange(0, s.len() as int) =~= s);
    }
}

/// Texts are ordered by the first character in which they differ; one that goes on behind the whole of
/// another comes later.
pub proof fn texts_are_ordered_by_their_first_difference(
    shared: Seq<char>,
    a: char,
    b: char,
    x: Seq<char>,
    y: Seq<char>,
)
    ensures
        a < b ==> before(shared.push(a) + x, shared.push(b) + y),
        a > b ==> !before(shared.push(a) + x, shared.push(b) + y),
        before(shared, shared.push(a) + x),
        !before(shared.push(a) + x, shared),
    decreases shared.len(),
{
    let p = shared.push(a) + x;
    let q = shared.push(b) + y;
    if shared.len() > 0 {
        let rest = shared.drop_first();
        texts_are_ordered_by_their_first_difference(rest, a, b, x, y);
        assert(p.drop_first() =~= rest.push(a) + x);
        assert(q.drop_first() =~= rest.push(b) + y);
        assert(p[0] == shared[0] && q[0] == shared[0]);
    } else {
        assert(p[0] == a && q[0] == b);
    }
}

/// Lower-casing changes the letters from A to Z to those from a to z, and nothing else.
pub proof fn lower_case_changes_capitals_alone(s: Seq<char>, i: int)
    requires
        0 <= i < s.len(),
    ensures
        lower(s).len() == s.len(),
        'A' <= s[i] <= 'Z' ==> lower(s)[i] as u32 == s[i] as u32 + 32,
        !('A' <= s[i] <= 'Z') ==> lower(s)[i] == s[i],
{
}

/// Replacing a character goes through the text in order: each is the replacement or stays.
pub proof fn replacing_goes_by_characters(a: Seq<char>, b: Seq<char>, c: char, with: Seq<char>)
    ensures
        replaced(a + b, c, with) == replaced(a, c, with) + replaced(b, c, with),
        replaced(seq![c], c, with) == with,
        !a.contains(c) ==> replaced(a, c, with) == a,
    decreases b.len(),
{
    reveal_with_fuel(replaced, 2);
    assert(seq![c].drop_last() =~= Seq::<char>::empty());
    assert(replaced(seq![c], c, with) =~= with);
    nothing_to_replace(a, c, with);
    if b.len() == 0 {
        assert(a + b =~= a);
        assert(replaced(a + b, c, with) =~= replaced(a, c, with) + replaced(b, c, with));
    } else {
        replacing_goes_by_characters(a, b.drop_last(), c, with);
        assert((a + b).drop_last() =~= a + b.drop_last());
        assert(replaced(a + b, c, with) =~= replaced(a, c, with) + replaced(b, c, with));
    }
}

proof fn nothing_to_replace(s: Seq<char>, c: char, with: Seq<char>)
    ensures
        !s.contains(c) ==> replaced(s, c, with) == s,
    decreases s.len(),
{
    if s.len() > 0 && !s.contains(c) {
        assert(s.contains(s[s.len() - 1]));
        assert forall|i: int| 0 <= i < s.len() - 1 implies s.drop_last()[i] != c by {
            assert(s.contains(s[i]));
        }
        nothing_to_replace(s.drop_last(), c, with);
        assert(replaced(s, c, with) =~= s);
    }
}

/// What is found first is the first place where the part stands.
pub proof fn first_occurrence_is_first(part: Seq<char>, whole: Seq<char>, i: int)
    requires
        0 <= i,
    ensures
        match first_occurrence(part, whole, i) {
            Some(k) => i <= k && k + part.len() <= whole.len() && whole.subrange(
                k,
                k + part.len(),
            ) == part && forall|j: int| i <= j < k ==> !#[trigger] occurs_at(part, whole, j),
            None => forall|j: int| i <= j ==> !#[trigger] occurs_at(part, whole, j),
        },
    decreases whole.len() + 1 - i,
{
    if i <= whole.len() && !occurs_at(part, whole, i) {
        first_occurrence_is_first(part, whole, i + 1);
    }
}

/// The pieces that are not empty, in order.
pub proof fn empty_pieces_are_left_out(pieces: Seq<Seq<char>>)
    ensures
        nonempty(pieces) == pieces.filter(|p: Seq<char>| p.len() > 0),
    decreases pieces.len(),
{
    reveal(Seq::filter);
    if pieces.len() > 0 {
        empty_pieces_are_left_out(pieces.drop_last());
    }
}

/// White space is what Unicode counts as such.
pub proof fn white_space_is_that_of_unicode(c: char)
    ensures
        white(c) <==> {
            let n = c as u32;
            ||| 0x9 <= n <= 0xd || n == 0x20 || n == 0x85 || n == 0xa0
            ||| n == 0x1680 || 0x2000 <= n <= 0x200a || n == 0x2028 || n == 0x2029
            ||| n == 0x202f || n == 0x205f || n == 0x3000
        },
{
}

} // verus!
