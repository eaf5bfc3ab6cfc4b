//! Text as sequences of characters: substitution of a pattern, trimming of
//! white space, and the conversions between `String` and `Vec<char>` that the
//! rest of the crate builds on.

use vstd::prelude::*;
use vstd::string::StringExecFns;

verus! {

/// `s` with every occurrence of `from` replaced by `to`, scanning from the
/// left; occurrences do not overlap and the replacement is not scanned again.
/// An empty pattern occurs nowhere.
pub open spec fn replace_all(s: Seq<char>, from: Seq<char>, to: Seq<char>) -> Seq<char>
    decreases s.len(),
{
    if from.len() == 0 || s.len() < from.len() {
        s
    } else if s.subrange(0, from.len() as int) == from {
        to + replace_all(s.subrange(from.len() as int, s.len() as int), from, to)
    } else {
        seq![s[0]] + replace_all(s.subrange(1, s.len() as int), from, to)
    }
}

/// Whether `from` occurs in `s` at some position.
pub open spec fn occurs_in(s: Seq<char>, from: Seq<char>) -> bool {
    exists|i: int| 0 <= i && i + from.len() <= s.len() && #[trigger] s.subrange(i, i + from.len()) == from
}

/// The characters that trimming removes: those with the Unicode property
/// `White_Space`.
pub open spec fn is_space(c: char) -> bool {
    let n = c as u32;
    ||| 0x09 <= n <= 0x0D
    ||| n == 0x20
    ||| n == 0x85
    ||| n == 0xA0
    ||| n == 0x1680
    ||| 0x2000 <= n <= 0x200A
    ||| n == 0x2028
    ||| n == 0x2029
    ||| n == 0x202F
    ||| n == 0x205F
    ||| n == 0x3000
}

/// `s` without the white space at its end.
pub open spec fn trim_end_of(s: Seq<char>) -> Seq<char>
    decreases s.len(),
{
    if s.len() > 0 && is_space(s.last()) {
        trim_end_of(s.drop_last())
    } else {
        s
    }
}

/// `s` without the white space at its start.
pub open spec fn trim_start_of(s: Seq<char>) -> Seq<char>
    decreases s.len(),
{
    if s.len() > 0 && is_space(s.first()) {
        trim_start_of(s.drop_first())
    } else {
        s
    }
}

/// `s` without the white space at either end.
pub open spec fn trim_of(s: Seq<char>) -> Seq<char> {
    trim_end_of(trim_start_of(s))
}

/// A text in which the pattern does not occur is left as it is.
pub proof fn lemma_replace_absent(s: Seq<char>, from: Seq<char>, to: Seq<char>)
    requires
        !occurs_in(s, from),
    ensures
        replace_all(s, from, to) == s,
    decreases s.len(),
{
    if from.len() == 0 || s.len() < from.len() {
    } else {
        assert(s.subrange(0, 0int + from.len()) != from);
        let rest = s.subrange(1, s.len() as int);
        assert(!occurs_in(rest, from)) by {
            if occurs_in(rest, from) {
                let i = choose|i: int|
                    0 <= i && i + from.len() <= rest.len() && #[trigger] rest.subrange(i, i + from.len())
                        == from;
                assert(s.subrange(i + 1, i + 1 + from.len()) =~= rest.subrange(i, i + from.len()));
            }
        }
        lemma_replace_absent(rest, from, to);
        assert(seq![s[0]] + rest =~= s);
    }
}

/// A text in which the first character of the pattern does not occur holds
/// no occurrence of the pattern.
pub proof fn lemma_absent_without_first(s: Seq<char>, from: Seq<char>)
    requires
        from.len() > 0,
        forall|i: int| 0 <= i < s.len() ==> s[i] != from[0],
    ensures
        !occurs_in(s, from),
{
    if occurs_in(s, from) {
        let i = choose|i: int|
            0 <= i && i + from.len() <= s.len() && #[trigger] s.subrange(i, i + from.len()) == from;
        assert(s.subrange(i, i + from.len())[0] == s[i]);
    }
}

/// Whether the character `c` does not stand in `s`.
pub open spec fn free_of(s: Seq<char>, c: char) -> bool {
    forall|i: int| 0 <= i < s.len() ==> s[i] != c
}

/// A pattern of two or more characters does not occur in a text in which
/// its first character is nowhere followed by its second.
pub proof fn lemma_absent_without_pair(s: Seq<char>, from: Seq<char>)
    requires
        from.len() >= 2,
        forall|i: int|
            0 <= i && i + 1 < s.len() ==> !(#[trigger] s[i] == from[0] && s[i + 1] == from[1]),
    ensures
        !occurs_in(s, from),
{
    if occurs_in(s, from) {
        let i = choose|i: int|
            0 <= i && i + from.len() <= s.len() && #[trigger] s.subrange(i, i + from.len()) == from;
        assert(s.subrange(i, i + from.len())[0] == s[i]);
        assert(s.subrange(i, i + from.len())[1] == s[i + 1]);
    }
}

/// Behind a start in which the first character of the pattern does not
/// stand, the rest is replaced as if it stood alone.
pub proof fn lemma_replace_behind(pre: Seq<char>, rest: Seq<char>, from: Seq<char>, to: Seq<char>)
    requires
        from.len() > 0,
        free_of(pre, from[0]),
    ensures
        replace_all(pre + rest, from, to) == pre + replace_all(rest, from, to),
    decreases pre.len(),
{
    let s = pre + rest;
    if pre.len() == 0 {
        assert(s =~= rest);
        assert(pre + replace_all(rest, from, to) =~= replace_all(rest, from, to));
    } else if s.len() < from.len() {
        assert(rest.len() < from.len());
    } else {
        assert(s.subrange(0, from.len() as int)[0] == pre[0]);
        let tail = pre.drop_first();
        assert(s.subrange(1, s.len() as int) =~= tail + rest);
        assert(free_of(tail, from[0])) by {
            assert forall|i: int| 0 <= i < tail.len() implies tail[i] != from[0] by {
                assert(tail[i] == pre[i + 1]);
            }
        }
        lemma_replace_behind(tail, rest, from, to);
        assert(seq![s[0]] + (tail + replace_all(rest, from, to)) =~= pre + replace_all(
            rest,
            from,
            to,
        ));
    }
}

/// Where the pattern stands at the start, the replacement stands for it and
/// the rest is replaced as if it stood alone.
pub proof fn lemma_replace_match(rest: Seq<char>, from: Seq<char>, to: Seq<char>)
    requires
        from.len() > 0,
    ensures
        replace_all(from + rest, from, to) == to + replace_all(rest, from, to),
{
    let s = from + rest;
    assert(s.subrange(0, from.len() as int) =~= from);
    assert(s.subrange(from.len() as int, s.len() as int) =~= rest);
}

/// A first character of the pattern that is not followed by the second
/// stays, and the rest is replaced as if it stood alone.
pub proof fn lemma_replace_skip(c: char, rest: Seq<char>, from: Seq<char>, to: Seq<char>)
    requires
        from.len() >= 2,
        rest.len() > 0,
        rest[0] != from[1],
    ensures
        replace_all(seq![c] + rest, from, to) == seq![c] + replace_all(rest, from, to),
{
    let s = seq![c] + rest;
    assert(s.subrange(1, s.len() as int) =~= rest);
    if s.len() >= from.len() {
        assert(s.subrange(0, from.len() as int)[1] == rest[0]);
    }
}

/// A text that holds the pattern once, behind a start without the
/// pattern's first character and before an end without the pattern, has
/// the replacement in that place.
pub proof fn lemma_replace_one(
    pre: Seq<char>,
    from: Seq<char>,
    post: Seq<char>,
    to: Seq<char>,
)
    requires
        from.len() > 0,
        free_of(pre, from[0]),
        !occurs_in(post, from),
    ensures
        replace_all(pre + from + post, from, to) == pre + to + post,
{
    assert(pre + from + post =~= pre + (from + post));
    lemma_replace_behind(pre, from + post, from, to);
    lemma_replace_match(post, from, to);
    lemma_replace_absent(post, from, to);
    assert(pre + (to + post) =~= pre + to + post);
}

/// As `lemma_replace_one`, where the start holds the pattern's first
/// character once, followed by another character than the pattern's
/// second.
pub proof fn lemma_replace_one_behind(
    a: Seq<char>,
    b: Seq<char>,
    from: Seq<char>,
    post: Seq<char>,
    to: Seq<char>,
)
    requires
        from.len() >= 2,
        free_of(a, from[0]),
        free_of(b, from[0]),
        b.len() > 0,
        b[0] != from[1],
        !occurs_in(post, from),
    ensures
        replace_all(a + seq![from[0]] + b + from + post, from, to) == a + seq![from[0]] + b + to
            + post,
{
    let c = from[0];
    let tail = b + from + post;
    assert(a + seq![c] + b + from + post =~= a + (seq![c] + tail));
    lemma_replace_behind(a, seq![c] + tail, from, to);
    assert(tail[0] == b[0]);
    lemma_replace_skip(c, tail, from, to);
    assert(tail =~= b + (from + post));
    lemma_replace_behind(b, from + post, from, to);
    lemma_replace_match(post, from, to);
    lemma_replace_absent(post, from, to);
    assert(a + (seq![c] + (b + (to + post))) =~= a + seq![c] + b + to + post);
}

/// Appends one character to `s`.
///
/// Wraps `String::push`: afterwards the string is what it was, with `c` added
/// at its end.
#[verifier::external_body]
pub(crate) fn push_char(s: &mut String, c: char)
    ensures
        final(s)@ == old(s)@.push(c),
{
    s.push(c)
}

/// The characters of `s`, in order.
pub fn chars_of(s: &str) -> (v: Vec<char>)
    ensures
        v@ == s@,
{
    let mut v: Vec<char> = Vec::new();
    for c in it: s.chars()
        invariant
            it.seq() == s@,
            v@ == it.seq().take(it.index() as int),
    {
        v.push(c);
    }
    assert(v@ == s@);
    v
}

/// The string made of the characters `v[lo..hi]`.
fn text_of_range(v: &Vec<char>, lo: usize, hi: usize) -> (s: String)
    requires
        lo <= hi <= v.len(),
    ensures
        s@ == v@.subrange(lo as int, hi as int),
{
    let mut s = String::new();
    let mut i: usize = lo;
    while i < hi
        invariant
            lo <= i <= hi <= v.len(),
            s@ == v@.subrange(lo as int, i as int),
        decreases hi - i,
    {
        push_char(&mut s, v[i]);
        i = i + 1;
        assert(s@ == v@.subrange(lo as int, i as int));
    }
    s
}

/// The string made of the characters of `v`.
pub fn text_of(v: &Vec<char>) -> (s: String)
    ensures
        s@ == v@,
{
    let s = text_of_range(v, 0, v.len());
    assert(v@.subrange(0, v.len() as int) == v@);
    s
}

/// Whether two texts hold the same characters.
pub fn same_text(a: &str, b: &str) -> (r: bool)
    ensures
        r == (a@ == b@),
{
    let x = String::from_str(a);
    let y = String::from_str(b);
    x == y
}

/// Whether `c` is white space.
pub fn is_whitespace(c: char) -> (r: bool)
    ensures
        r == is_space(c),
{
    let n: u32 = c as u32;
    (0x09 <= n && n <= 0x0D) || n == 0x20 || n == 0x85 || n == 0xA0 || n == 0x1680 || (0x2000 <= n
        && n <= 0x200A) || n == 0x2028 || n == 0x2029 || n == 0x202F || n == 0x205F || n == 0x3000
}

/// Whether the pattern stands in `s` at position `at`.
fn stands_at(s: &Vec<char>, at: usize, from: &Vec<char>) -> (r: bool)
    requires
        at + from.len() <= s.len(),
    ensures
        r == (s@.subrange(at as int, at + from.len()) == from@),
{
    let mut k: usize = 0;
    while k < from.len()
        invariant
            k <= from.len(),
            at + from.len() <= s.len(),
            forall|j: int| 0 <= j < k ==> s@[at + j] == from@[j],
        decreases from.len() - k,
    {
        if s[at + k] != from[k] {
            assert(s@.subrange(at as int, at + from.len())[k as int] != from@[k as int]);
            return false;
        }
        k = k + 1;
    }
    assert(s@.subrange(at as int, at + from.len()) =~= from@);
    true
}

/// Replaces every occurrence of `from` in `s` by `to`, on characters.
pub fn replace_chars(s: &Vec<char>, from: &Vec<char>, to: &Vec<char>) -> (r: Vec<char>)
    ensures
        r@ == replace_all(s@, from@, to@),
{
    let n = s.len();
    let m = from.len();
    let mut out: Vec<char> = Vec::new();
    let mut i: usize = 0;
    if m == 0 {
        while i < n
            invariant
                i <= n,
                n == s.len(),
                out@ == s@.take(i as int),
            decreases n - i,
        {
            out.push(s[i]);
            i = i + 1;
        }
        assert(s@.take(n as int) == s@);
        return out;
    }
    assert(s@.subrange(0, n as int) =~= s@);
    assert(out@ + replace_all(s@, from@, to@) =~= replace_all(s@, from@, to@));
    while i < n
        invariant
            i <= n,
            n == s.len(),
            m == from.len(),
            m > 0,
            out@ + replace_all(s@.subrange(i as int, n as int), from@, to@) == replace_all(
                s@,
                from@,
                to@,
            ),
        decreases n - i,
    {
        let ghost rest = s@.subrange(i as int, n as int);
        if m <= n - i && stands_at(s, i, from) {
            assert(rest.subrange(0, m as int) =~= s@.subrange(i as int, i + m));
            assert(rest.subrange(m as int, rest.len() as int) =~= s@.subrange(i + m, n as int));
            let ghost before = out@;
            let mut k: usize = 0;
            while k < to.len()
                invariant
                    k <= to.len(),
                    out@ == before + to@.take(k as int),
                decreases to.len() - k,
            {
                out.push(to[k]);
                k = k + 1;
                assert(out@ =~= before + to@.take(k as int));
            }
            assert(to@.take(to.len() as int) == to@);
            assert((before + to@) + replace_all(s@.subrange(i + m, n as int), from@, to@) =~= before
                + (to@ + replace_all(s@.subrange(i + m, n as int), from@, to@)));
            i = i + m;
        } else {
            if m <= n - i {
                assert(rest.subrange(0, m as int) =~= s@.subrange(i as int, i + m));
                assert(rest.subrange(1, rest.len() as int) =~= s@.subrange(i + 1, n as int));
                assert(rest[0] == s@[i as int]);
                assert(out@.push(s@[i as int]) + replace_all(
                    s@.subrange(i + 1, n as int),
                    from@,
                    to@,
                ) =~= out@ + (seq![s@[i as int]] + replace_all(
                    s@.subrange(i + 1, n as int),
                    from@,
                    to@,
                )));
            } else {
                assert(replace_all(rest, from@, to@) == rest);
                assert(s@.subrange(i + 1, n as int).len() < m);
                assert(out@.push(s@[i as int]) + s@.subrange(i + 1, n as int) =~= out@ + rest);
            }
            out.push(s[i]);
            i = i + 1;
        }
    }
    assert(s@.subrange(n as int, n as int) =~= Seq::<char>::empty());
    assert(out@ + Seq::<char>::empty() =~= out@);
    out
}

/// Replaces every occurrence of `from` in `s` by `to`.
pub fn replace(s: &str, from: &str, to: &str) -> (r: String)
    ensures
        r@ == replace_all(s@, from@, to@),
{
    let sv = chars_of(s);
    let fv = chars_of(from);
    let tv = chars_of(to);
    let out = replace_chars(&sv, &fv, &tv);
    text_of(&out)
}

/// The index behind the last character of `v` that is not white space.
fn end_of_text(v: &Vec<char>) -> (end: usize)
    ensures
        end <= v.len(),
        v@.take(end as int) == trim_end_of(v@),
{
    let mut end: usize = v.len();
    assert(v@.take(end as int) == v@);
    while end > 0 && is_whitespace(v[end - 1])
        invariant
            end <= v.len(),
            trim_end_of(v@.take(end as int)) == trim_end_of(v@),
        decreases end,
    {
        assert(v@.take(end as int).drop_last() =~= v@.take(end - 1));
        end = end - 1;
    }
    end
}

/// The index of the first character of `v[..end]` that is not white space.
fn start_of_text(v: &Vec<char>, end: usize) -> (start: usize)
    requires
        end <= v.len(),
    ensures
        start <= end,
        v@.subrange(start as int, end as int) == trim_start_of(v@.take(end as int)),
{
    let mut start: usize = 0;
    assert(v@.subrange(0, end as int) == v@.take(end as int));
    while start < end && is_whitespace(v[start])
        invariant
            start <= end <= v.len(),
            trim_start_of(v@.subrange(start as int, end as int)) == trim_start_of(
                v@.take(end as int),
            ),
        decreases end - start,
    {
        assert(v@.subrange(start as int, end as int).drop_first() =~= v@.subrange(
            start + 1,
            end as int,
        ));
        start = start + 1;
    }
    start
}

/// `s` without the white space at its end.
pub fn trim_end(s: &str) -> (r: String)
    ensures
        r@ == trim_end_of(s@),
{
    let v = chars_of(s);
    let end = end_of_text(&v);
    let r = text_of_range(&v, 0, end);
    assert(v@.subrange(0, end as int) == v@.take(end as int));
    r
}

/// White space at the start can be taken off before or after that at the
/// end.
pub proof fn lemma_trim_commutes(s: Seq<char>)
    ensures
        trim_start_of(trim_end_of(s)) == trim_end_of(trim_start_of(s)),
    decreases s.len(),
{
    if s.len() == 0 {
    } else if is_space(s.last()) {
        lemma_trim_commutes(s.drop_last());
        lemma_trim_start_of_spaces(s);
    } else if is_space(s.first()) {
        lemma_trim_commutes(s.drop_first());
        lemma_trim_end_keeps(s);
    } else {
    }
}

/// Where the last character is white space, trimming both ends of the text
/// without it gives the same.
proof fn lemma_trim_start_of_spaces(s: Seq<char>)
    requires
        s.len() > 0,
        is_space(s.last()),
    ensures
        trim_end_of(trim_start_of(s)) == trim_end_of(trim_start_of(s.drop_last())),
    decreases s.len(),
{
    if is_space(s.first()) {
        if s.len() == 1 {
            assert(s.drop_first() =~= s.drop_last());
        } else {
            let t = s.drop_first();
            assert(t.last() == s.last());
            lemma_trim_start_of_spaces(t);
            assert(t.drop_last() =~= s.drop_last().drop_first());
            assert(s.drop_last().first() == s.first());
        }
    } else {
        if s.len() > 1 {
            assert(s.drop_last().first() == s.first());
        }
    }
}

/// Where the first character is white space and the last is not, trimming the
/// end leaves the first character in place.
proof fn lemma_trim_end_keeps(s: Seq<char>)
    requires
        s.len() > 0,
        is_space(s.first()),
        !is_space(s.last()),
    ensures
        trim_start_of(trim_end_of(s)) == trim_start_of(trim_end_of(s.drop_first())),
{
    assert(s.len() > 1);
    assert(s.drop_first().last() == s.last());
}

/// `s` without the white space at either end.
pub fn trim(s: &str) -> (r: String)
    ensures
        r@ == trim_of(s@),
{
    let v = chars_of(s);
    let end = end_of_text(&v);
    let start = start_of_text(&v, end);
    proof {
        lemma_trim_commutes(v@);
    }
    text_of_range(&v, start, end)
}

/// The character that stands for the digit `d`.
pub open spec fn digit_char(d: int) -> char {
    if d == 0 {
        '0'
    } else if d == 1 {
        '1'
    } else if d == 2 {
        '2'
    } else if d == 3 {
        '3'
    } else if d == 4 {
        '4'
    } else if d == 5 {
        '5'
    } else if d == 6 {
        '6'
    } else if d == 7 {
        '7'
    } else if d == 8 {
        '8'
    } else {
        '9'
    }
}

/// The decimal digits of a natural number, without leading zeros.
pub open spec fn natural_text(n: nat) -> Seq<char>
    decreases n,
{
    if n < 10 {
        seq![digit_char(n as int)]
    } else {
        natural_text(n / 10).push(digit_char((n % 10) as int))
    }
}

/// The decimal text of an integer: its digits, behind a minus sign where
/// it is negative.
pub open spec fn decimal_text(n: int) -> Seq<char> {
    if n < 0 {
        seq!['-'] + natural_text((-n) as nat)
    } else {
        natural_text(n as nat)
    }
}

/// The character that stands for the digit `d`.
fn digit(d: u64) -> (c: char)
    requires
        d < 10,
    ensures
        c == digit_char(d as int),
{
    if d == 0 {
        '0'
    } else if d == 1 {
        '1'
    } else if d == 2 {
        '2'
    } else if d == 3 {
        '3'
    } else if d == 4 {
        '4'
    } else if d == 5 {
        '5'
    } else if d == 6 {
        '6'
    } else if d == 7 {
        '7'
    } else if d == 8 {
        '8'
    } else {
        '9'
    }
}

/// The decimal digits of `n`.
pub fn natural_to_text(n: u64) -> (r: String)
    ensures
        r@ == natural_text(n as nat),
    decreases n,
{
    if n < 10 {
        let mut s = String::new();
        push_char(&mut s, digit(n));
        assert(s@ =~= seq![digit_char(n as int)]);
        s
    } else {
        let mut s = natural_to_text(n / 10);
        push_char(&mut s, digit(n % 10));
        s
    }
}

/// The decimal text of `n`.
pub fn int_to_text(n: i32) -> (r: String)
    ensures
        r@ == decimal_text(n as int),
{
    if n < 0 {
        let m: u64 = (-(n as i64)) as u64;
        let mut s = String::new();
        push_char(&mut s, '-');
        let digits = natural_to_text(m);
        s.append(digits.as_str());
        assert(s@ =~= seq!['-'] + natural_text((-n) as nat));
        s
    } else {
        natural_to_text(n as u64)
    }
}

/// The length of the part of `s` before the first `c`.
pub open spec fn first_part_len(s: Seq<char>, c: char) -> int
    decreases s.len(),
{
    if s.len() == 0 || s[0] == c {
        0
    } else {
        1 + first_part_len(s.drop_first(), c)
    }
}

/// The part of `s` before the first `c`: all of `s` where it holds no
/// `c`.
pub open spec fn first_part(s: Seq<char>, c: char) -> Seq<char> {
    s.take(first_part_len(s, c))
}

/// `s` without the `c`s at its end.
pub open spec fn without_trailing(s: Seq<char>, c: char) -> Seq<char>
    decreases s.len(),
{
    if s.len() > 0 && s.last() == c {
        without_trailing(s.drop_last(), c)
    } else {
        s
    }
}

/// The part of `s` before the first `c`.
pub fn before_first(s: &str, c: char) -> (r: String)
    ensures
        r@ == first_part(s@, c),
{
    let v = chars_of(s);
    let mut i: usize = 0;
    assert(v@.skip(0) =~= v@);
    while i < v.len() && v[i] != c
        invariant
            i <= v.len(),
            first_part_len(v@, c) == i + first_part_len(v@.skip(i as int), c),
        decreases v.len() - i,
    {
        assert(v@.skip(i as int).drop_first() =~= v@.skip(i + 1));
        i = i + 1;
    }
    assert(v@.subrange(0, i as int) =~= v@.take(i as int));
    text_of_range(&v, 0, i)
}

/// `s` without the `c`s at its end.
pub fn trim_end_matches(s: &str, c: char) -> (r: String)
    ensures
        r@ == without_trailing(s@, c),
{
    let v = chars_of(s);
    let mut end: usize = v.len();
    assert(v@.take(end as int) =~= v@);
    while end > 0 && v[end - 1] == c
        invariant
            end <= v.len(),
            without_trailing(v@.take(end as int), c) == without_trailing(v@, c),
        decreases end,
    {
        assert(v@.take(end as int).drop_last() =~= v@.take(end - 1));
        end = end - 1;
    }
    assert(v@.subrange(0, end as int) =~= v@.take(end as int));
    text_of_range(&v, 0, end)
}

/// Whether `from` occurs in `s`.
pub fn contains(s: &str, from: &str) -> (r: bool)
    ensures
        r == occurs_in(s@, from@),
{
    let sv = chars_of(s);
    let fv = chars_of(from);
    if fv.len() > sv.len() {
        return false;
    }
    if fv.len() == 0 {
        assert(sv@.subrange(0, 0int + fv@.len()) =~= fv@);
        return true;
    }
    let last = sv.len() - fv.len();
    let mut i: usize = 0;
    while i <= last
        invariant
            i <= last + 1,
            last == sv.len() - fv.len(),
            fv.len() > 0,
            sv@ == s@,
            fv@ == from@,
            forall|j: int| 0 <= j < i ==> #[trigger] sv@.subrange(j, j + fv@.len()) != fv@,
        decreases last + 1 - i,
    {
        if stands_at(&sv, i, &fv) {
            assert(sv@.subrange(i as int, i + fv@.len()) == fv@);
            return true;
        }
        i = i + 1;
    }
    false
}

} // verus!
