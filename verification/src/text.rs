//! Text helpers: decimal numerals and placeholder substitution.

use vstd::prelude::*;

verus! {

/// `String::push` appends one character to the end of the string.
pub assume_specification[ String::push ](s: &mut String, c: char)
    ensures
        final(s)@ == old(s)@.push(c),
;

/// The decimal digit with value `d`.
pub open spec fn digit_char(d: int) -> char {
    if d == 0 {
        '0'
    } else if d == 1 {
        '1'
    } else if d == 2 {
        '2'
    } else if d == 3 {
        '3'
    } else if d == 4 {
        '4'
    } else if d == 5 {
        '5'
    } else if d == 6 {
        '6'
    } else if d == 7 {
        '7'
    } else if d == 8 {
        '8'
    } else {
        '9'
    }
}

/// The decimal numeral of `n`, without leading zeros.
pub open spec fn decimal(n: nat) -> Seq<char>
    decreases n,
{
    if n < 10 {
        seq![digit_char(n as int)]
    } else {
        decimal(n / 10).push(digit_char((n % 10) as int))
    }
}

/// `s` with every occurrence of `pattern`, scanned from the left without
/// overlaps, replaced by `with`.
pub open spec fn replaced(s: Seq<char>, pattern: Seq<char>, with: Seq<char>) -> Seq<char>
    decreases s.len(),
{
    if pattern.len() == 0 || s.len() < pattern.len() {
        s
    } else if s.take(pattern.len() as int) == pattern {
        with + replaced(s.skip(pattern.len() as int), pattern, with)
    } else {
        seq![s[0]] + replaced(s.skip(1), pattern, with)
    }
}

/// `text` with the numeral of `n` in place of every `placeholder`.
pub open spec fn filled(text: Seq<char>, placeholder: Seq<char>, n: nat) -> Seq<char> {
    replaced(text, placeholder, decimal(n))
}

/// A character that the pattern does not have parts a text in two that are
/// replaced on their own.
pub proof fn lemma_replaced_parts(
    a: Seq<char>,
    c: char,
    b: Seq<char>,
    pattern: Seq<char>,
    with: Seq<char>,
)
    requires
        pattern.len() > 0,
        forall|i: int| 0 <= i < pattern.len() ==> pattern[i] != c,
    ensures
        replaced(a + seq![c] + b, pattern, with) == replaced(a, pattern, with) + seq![c]
            + replaced(b, pattern, with),
    decreases a.len(),
{
    let s = a + seq![c] + b;
    let n = pattern.len() as int;
    if a.len() == 0 {
        assert(s[0] == c);
        assert(s.skip(1) =~= b);
        assert(a =~= Seq::<char>::empty());
        assert(replaced(a, pattern, with) =~= Seq::<char>::empty());
        if s.len() >= n {
            assert(s.take(n)[0] == c);
            assert(replaced(s, pattern, with) =~= seq![c] + replaced(b, pattern, with));
        } else {
            assert(replaced(s, pattern, with) =~= seq![c] + b);
        }
    } else if s.len() < n {
        assert(a.len() < n && b.len() < n);
    } else if s.take(n) == pattern {
        if a.len() < n {
            assert(s.take(n)[a.len() as int] == c);
        }
        assert(a.take(n) =~= s.take(n));
        lemma_replaced_parts(a.skip(n), c, b, pattern, with);
        assert(s.skip(n) =~= a.skip(n) + seq![c] + b);
        assert(replaced(s, pattern, with) =~= replaced(a, pattern, with) + seq![c] + replaced(
            b,
            pattern,
            with,
        ));
    } else {
        lemma_replaced_parts(a.skip(1), c, b, pattern, with);
        assert(s.skip(1) =~= a.skip(1) + seq![c] + b);
        if a.len() >= n {
            assert(a.take(n) =~= s.take(n));
            assert(replaced(a, pattern, with) =~= seq![a[0]] + replaced(a.skip(1), pattern, with));
        } else {
            assert(replaced(a, pattern, with) == a);
            assert(replaced(a.skip(1), pattern, with) == a.skip(1));
            assert(a =~= seq![a[0]] + a.skip(1));
        }
        assert(replaced(s, pattern, with) =~= replaced(a, pattern, with) + seq![c] + replaced(
            b,
            pattern,
            with,
        ));
    }
}

/// No character stands in both texts.
pub open spec fn unrelated(a: Seq<char>, b: Seq<char>) -> bool {
    forall|i: int, j: int| 0 <= i < a.len() && 0 <= j < b.len() ==> #[trigger] a[i] != #[trigger] b[j]
}

/// As far as the result has no character of `with`, it is the text itself.
proof fn lemma_untouched(s: Seq<char>, pattern: Seq<char>, with: Seq<char>, n: int)
    requires
        pattern.len() > 0,
        with.len() > 0,
        0 <= n <= replaced(s, pattern, with).len(),
        unrelated(replaced(s, pattern, with).take(n), with),
    ensures
        n <= s.len(),
        replaced(s, pattern, with).take(n) == s.take(n),
    decreases s.len(),
{
    let out = replaced(s, pattern, with);
    let m = pattern.len() as int;
    if s.len() < m {
    } else if n == 0 {
        assert(out.take(0) =~= s.take(0));
    } else if s.take(m) == pattern {
        assert(out[0] == with[0]);
        assert(out.take(n)[0] == with[0]);
    } else {
        let rest = replaced(s.skip(1), pattern, with);
        assert(out.skip(1) =~= rest);
        assert(unrelated(rest.take(n - 1), with)) by {
            assert forall|i: int, j: int|
                0 <= i < rest.take(n - 1).len() && 0 <= j < with.len() implies #[trigger] rest.take(
                n - 1,
            )[i] != #[trigger] with[j] by {
                assert(rest.take(n - 1)[i] == out.take(n)[i + 1]);
            }
        }
        lemma_untouched(s.skip(1), pattern, with, n - 1);
        assert forall|i: int| 0 <= i < n implies out.take(n)[i] == s.take(n)[i] by {
            if i > 0 {
                assert(out[i] == rest[i - 1]);
                assert(rest.take(n - 1)[i - 1] == s.skip(1).take(n - 1)[i - 1]);
            }
        }
        assert(out.take(n) =~= s.take(n));
    }
}

/// After replacing, the pattern is gone, where what stands in its place shares
/// no character with it.
pub proof fn replacing_removes_the_pattern(s: Seq<char>, pattern: Seq<char>, with: Seq<char>)
    requires
        pattern.len() > 0,
        with.len() > 0,
        unrelated(pattern, with),
    ensures
        !holds(replaced(s, pattern, with), pattern),
    decreases s.len(),
{
    let out = replaced(s, pattern, with);
    let n = pattern.len() as int;
    assert forall|i: int| !#[trigger] stands_at(out, i, pattern) by {
        if stands_at(out, i, pattern) {
            let here = out.subrange(i, i + n);
            assert(here == pattern);
            assert(here[0] == pattern[0]);
            if s.len() < n {
            } else if s.take(n) == pattern {
                let rest = replaced(s.skip(n), pattern, with);
                replacing_removes_the_pattern(s.skip(n), pattern, with);
                if i < with.len() {
                    assert(out[i] == with[i]);
                } else {
                    assert(rest.subrange(i - with.len(), i - with.len() + n) =~= here);
                    assert(stands_at(rest, i - with.len(), pattern));
                }
            } else if i > 0 {
                let rest = replaced(s.skip(1), pattern, with);
                replacing_removes_the_pattern(s.skip(1), pattern, with);
                assert(rest.subrange(i - 1, i - 1 + n) =~= here);
                assert(stands_at(rest, i - 1, pattern));
            } else {
                assert(out.take(n) =~= here);
                lemma_untouched(s, pattern, with, n);
            }
        }
    }
}

/// Replacing one pattern brings no other one back, where what is put in shares
/// no character with that other one.
pub proof fn replacing_brings_nothing_back(
    s: Seq<char>,
    pattern: Seq<char>,
    with: Seq<char>,
    gone: Seq<char>,
)
    requires
        pattern.len() > 0,
        with.len() > 0,
        gone.len() > 0,
        unrelated(gone, with),
        !holds(s, gone),
    ensures
        !holds(replaced(s, pattern, with), gone),
    decreases s.len(),
{
    let out = replaced(s, pattern, with);
    let m = pattern.len() as int;
    let n = gone.len() as int;
    if s.len() >= m {
        let step = if s.take(m) == pattern {
            m
        } else {
            1
        };
        let rest = s.skip(step);
        assert forall|i: int| !#[trigger] stands_at(rest, i, gone) by {
            if stands_at(rest, i, gone) {
                assert(s.subrange(i + step, i + step + n) =~= rest.subrange(i, i + n));
                assert(stands_at(s, i + step, gone));
            }
        }
        replacing_brings_nothing_back(rest, pattern, with, gone);
        let after = replaced(rest, pattern, with);
        let front = out.len() - after.len();
        assert forall|i: int| !#[trigger] stands_at(out, i, gone) by {
            if stands_at(out, i, gone) {
                let here = out.subrange(i, i + n);
                assert(here[0] == gone[0]);
                if i >= front {
                    assert(after.subrange(i - front, i - front + n) =~= here);
                    assert(stands_at(after, i - front, gone));
                } else if s.take(m) == pattern {
                    assert(out[i] == with[i]);
                } else {
                    assert(out.take(n) =~= here);
                    lemma_untouched(s, pattern, with, n);
                    assert(s.subrange(0, n) =~= s.take(n));
                    assert(stands_at(s, 0, gone));
                }
            }
        }
    }
}

/// The text has no digit.
pub open spec fn no_digits(p: Seq<char>) -> bool {
    forall|i: int| 0 <= i < p.len() ==> !('0' <= #[trigger] p[i] <= '9')
}

/// A numeral shares no character with a text without digits.
proof fn lemma_numeral_unrelated(p: Seq<char>, n: nat)
    requires
        no_digits(p),
    ensures
        decimal(n).len() > 0,
        unrelated(p, decimal(n)),
{
    lemma_decimal_digits(n);
    assert forall|i: int, j: int| 0 <= i < p.len() && 0 <= j < decimal(n).len() implies
        #[trigger] p[i] != #[trigger] decimal(n)[j] by {
        assert(!('0' <= p[i] <= '9'));
    }
}

/// Filling a place leaves none open, and opens none that was filled before.
pub proof fn filled_places_stay_filled(text: Seq<char>, place: Seq<char>, n: nat, other: Seq<char>)
    requires
        place.len() > 0,
        other.len() > 0,
        no_digits(place),
        no_digits(other),
    ensures
        !holds(filled(text, place, n), place),
        !holds(text, other) ==> !holds(filled(text, place, n), other),
{
    lemma_numeral_unrelated(place, n);
    lemma_numeral_unrelated(other, n);
    replacing_removes_the_pattern(text, place, decimal(n));
    if !holds(text, other) {
        replacing_brings_nothing_back(text, place, decimal(n), other);
    }
}

/// Where the pattern stands nowhere, nothing is replaced.
pub proof fn lemma_nothing_replaced(s: Seq<char>, pattern: Seq<char>, with: Seq<char>)
    requires
        !holds(s, pattern),
    ensures
        replaced(s, pattern, with) == s,
    decreases s.len(),
{
    let n = pattern.len() as int;
    if n > 0 && s.len() >= n {
        assert(s.subrange(0, n) =~= s.take(n));
        assert(!stands_at(s, 0, pattern));
        let rest = s.skip(1);
        assert forall|i: int| !#[trigger] stands_at(rest, i, pattern) by {
            if stands_at(rest, i, pattern) {
                assert(s.subrange(i + 1, i + 1 + n) =~= rest.subrange(i, i + n));
                assert(stands_at(s, i + 1, pattern));
            }
        }
        lemma_nothing_replaced(rest, pattern, with);
        assert(seq![s[0]] + rest =~= s);
    }
}

/// A pattern that stands in one place alone is replaced there alone.
pub proof fn lemma_replaced_once(a: Seq<char>, pattern: Seq<char>, b: Seq<char>, with: Seq<char>)
    requires
        pattern.len() > 0,
        forall|p: int| #[trigger] stands_at(a + pattern + b, p, pattern) ==> p == a.len(),
    ensures
        replaced(a + pattern + b, pattern, with) == a + with + b,
    decreases a.len(),
{
    let s = a + pattern + b;
    let n = pattern.len() as int;
    if a.len() == 0 {
        assert(s.take(n) =~= pattern);
        assert(s.skip(n) =~= b);
        assert forall|p: int| !#[trigger] stands_at(b, p, pattern) by {
            if stands_at(b, p, pattern) {
                assert(s.subrange(p + n, p + n + n) =~= b.subrange(p, p + n));
                assert(stands_at(s, p + n, pattern));
            }
        }
        lemma_nothing_replaced(b, pattern, with);
        assert(with + b =~= a + with + b);
    } else {
        let rest = a.skip(1) + pattern + b;
        assert(s.subrange(0, n) =~= s.take(n));
        assert(!stands_at(s, 0, pattern));
        assert(s.skip(1) =~= rest);
        assert forall|p: int| #[trigger] stands_at(rest, p, pattern) implies p == a.len() - 1 by {
            assert(s.subrange(p + 1, p + 1 + n) =~= rest.subrange(p, p + n));
            assert(stands_at(s, p + 1, pattern));
        }
        lemma_replaced_once(a.skip(1), pattern, b, with);
        assert(seq![s[0]] + (a.skip(1) + with + b) =~= a + with + b);
    }
}

/// A numeral has digits alone.
pub proof fn lemma_decimal_digits(n: nat)
    ensures
        decimal(n).len() > 0,
        forall|i: int| 0 <= i < decimal(n).len() ==> '0' <= #[trigger] decimal(n)[i] <= '9',
    decreases n,
{
    if n >= 10 {
        lemma_decimal_digits(n / 10);
    }
}

fn digit(d: u64) -> (c: char)
    requires
        d < 10,
    ensures
        c == digit_char(d as int),
{
    match d {
        0 => '0',
        1 => '1',
        2 => '2',
        3 => '3',
        4 => '4',
        5 => '5',
        6 => '6',
        7 => '7',
        8 => '8',
        _ => '9',
    }
}

/// The decimal numeral of `n`.
pub fn decimal_u64(n: u64) -> (s: String)
    ensures
        s@ == decimal(n as nat),
    decreases n,
{
    if n < 10 {
        let mut s = String::new();
        s.push(digit(n));
        assert(s@ =~= decimal(n as nat));
        s
    } else {
        let mut s = decimal_u64(n / 10);
        s.push(digit(n % 10));
        s
    }
}

/// The decimal numeral of `n`.
pub fn decimal_string(n: usize) -> (s: String)
    ensures
        s@ == decimal(n as nat),
{
    decimal_u64(n as u64)
}

/// The characters of `s`, in order.
pub fn chars_of(s: &str) -> (v: Vec<char>)
    ensures
        v@ == s@,
{
    let mut v: Vec<char> = Vec::new();
    for c in it: s.chars()
        invariant
            v@ == s@.take(it.index() as int),
            it.seq() == s@,
    {
        v.push(c);
        assert(v@ =~= s@.take(it.index() as int + 1));
    }
    assert(v@ =~= s@);
    v
}

fn matches_at(s: &Vec<char>, at: usize, pattern: &Vec<char>) -> (b: bool)
    requires
        at + pattern@.len() <= s@.len(),
    ensures
        b == (s@.subrange(at as int, at + pattern@.len()) == pattern@),
{
    let n: usize = s.len();
    let mut i: usize = 0;
    while i < pattern.len()
        invariant
            i <= pattern@.len(),
            n == s@.len(),
            at + pattern@.len() <= n,
            forall|j: int| 0 <= j < i ==> s@[at + j] == pattern@[j],
        decreases pattern@.len() - i,
    {
        if s[at + i] != pattern[i] {
            assert(s@.subrange(at as int, at + pattern@.len())[i as int] != pattern@[i as int]);
            return false;
        }
        i = i + 1;
    }
    assert(s@.subrange(at as int, at + pattern@.len()) =~= pattern@);
    true
}

/// Replaces every occurrence of `pattern` in `text` by `with`.
pub fn replace_text(text: &str, pattern: &str, with: &str) -> (out: String)
    requires
        pattern@.len() > 0,
    ensures
        out@ == replaced(text@, pattern@, with@),
{
    let s: Vec<char> = chars_of(text);
    let p: Vec<char> = chars_of(pattern);
    let mut out = String::new();
    let mut i: usize = 0;
    proof {
        assert(s@.skip(0) =~= s@);
        assert(out@ + replaced(s@.skip(0), p@, with@) =~= replaced(text@, pattern@, with@));
    }
    while i < s.len()
        invariant
            i <= s@.len(),
            s@ == text@,
            p@ == pattern@,
            p@.len() > 0,
            out@ + replaced(s@.skip(i as int), p@, with@) == replaced(text@, pattern@, with@),
        decreases s@.len() - i,
    {
        let ghost before = out@;
        let ghost rest = s@.skip(i as int);
        if p.len() <= s.len() - i && matches_at(&s, i, &p) {
            proof {
                assert(rest.take(p@.len() as int) =~= s@.subrange(i as int, i + p@.len()));
                assert(rest.skip(p@.len() as int) =~= s@.skip(i + p@.len()));
            }
            out.append(with);
            i = i + p.len();
            proof {
                assert(out@ + replaced(s@.skip(i as int), p@, with@) =~= before + replaced(
                    rest,
                    p@,
                    with@,
                ));
            }
        } else {
            proof {
                if p@.len() <= rest.len() {
                    assert(rest.take(p@.len() as int) =~= s@.subrange(i as int, i + p@.len()));
                    assert(rest.skip(1) =~= s@.skip(i + 1));
                } else {
                    assert(rest.skip(1) =~= s@.skip(i + 1));
                    assert(seq![rest[0]] + rest.skip(1) =~= rest);
                }
            }
            out.push(s[i]);
            i = i + 1;
            proof {
                assert(out@ + replaced(s@.skip(i as int), p@, with@) =~= before + replaced(
                    rest,
                    p@,
                    with@,
                ));
            }
        }
    }
    proof {
        assert(s@.skip(i as int) =~= Seq::<char>::empty());
        assert(out@ + Seq::<char>::empty() =~= out@);
    }
    out
}

/// Puts the numeral of `n` in place of every `placeholder` of `text`.
pub fn fill(text: &str, placeholder: &str, n: usize) -> (out: String)
    requires
        placeholder@.len() > 0,
    ensures
        out@ == filled(text@, placeholder@, n as nat),
{
    let numeral = decimal_string(n);
    replace_text(text, placeholder, numeral.as_str())
}

/// Whether two strings are the same.
pub fn text_eq(a: &str, b: &str) -> (r: bool)
    ensures
        r == (a@ == b@),
{
    let x = a.as_bytes();
    let y = b.as_bytes();
    if x.len() != y.len() {
        return false;
    }
    let mut i: usize = 0;
    while i < x.len()
        invariant
            i <= x@.len(),
            x@.len() == y@.len(),
            x@ == vstd::utf8::encode_utf8(a@),
            y@ == vstd::utf8::encode_utf8(b@),
            forall|j: int| 0 <= j < i ==> x@[j] == y@[j],
        decreases x@.len() - i,
    {
        if x[i] != y[i] {
            return false;
        }
        i = i + 1;
    }
    proof {
        assert(x@ =~= y@);
        vstd::utf8::encode_utf8_decode_utf8(a@);
        vstd::utf8::encode_utf8_decode_utf8(b@);
    }
    true
}

/// `s` begins with `prefix`.
pub open spec fn begins(s: Seq<char>, prefix: Seq<char>) -> bool {
    prefix.len() <= s.len() && s.take(prefix.len() as int) == prefix
}

/// `s` ends with `suffix`.
pub open spec fn ends(s: Seq<char>, suffix: Seq<char>) -> bool {
    suffix.len() <= s.len() && s.skip(s.len() - suffix.len()) == suffix
}

/// `part` stands somewhere in `s`.
pub open spec fn holds(s: Seq<char>, part: Seq<char>) -> bool {
    exists|i: int| #[trigger] stands_at(s, i, part)
}

/// `part` stands in `s` from place `i` on.
pub open spec fn stands_at(s: Seq<char>, i: int, part: Seq<char>) -> bool {
    0 <= i && i + part.len() <= s.len() && s.subrange(i, i + part.len()) == part
}

/// Whether `s` begins with `prefix`.
pub fn begins_with(s: &str, prefix: &str) -> (r: bool)
    ensures
        r == begins(s@, prefix@),
{
    let v = chars_of(s);
    let p = chars_of(prefix);
    if p.len() > v.len() {
        return false;
    }
    assert(v@.subrange(0, p@.len() as int) =~= v@.take(p@.len() as int));
    matches_at(&v, 0, &p)
}

/// Whether `s` ends with `suffix`.
pub fn ends_with(s: &str, suffix: &str) -> (r: bool)
    ensures
        r == ends(s@, suffix@),
{
    let v = chars_of(s);
    let p = chars_of(suffix);
    if p.len() > v.len() {
        return false;
    }
    let start: usize = v.len() - p.len();
    assert(v@.subrange(start as int, start + p@.len()) =~= v@.skip(start as int));
    matches_at(&v, start, &p)
}

/// Whether `part` stands somewhere in `s`.
pub fn contains_text(s: &str, part: &str) -> (r: bool)
    ensures
        r == holds(s@, part@),
{
    let v = chars_of(s);
    let p = chars_of(part);
    if p.len() > v.len() {
        return false;
    }
    let mut i: usize = 0;
    let last: usize = v.len() - p.len();
    while i <= last
        invariant
            i <= last + 1,
            last + p@.len() == v@.len(),
            v@ == s@,
            p@ == part@,
            v@.len() <= usize::MAX,
            forall|j: int| 0 <= j < i ==> !stands_at(s@, j, part@),
        decreases last + 1 - i,
    {
        if matches_at(&v, i, &p) {
            assert(stands_at(s@, i as int, part@));
            return true;
        }
        assert(!stands_at(s@, i as int, part@));
        if i == last {
            assert forall|j: int| !stands_at(s@, j, part@) by {}
            return false;
        }
        i = i + 1;
    }
    false
}

/// The characters of `v` from `from` up to `to`.
pub fn substring(v: &Vec<char>, from: usize, to: usize) -> (s: String)
    requires
        from <= to <= v@.len(),
    ensures
        s@ == v@.subrange(from as int, to as int),
{
    let mut s = String::new();
    let mut i: usize = from;
    assert(s@ =~= v@.subrange(from as int, from as int));
    while i < to
        invariant
            from <= i <= to <= v@.len(),
            s@ == v@.subrange(from as int, i as int),
        decreases to - i,
    {
        s.push(v[i]);
        i = i + 1;
        assert(s@ =~= v@.subrange(from as int, i as int));
    }
    s
}

/// The first place at or after `from` where `c` stands.
pub open spec fn first_char(s: Seq<char>, c: char, from: int) -> Option<int>
    decreases s.len() - from,
{
    if from < 0 || from >= s.len() {
        None
    } else if s[from] == c {
        Some(from)
    } else {
        first_char(s, c, from + 1)
    }
}

/// The first place at or after `from` where `c` stands.
pub fn find_char(v: &Vec<char>, c: char, from: usize) -> (r: Option<usize>)
    requires
        from <= v@.len(),
    ensures
        match first_char(v@, c, from as int) {
            Some(i) => r matches Some(k) && k == i && from <= k < v@.len() && v@[i] == c,
            None => r is None,
        },
{
    let mut i: usize = from;
    while i < v.len()
        invariant
            from <= i <= v@.len(),
            first_char(v@, c, from as int) == first_char(v@, c, i as int),
        decreases v@.len() - i,
    {
        if v[i] == c {
            return Some(i);
        }
        i = i + 1;
    }
    None
}

/// `a` followed by `b`.
pub fn concat(a: &str, b: &str) -> (s: String)
    ensures
        s@ == a@ + b@,
{
    let mut s = a.to_owned();
    s.append(b);
    s
}

/// An integer in decimal.
pub open spec fn signed_decimal(n: int) -> Seq<char> {
    if n < 0 {
        "-"@ + decimal((-n) as nat)
    } else {
        decimal(n as nat)
    }
}

/// An integer in decimal.
pub fn signed_string(n: i64) -> (s: String)
    ensures
        s@ == signed_decimal(n as int),
{
    if n < 0 {
        let magnitude: u64 = (-(n + 1)) as u64 + 1;
        concat("-", decimal_u64(magnitude).as_str())
    } else {
        decimal_u64(n as u64)
    }
}

} // verus!
