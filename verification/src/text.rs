//! Character-level building blocks: conversion between strings and character
//! vectors, scanning, splitting, trimming and joining.

use vstd::prelude::*;
use vstd::utf8::*;

verus! {

/// `String::push` of std, taken on trust: afterwards the string holds the
/// characters that it held, and after them `c`.
pub assume_specification[ String::push ](s: &mut String, c: char)
    ensures
        final(s)@ == old(s)@.push(c),
;

/// The characters of an optional string.
pub open spec fn opt_chars(s: Option<&str>) -> Option<Seq<char>> {
    match s {
        Some(s) => Some(s@),
        None => None,
    }
}

/// The characters of a string, in order.
pub fn chars_of(s: &str) -> (v: Vec<char>)
    ensures
        v@ == s@,
{
    let mut v: Vec<char> = Vec::new();
    for c in it: s.chars()
        invariant
            v@ == it.seq().take(it.index() as int),
            it.seq() == s@,
    {
        v.push(c);
    }
    v
}

/// The string made of the characters `v[from..to]`.
pub fn string_of_range(v: &Vec<char>, from: usize, to: usize) -> (s: String)
    requires
        from <= to <= v.len(),
    ensures
        s@ == v@.subrange(from as int, to as int),
{
    let mut s = String::new();
    let mut i: usize = from;
    while i < to
        invariant
            from <= i <= to <= v.len(),
            s@ == v@.subrange(from as int, i as int),
        decreases to - i,
    {
        s.push(v[i]);
        assert(v@.subrange(from as int, i + 1) == v@.subrange(from as int, i as int).push(
            v@[i as int],
        ));
        i = i + 1;
    }
    s
}

/// The string made of all the characters of `v`.
pub fn string_of(v: &Vec<char>) -> (s: String)
    ensures
        s@ == v@,
{
    let s = string_of_range(v, 0, v.len());
    assert(v@.subrange(0, v.len() as int) == v@);
    s
}

/// The characters `v[from..to]` as a vector of their own.
pub fn chars_in_range(v: &Vec<char>, from: usize, to: usize) -> (r: Vec<char>)
    requires
        from <= to <= v.len(),
    ensures
        r@ == v@.subrange(from as int, to as int),
{
    let mut r: Vec<char> = Vec::new();
    let mut i: usize = from;
    while i < to
        invariant
            from <= i <= to <= v.len(),
            r@ == v@.subrange(from as int, i as int),
        decreases to - i,
    {
        r.push(v[i]);
        assert(v@.subrange(from as int, i + 1) == v@.subrange(from as int, i as int).push(
            v@[i as int],
        ));
        i = i + 1;
    }
    r
}

/// Whether two strings hold the same characters.
pub fn str_eq(a: &str, b: &str) -> (r: bool)
    ensures
        r == (a@ == b@),
{
    let x = a.as_bytes();
    let y = b.as_bytes();
    proof {
        encode_utf8_decode_utf8(a@);
        encode_utf8_decode_utf8(b@);
        assert(x@ == encode_utf8(a@));
        assert(y@ == encode_utf8(b@));
    }
    if x.len() != y.len() {
        return false;
    }
    let mut i: usize = 0;
    while i < x.len()
        invariant
            i <= x.len(),
            x@.len() == y@.len(),
            x@ == encode_utf8(a@),
            y@ == encode_utf8(b@),
            forall|j: int| 0 <= j < i ==> x@[j] == y@[j],
        decreases x.len() - i,
    {
        if x[i] != y[i] {
            assert(x@ != y@);
            return false;
        }
        i = i + 1;
    }
    assert(x@ =~= y@);
    true
}

/// Whether two character sequences are the same.
pub fn chars_eq(a: &Vec<char>, b: &Vec<char>) -> (r: bool)
    ensures
        r == (a@ == b@),
{
    if a.len() != b.len() {
        return false;
    }
    let mut i: usize = 0;
    while i < a.len()
        invariant
            i <= a.len(),
            a@.len() == b@.len(),
            forall|j: int| 0 <= j < i ==> a@[j] == b@[j],
        decreases a.len() - i,
    {
        if a[i] != b[i] {
            return false;
        }
        i = i + 1;
    }
    assert(a@ =~= b@);
    true
}

/// The characters with the Unicode property White_Space.
pub open spec fn is_space(c: char) -> bool {
    let n = c as u32;
    ||| 0x09 <= n <= 0x0D
    ||| n == 0x20
    ||| n == 0x85
    ||| n == 0xA0
    ||| n == 0x1680
    ||| 0x2000 <= n <= 0x200A
    ||| n == 0x2028
    ||| n == 0x2029
    ||| n == 0x202F
    ||| n == 0x205F
    ||| n == 0x3000
}

/// Whether `c` is white space.
pub fn is_whitespace(c: char) -> (b: bool)
    ensures
        b == is_space(c),
{
    let n: u32 = c as u32;
    (0x09 <= n && n <= 0x0D) || n == 0x20 || n == 0x85 || n == 0xA0 || n == 0x1680 || (0x2000 <= n
        && n <= 0x200A) || n == 0x2028 || n == 0x2029 || n == 0x202F || n == 0x205F || n == 0x3000
}

/// A set of characters to scan for.
#[derive(Debug, Clone, Copy, PartialEq, Eq)]
pub enum CharClass {
    /// Exactly this character.
    Is(char),
    /// Any white space.
    Space,
    /// Anything but white space.
    NonSpace,
}

impl CharClass {
    /// Whether `c` belongs to the class.
    pub open spec fn holds(self, c: char) -> bool {
        match self {
            CharClass::Is(d) => c == d,
            CharClass::Space => is_space(c),
            CharClass::NonSpace => !is_space(c),
        }
    }

    /// Whether `c` belongs to the class.
    pub fn test(&self, c: char) -> (b: bool)
        ensures
            b == self.holds(c),
    {
        match self {
            CharClass::Is(d) => c == *d,
            CharClass::Space => is_whitespace(c),
            CharClass::NonSpace => !is_whitespace(c),
        }
    }
}

/// The index of the first character of `s` that belongs to `class`, or the
/// length of `s` when there is none.
pub open spec fn first_in(s: Seq<char>, class: CharClass) -> int
    decreases s.len(),
{
    if s.len() == 0 || class.holds(s[0]) {
        0
    } else {
        1 + first_in(s.drop_first(), class)
    }
}

/// `first_in` is the least index whose character belongs to the class.
pub proof fn lemma_first_in(s: Seq<char>, class: CharClass)
    ensures
        0 <= first_in(s, class) <= s.len(),
        forall|j: int| 0 <= j < first_in(s, class) ==> !class.holds(#[trigger] s[j]),
        first_in(s, class) < s.len() ==> class.holds(s[first_in(s, class)]),
    decreases s.len(),
{
    if s.len() == 0 || class.holds(s[0]) {
    } else {
        let t = s.drop_first();
        lemma_first_in(t, class);
        assert forall|j: int| 0 <= j < first_in(s, class) implies !class.holds(#[trigger] s[j]) by {
            if j > 0 {
                assert(s[j] == t[j - 1]);
            }
        }
    }
}

/// An index before which no character belongs to the class, and which holds one
/// that does or is the end of `s`, is `first_in`.
pub proof fn lemma_first_in_is(s: Seq<char>, class: CharClass, n: int)
    requires
        0 <= n <= s.len(),
        forall|j: int| 0 <= j < n ==> !class.holds(#[trigger] s[j]),
        n < s.len() ==> class.holds(s[n]),
    ensures
        first_in(s, class) == n,
    decreases n,
{
    if n == 0 {
    } else {
        let t = s.drop_first();
        assert(!class.holds(s[0]));
        assert forall|j: int| 0 <= j < n - 1 implies !class.holds(#[trigger] t[j]) by {
            assert(t[j] == s[j + 1]);
        }
        lemma_first_in_is(t, class, n - 1);
    }
}

/// The position at or after `from` of the first character in `class`; the
/// length of `s` when there is none.
pub fn find_first(s: &Vec<char>, from: usize, class: CharClass) -> (r: usize)
    requires
        from <= s.len(),
    ensures
        from <= r <= s.len(),
        r == from + first_in(s@.skip(from as int), class),
{
    let mut i: usize = from;
    while i < s.len() && !class.test(s[i])
        invariant
            from <= i <= s.len(),
            forall|j: int| from <= j < i ==> !class.holds(#[trigger] s@[j]),
        decreases s.len() - i,
    {
        i = i + 1;
    }
    proof {
        let t = s@.skip(from as int);
        assert forall|j: int| 0 <= j < i - from implies !class.holds(#[trigger] t[j]) by {
            assert(t[j] == s@[from + j]);
        }
        lemma_first_in_is(t, class, i - from);
    }
    i
}

/// The character sequences that the vectors of `v` hold, in order.
pub open spec fn rows(v: Seq<Vec<char>>) -> Seq<Seq<char>> {
    Seq::new(v.len(), |i: int| v[i]@)
}

/// The parts of `s` between the characters of `class`, each of which ends one
/// part and starts the next; a sequence without such a character is one part.
pub open spec fn pieces(s: Seq<char>, class: CharClass) -> Seq<Seq<char>>
    decreases s.len(),
{
    let n = first_in(s, class);
    if 0 <= n < s.len() {
        seq![s.take(n)] + pieces(s.skip(n + 1), class)
    } else {
        seq![s]
    }
}

/// There is at least one part, and no part holds a character of the class.
pub proof fn lemma_pieces_free(s: Seq<char>, class: CharClass)
    ensures
        pieces(s, class).len() >= 1,
        forall|i: int, j: int|
            0 <= i < pieces(s, class).len() && 0 <= j < pieces(s, class)[i].len() ==> !class.holds(
                #[trigger] pieces(s, class)[i][j],
            ),
    decreases s.len(),
{
    let n = first_in(s, class);
    lemma_first_in(s, class);
    if 0 <= n < s.len() {
        let rest = pieces(s.skip(n + 1), class);
        lemma_pieces_free(s.skip(n + 1), class);
        assert forall|i: int, j: int|
            0 <= i < pieces(s, class).len() && 0 <= j < pieces(s, class)[i].len()
            implies !class.holds(#[trigger] pieces(s, class)[i][j]) by {
            if i == 0 {
                assert(pieces(s, class)[0][j] == s[j]);
            } else {
                assert(pieces(s, class)[i] == rest[i - 1]);
            }
        }
    }
}

/// Splits `s` at every character of `class`.
pub fn split_by(s: &Vec<char>, class: CharClass) -> (r: Vec<Vec<char>>)
    ensures
        rows(r@) == pieces(s@, class),
{
    let mut out: Vec<Vec<char>> = Vec::new();
    let mut start: usize = 0;
    let mut done = false;
    assert(s@.skip(0) == s@);
    assert(rows(out@) + pieces(s@, class) =~= pieces(s@, class));
    while !done
        invariant
            start <= s.len(),
            !done ==> rows(out@) + pieces(s@.skip(start as int), class) == pieces(s@, class),
            done ==> rows(out@) == pieces(s@, class),
        decreases (if done { 0 } else { s.len() - start + 1 }),
    {
        let end = find_first(s, start, class);
        let piece = chars_in_range(s, start, end);
        let ghost before = rows(out@);
        let ghost rest = s@.skip(start as int);
        out.push(piece);
        proof {
            assert(rows(out@) =~= before.push(piece@));
            assert(piece@ == rest.take(end - start));
            if end < s.len() {
                assert(rest.skip(end - start + 1) == s@.skip(end + 1));
                assert(before.push(piece@) + pieces(s@.skip(end + 1), class) =~= before + pieces(
                    rest,
                    class,
                ));
            } else {
                assert(rest.take(end - start) == rest);
                assert(before.push(piece@) =~= before + pieces(rest, class));
            }
        }
        if end < s.len() {
            start = end + 1;
        } else {
            done = true;
        }
    }
    out
}

/// The sequences that hold at least one character.
pub open spec fn non_empty() -> spec_fn(Seq<char>) -> bool {
    |w: Seq<char>| w.len() > 0
}

/// The maximal runs of characters of `s` that are not white space.
pub open spec fn words(s: Seq<char>) -> Seq<Seq<char>> {
    pieces(s, CharClass::Space).filter(non_empty())
}

/// Every word holds at least one character, and none that is white space.
pub proof fn lemma_words(s: Seq<char>)
    ensures
        forall|i: int|
            0 <= i < words(s).len() ==> (#[trigger] words(s)[i]).len() > 0 && forall|j: int|
                0 <= j < words(s)[i].len() ==> !is_space(#[trigger] words(s)[i][j]),
{
    let parts = pieces(s, CharClass::Space);
    lemma_pieces_free(s, CharClass::Space);
    assert forall|i: int| 0 <= i < words(s).len() implies (#[trigger] words(s)[i]).len() > 0
        && forall|j: int| 0 <= j < words(s)[i].len() ==> !is_space(#[trigger] words(s)[i][j]) by {
        let w = words(s)[i];
        parts.lemma_filter_pred(non_empty(), i);
        assert(words(s).contains(w));
        parts.lemma_filter_contains_rev(non_empty(), w);
        let k = choose|k: int| 0 <= k < parts.len() && parts[k] == w;
        assert forall|j: int| 0 <= j < w.len() implies !is_space(#[trigger] w[j]) by {
            assert(!CharClass::Space.holds(parts[k][j]));
        }
    }
}

/// Splits `s` at white space into its words.
pub fn split_words(s: &Vec<char>) -> (r: Vec<Vec<char>>)
    ensures
        rows(r@) == words(s@),
{
    let mut all = split_by(s, CharClass::Space);
    let ghost parts = rows(all@);
    let mut out: Vec<Vec<char>> = Vec::new();
    let n = all.len();
    let mut i: usize = 0;
    while i < n
        invariant
            i <= n,
            n == all.len(),
            parts.len() == n,
            forall|j: int| i <= j < n ==> (#[trigger] all@[j])@ == parts[j],
            rows(out@) == parts.take(i as int).filter(non_empty()),
        decreases n - i,
    {
        let mut piece: Vec<char> = Vec::new();
        std::mem::swap(&mut piece, &mut all[i]);
        let ghost before = rows(out@);
        proof {
            assert(parts.take(i + 1) == parts.take(i as int).push(parts[i as int]));
            parts.take(i as int).lemma_filter_push(parts[i as int], non_empty());
        }
        if piece.len() > 0 {
            out.push(piece);
            assert(rows(out@) =~= before.push(piece@));
        }
        i = i + 1;
    }
    assert(parts.take(n as int) == parts);
    out
}

/// `s` without the white space at its end.
pub open spec fn trim_end(s: Seq<char>) -> Seq<char>
    decreases s.len(),
{
    if s.len() > 0 && is_space(s.last()) {
        trim_end(s.drop_last())
    } else {
        s
    }
}

/// `s` without the white space at its start and at its end.
pub open spec fn trimmed(s: Seq<char>) -> Seq<char> {
    trim_end(s.skip(first_in(s, CharClass::NonSpace)))
}

/// Removes the white space around `s`.
pub fn trim(s: &Vec<char>) -> (r: Vec<char>)
    ensures
        r@ == trimmed(s@),
{
    let start = find_first(s, 0, CharClass::NonSpace);
    assert(s@.skip(0) == s@);
    let mut end: usize = s.len();
    assert(s@.subrange(start as int, end as int) == s@.skip(start as int));
    while end > start && is_whitespace(s[end - 1])
        invariant
            start <= end <= s.len(),
            trim_end(s@.subrange(start as int, end as int)) == trimmed(s@),
        decreases end,
    {
        assert(s@.subrange(start as int, end as int).drop_last() == s@.subrange(
            start as int,
            end - 1,
        ));
        end = end - 1;
    }
    chars_in_range(s, start, end)
}

/// The parts put one after the other, with `sep` between each two.
pub open spec fn joined(parts: Seq<Seq<char>>, sep: char) -> Seq<char>
    decreases parts.len(),
{
    if parts.len() == 0 {
        Seq::empty()
    } else if parts.len() == 1 {
        parts[0]
    } else {
        joined(parts.drop_last(), sep).push(sep) + parts.last()
    }
}

/// Joining a first part and more parts: the first part, then `sep`, then the
/// other parts joined.
pub proof fn lemma_joined_first(first: Seq<char>, more: Seq<Seq<char>>, sep: char)
    requires
        more.len() > 0,
    ensures
        joined(seq![first] + more, sep) == first.push(sep) + joined(more, sep),
    decreases more.len(),
{
    let all = seq![first] + more;
    assert(all.drop_last() =~= seq![first] + more.drop_last());
    assert(all.last() == more.last());
    if more.len() == 1 {
        assert(all.drop_last() =~= seq![first]);
        assert(joined(seq![first], sep) == first);
        assert(joined(all, sep) =~= first.push(sep) + more[0]);
    } else {
        lemma_joined_first(first, more.drop_last(), sep);
        assert(joined(all, sep) =~= first.push(sep) + joined(more, sep));
    }
}

/// Splitting at a character and joining with it again gives the text that was
/// split.
pub proof fn lemma_joined_pieces(s: Seq<char>, sep: char)
    ensures
        joined(pieces(s, CharClass::Is(sep)), sep) == s,
    decreases s.len(),
{
    let class = CharClass::Is(sep);
    let n = first_in(s, class);
    lemma_first_in(s, class);
    if 0 <= n < s.len() {
        let rest = pieces(s.skip(n + 1), class);
        lemma_pieces_free(s.skip(n + 1), class);
        lemma_joined_pieces(s.skip(n + 1), sep);
        lemma_joined_first(s.take(n), rest, sep);
        assert(s.take(n).push(sep) + s.skip(n + 1) =~= s);
    }
}

/// Joins the parts from index `from` on, with `sep` between each two.
pub fn join_from(parts: &Vec<Vec<char>>, from: usize, sep: char) -> (r: Vec<char>)
    requires
        from <= parts.len(),
    ensures
        r@ == joined(rows(parts@).skip(from as int), sep),
{
    let mut out: Vec<char> = Vec::new();
    let mut i: usize = from;
    let ghost all = rows(parts@);
    while i < parts.len()
        invariant
            from <= i <= parts.len(),
            all == rows(parts@),
            out@ == joined(all.subrange(from as int, i as int), sep),
        decreases parts.len() - i,
    {
        if i > from {
            out.push(sep);
        }
        let ghost head = out@;
        let part = &parts[i];
        let mut j: usize = 0;
        while j < part.len()
            invariant
                j <= part.len(),
                out@ == head + part@.take(j as int),
            decreases part.len() - j,
        {
            out.push(part[j]);
            assert(part@.take(j + 1) == part@.take(j as int).push(part@[j as int]));
            j = j + 1;
        }
        proof {
            assert(part@.take(part.len() as int) == part@);
            let next = all.subrange(from as int, i + 1);
            assert(next.drop_last() == all.subrange(from as int, i as int));
            assert(next.last() == part@);
            if i == from {
                assert(out@ =~= part@);
            }
        }
        i = i + 1;
    }
    assert(all.subrange(from as int, parts.len() as int) == all.skip(from as int));
    out
}

/// Whether `pat` stands in `s` at index `i`.
pub open spec fn occurs_at(s: Seq<char>, pat: Seq<char>, i: int) -> bool {
    0 <= i && i + pat.len() <= s.len() && s.subrange(i, i + pat.len()) == pat
}

/// The least index at or after `i` at which `pat` stands in `s`.
pub open spec fn find_from(s: Seq<char>, pat: Seq<char>, i: int) -> Option<int>
    decreases s.len() - i + 1,
{
    if i < 0 || i + pat.len() > s.len() {
        None
    } else if occurs_at(s, pat, i) {
        Some(i)
    } else {
        find_from(s, pat, i + 1)
    }
}

/// The index of the first occurrence of `pat` in `s`.
pub open spec fn find(s: Seq<char>, pat: Seq<char>) -> Option<int> {
    find_from(s, pat, 0)
}

/// Whether `pat` stands in `s` at index `i`.
pub fn matches_at(s: &Vec<char>, pat: &Vec<char>, i: usize) -> (b: bool)
    requires
        i + pat.len() <= s.len(),
    ensures
        b == occurs_at(s@, pat@, i as int),
{
    let mut j: usize = 0;
    while j < pat.len()
        invariant
            j <= pat.len(),
            i + pat.len() <= s.len(),
            forall|k: int| 0 <= k < j ==> s@[i + k] == pat@[k],
        decreases pat.len() - j,
    {
        if s[i + j] != pat[j] {
            assert(s@.subrange(i as int, i + pat.len())[j as int] != pat@[j as int]);
            return false;
        }
        j = j + 1;
    }
    assert(s@.subrange(i as int, i + pat.len()) =~= pat@);
    true
}

/// Searches `s` for the first occurrence of `pat`.
pub fn find_chars(s: &Vec<char>, pat: &Vec<char>) -> (r: Option<usize>)
    ensures
        match r {
            Some(i) => find(s@, pat@) == Some(i as int) && i + pat.len() <= s.len(),
            None => find(s@, pat@) is None,
        },
{
    if pat.len() > s.len() {
        return None;
    }
    let last: usize = s.len() - pat.len();
    let mut i: usize = 0;
    loop
        invariant
            i <= last,
            last == s.len() - pat.len(),
            find(s@, pat@) == find_from(s@, pat@, i as int),
        decreases last - i,
    {
        if matches_at(s, pat, i) {
            return Some(i);
        }
        if i == last {
            assert(find_from(s@, pat@, i + 1) is None);
            return None;
        }
        i = i + 1;
    }
}

/// The character that stands for the digit `d`.
pub open spec fn digit_char(d: int) -> char {
    seq!['0', '1', '2', '3', '4', '5', '6', '7', '8', '9'][d]
}

/// The decimal notation of `n`, without leading zeros.
pub open spec fn decimal(n: nat) -> Seq<char>
    decreases n,
{
    if n < 10 {
        seq![digit_char(n as int)]
    } else {
        decimal(n / 10).push(digit_char((n % 10) as int))
    }
}

/// The character for a digit below ten.
pub fn digit(d: u32) -> (c: char)
    requires
        d < 10,
    ensures
        c == digit_char(d as int),
{
    if d == 0 {
        '0'
    } else if d == 1 {
        '1'
    } else if d == 2 {
        '2'
    } else if d == 3 {
        '3'
    } else if d == 4 {
        '4'
    } else if d == 5 {
        '5'
    } else if d == 6 {
        '6'
    } else if d == 7 {
        '7'
    } else if d == 8 {
        '8'
    } else {
        '9'
    }
}

/// Appends the decimal notation of `n` to `out`.
pub fn push_decimal(out: &mut String, n: u32)
    ensures
        final(out)@ == old(out)@ + decimal(n as nat),
    decreases n,
{
    if n >= 10 {
        push_decimal(out, n / 10);
    }
    out.push(digit(n % 10));
    proof {
        if n >= 10 {
            assert(final(out)@ =~= old(out)@ + decimal(n as nat));
        } else {
            assert(final(out)@ =~= old(out)@ + decimal(n as nat));
        }
    }
}

/// Whether `c` is one of the ten ASCII digits.
pub open spec fn is_digit(c: char) -> bool {
    48 <= c as u32 <= 57
}

/// Whether `s` holds ASCII digits only.
pub open spec fn all_digits(s: Seq<char>) -> bool {
    forall|i: int| 0 <= i < s.len() ==> is_digit(#[trigger] s[i])
}

/// The number that the digits of `s` denote in base ten.
pub open spec fn decimal_value(s: Seq<char>) -> nat
    decreases s.len(),
{
    if s.len() == 0 {
        0
    } else {
        decimal_value(s.drop_last()) * 10 + (s.last() as u32 - 48) as nat
    }
}

/// What `s` denotes as an unsigned 16-bit number: an optional `+`, then at
/// least one ASCII digit and nothing else, with a value of at most 65535.
pub open spec fn parse_u16(s: Seq<char>) -> Option<u16> {
    let d = if s.len() > 0 && s[0] == '+' {
        s.skip(1)
    } else {
        s
    };
    if d.len() > 0 && all_digits(d) && decimal_value(d) <= 0xFFFF {
        Some(decimal_value(d) as u16)
    } else {
        None
    }
}

/// The value of a sequence of digits is at least that of each of its prefixes.
pub proof fn lemma_decimal_value_prefix(s: Seq<char>, k: int)
    requires
        0 <= k <= s.len(),
        all_digits(s),
    ensures
        decimal_value(s.take(k)) <= decimal_value(s),
    decreases s.len() - k,
{
    if k == s.len() {
        assert(s.take(k) == s);
    } else {
        let t = s.drop_last();
        assert(is_digit(s.last()));
        if k == s.len() - 1 {
            assert(s.take(k) == t);
        } else {
            assert(t.take(k) == s.take(k));
            assert forall|i: int| 0 <= i < t.len() implies is_digit(#[trigger] t[i]) by {
                assert(t[i] == s[i]);
            }
            lemma_decimal_value_prefix(t, k);
        }
    }
}

/// Reads the characters of `s` from index `from` on as an unsigned 16-bit
/// number.
pub fn read_u16(s: &Vec<char>, from: usize) -> (r: Option<u16>)
    requires
        from <= s.len(),
    ensures
        r == parse_u16(s@.skip(from as int)),
{
    let ghost t = s@.skip(from as int);
    let mut start: usize = from;
    if start < s.len() && s[start] == '+' {
        start = start + 1;
    }
    let ghost d = s@.skip(start as int);
    assert(d == if t.len() > 0 && t[0] == '+' {
        t.skip(1)
    } else {
        t
    });
    let ghost goal = if d.len() > 0 && all_digits(d) && decimal_value(d) <= 0xFFFF {
        Some(decimal_value(d) as u16)
    } else {
        None
    };
    assert(parse_u16(t) == goal);
    if start == s.len() {
        return None;
    }
    let mut acc: u32 = 0;
    let mut i: usize = start;
    while i < s.len()
        invariant
            start <= i <= s.len(),
            d == s@.skip(start as int),
            d.len() > 0,
            parse_u16(s@.skip(from as int)) == goal,
            goal == if d.len() > 0 && all_digits(d) && decimal_value(d) <= 0xFFFF {
                Some(decimal_value(d) as u16)
            } else {
                None::<u16>
            },
            all_digits(d.take(i - start)),
            acc == decimal_value(d.take(i - start)),
            acc <= 0xFFFF,
        decreases s.len() - i,
    {
        let c = s[i];
        let n: u32 = c as u32;
        assert(d[i - start] == c);
        if n < 48 || n > 57 {
            assert(!is_digit(d[i - start]));
            return None;
        }
        let ghost next = d.take(i - start + 1);
        assert(next.drop_last() == d.take(i - start));
        assert(next.last() == c);
        assert forall|k: int| 0 <= k < next.len() implies is_digit(#[trigger] next[k]) by {
            if k < i - start {
                assert(next[k] == d.take(i - start)[k]);
            }
        }
        let value: u32 = acc * 10 + (n - 48);
        assert(decimal_value(next) == value);
        if value > 0xFFFF {
            proof {
                if all_digits(d) {
                    lemma_decimal_value_prefix(d, i - start + 1);
                }
            }
            return None;
        }
        acc = value;
        i = i + 1;
    }
    assert(d.take(i - start) == d);
    Some(acc as u16)
}

/// Appends the characters `more` to `out`.
pub fn push_chars(out: &mut Vec<char>, more: &Vec<char>)
    ensures
        final(out)@ == old(out)@ + more@,
{
    let mut k: usize = 0;
    assert(out@ =~= old(out)@ + more@.take(0));
    while k < more.len()
        invariant
            k <= more.len(),
            out@ == old(out)@ + more@.take(k as int),
        decreases more.len() - k,
    {
        out.push(more[k]);
        assert(more@.take(k + 1) == more@.take(k as int).push(more@[k as int]));
        assert(out@ =~= old(out)@ + more@.take(k + 1));
        k = k + 1;
    }
    assert(more@.take(more.len() as int) == more@);
}

/// Whether `s` starts with the character `c`.
pub fn starts_with(s: &Vec<char>, c: char) -> (b: bool)
    ensures
        b == (s@.len() > 0 && s@[0] == c),
{
    s.len() > 0 && s[0] == c
}

} // verus!
