//! Text helpers shared by the rest of the crate: conversions between
//! strings and character vectors, joining, searching and decimal printing.

use vstd::prelude::*;

verus! {

/// Contract assumed for `String::push` of the standard library: the given
/// character is appended and nothing else changes.
pub assume_specification[ std::string::String::push ](s: &mut std::string::String, ch: char)
    ensures
        final(s)@ == old(s)@.push(ch),
;

/// Contract assumed for `String::pop` of the standard library: the last
/// character is removed and returned, or `None` comes back when the string
/// is empty, which then stays as it was.
pub assume_specification[ std::string::String::pop ](s: &mut std::string::String) -> (last: Option<
    char,
>)
    ensures
        old(s)@.len() == 0 ==> last is None && final(s)@ == old(s)@,
        old(s)@.len() > 0 ==> last == Some(old(s)@.last()) && final(s)@ == old(s)@.drop_last(),
;

/// The character sequences held by a sequence of strings.
pub open spec fn texts(strings: Seq<String>) -> Seq<Seq<char>> {
    Seq::new(strings.len(), |i: int| strings[i]@)
}

/// The character sequences held by a sequence of string slices.
pub open spec fn slice_texts(strings: Seq<&'static str>) -> Seq<Seq<char>> {
    Seq::new(strings.len(), |i: int| strings[i]@)
}

/// `parts` concatenated with `sep` between each two neighbours.
pub open spec fn join_spec(parts: Seq<Seq<char>>, sep: Seq<char>) -> Seq<char>
    decreases parts.len(),
{
    if parts.len() == 0 {
        Seq::empty()
    } else if parts.len() == 1 {
        parts[0]
    } else {
        join_spec(parts.drop_last(), sep) + sep + parts.last()
    }
}

/// Whether `needle` occurs in `hay` starting at position `at`.
pub open spec fn occurs_at(hay: Seq<char>, needle: Seq<char>, at: int) -> bool {
    &&& 0 <= at
    &&& at + needle.len() <= hay.len()
    &&& hay.subrange(at, at + needle.len()) == needle
}

/// Whether `needle` occurs somewhere in `hay` as a contiguous run.
pub open spec fn contains_spec(hay: Seq<char>, needle: Seq<char>) -> bool {
    exists|at: int| occurs_at(hay, needle, at)
}

/// The decimal digit for a value below ten.
pub open spec fn digit_spec(d: nat) -> char {
    if d == 0 {
        '0'
    } else if d == 1 {
        '1'
    } else if d == 2 {
        '2'
    } else if d == 3 {
        '3'
    } else if d == 4 {
        '4'
    } else if d == 5 {
        '5'
    } else if d == 6 {
        '6'
    } else if d == 7 {
        '7'
    } else if d == 8 {
        '8'
    } else {
        '9'
    }
}

/// The decimal notation of `n`, most significant digit first, without
/// leading zeros.
pub open spec fn decimal_spec(n: nat) -> Seq<char>
    decreases n,
{
    if n < 10 {
        seq![digit_spec(n)]
    } else {
        decimal_spec(n / 10).push(digit_spec(n % 10))
    }
}

/// The characters of `s`, in order.
pub fn chars_of(s: &str) -> (chars: Vec<char>)
    ensures
        chars@ == s@,
{
    let mut chars: Vec<char> = Vec::new();
    for c in it: s.chars()
        invariant
            it.seq() == s@,
            chars@ == it.seq().take(it.index() as int),
    {
        chars.push(c);
    }
    chars
}

/// The string made of `chars[from..to]`; positions past the end of `chars`
/// are cut off, and an empty range gives the empty string.
pub fn string_of(chars: &Vec<char>, from: usize, to: usize) -> (s: String)
    ensures
        from <= to <= chars.len() ==> s@ == chars@.subrange(from as int, to as int),
        to > chars.len() && from <= chars.len() ==> s@ == chars@.subrange(
            from as int,
            chars.len() as int,
        ),
        from > to || from > chars.len() ==> s@ == Seq::<char>::empty(),
{
    let end: usize = if to <= chars.len() {
        to
    } else {
        chars.len()
    };
    let mut s = String::new();
    if from > end {
        return s;
    }
    let mut i: usize = from;
    while i < end
        invariant
            from <= i <= end <= chars.len(),
            s@ == chars@.subrange(from as int, i as int),
        decreases end - i,
    {
        s.push(chars[i]);
        assert(chars@.subrange(from as int, i + 1) == chars@.subrange(from as int, i as int).push(
            chars@[i as int],
        ));
        i += 1;
    }
    s
}

/// Whether `a` and `b` hold the same characters.
pub fn same(a: &str, b: &str) -> (equal: bool)
    ensures
        equal == (a@ == b@),
{
    let left = chars_of(a);
    let right = chars_of(b);
    if left.len() != right.len() {
        return false;
    }
    let mut i: usize = 0;
    while i < left.len()
        invariant
            left@ == a@,
            right@ == b@,
            left.len() == right.len(),
            i <= left.len(),
            forall|k: int| 0 <= k < i ==> left@[k] == right@[k],
        decreases left.len() - i,
    {
        if left[i] != right[i] {
            assert(a@[i as int] != b@[i as int]);
            return false;
        }
        i += 1;
    }
    assert(left@ =~= right@);
    true
}

/// `a` followed by `b`.
pub fn append(a: &str, b: &str) -> (s: String)
    ensures
        s@ == a@ + b@,
{
    let mut s = String::new();
    for c in it: a.chars()
        invariant
            it.seq() == a@,
            s@ == it.seq().take(it.index() as int),
    {
        s.push(c);
    }
    assert(a@.take(a@.len() as int) == a@);
    for c in it: b.chars()
        invariant
            it.seq() == b@,
            s@ == a@ + it.seq().take(it.index() as int),
    {
        s.push(c);
        assert(a@ + b@.take(it.index() + 1) == (a@ + b@.take(it.index() as int)).push(c));
    }
    assert(b@.take(b@.len() as int) == b@);
    s
}

/// Joins `parts` with `sep` between each two neighbours.
pub fn join(parts: &Vec<String>, sep: &str) -> (s: String)
    ensures
        s@ == join_spec(texts(parts@), sep@),
{
    let mut s = String::new();
    let mut i: usize = 0;
    while i < parts.len()
        invariant
            i <= parts.len(),
            s@ == join_spec(texts(parts@).take(i as int), sep@),
        decreases parts.len() - i,
    {
        let ghost before = texts(parts@).take(i as int);
        let ghost after = texts(parts@).take(i + 1);
        assert(after.drop_last() == before);
        assert(after.last() == parts@[i as int]@);
        if i == 0 {
            s = append(s.as_str(), parts[i].as_str());
            assert(s@ == parts@[0]@);
        } else {
            s = append(s.as_str(), sep);
            s = append(s.as_str(), parts[i].as_str());
        }
        i += 1;
    }
    assert(texts(parts@).take(parts.len() as int) == texts(parts@));
    s
}

/// Whether `needle` is found in `hay` at position `at`.
fn matches_at(hay: &Vec<char>, needle: &Vec<char>, at: usize) -> (found: bool)
    requires
        at + needle.len() <= hay.len(),
    ensures
        found == occurs_at(hay@, needle@, at as int),
{
    let mut k: usize = 0;
    while k < needle.len()
        invariant
            k <= needle.len(),
            at + needle.len() <= hay.len(),
            forall|j: int| 0 <= j < k ==> hay@[at + j] == needle@[j],
        decreases needle.len() - k,
    {
        if hay[at + k] != needle[k] {
            assert(hay@.subrange(at as int, at + needle.len())[k as int] != needle@[k as int]);
            return false;
        }
        k += 1;
    }
    assert(hay@.subrange(at as int, at + needle.len()) =~= needle@);
    true
}

/// Whether `needle` occurs in `hay`. The empty needle occurs in every text.
pub fn contains(hay: &str, needle: &str) -> (found: bool)
    ensures
        found == contains_spec(hay@, needle@),
{
    let hay_chars = chars_of(hay);
    let needle_chars = chars_of(needle);
    if needle_chars.len() > hay_chars.len() {
        return false;
    }
    let last: usize = hay_chars.len() - needle_chars.len();
    let mut at: usize = 0;
    loop
        invariant
            hay_chars@ == hay@,
            needle_chars@ == needle@,
            last == hay_chars.len() - needle_chars.len(),
            at <= last,
            forall|i: int| 0 <= i < at ==> !occurs_at(hay@, needle@, i),
        decreases last - at,
    {
        if matches_at(&hay_chars, &needle_chars, at) {
            return true;
        }
        if at == last {
            return false;
        }
        at += 1;
    }
}

/// The decimal digit for `d`; values of ten and more give `'9'`.
fn digit(d: usize) -> (c: char)
    ensures
        c == digit_spec(d as nat),
{
    if d == 0 {
        '0'
    } else if d == 1 {
        '1'
    } else if d == 2 {
        '2'
    } else if d == 3 {
        '3'
    } else if d == 4 {
        '4'
    } else if d == 5 {
        '5'
    } else if d == 6 {
        '6'
    } else if d == 7 {
        '7'
    } else if d == 8 {
        '8'
    } else {
        '9'
    }
}

/// Appends the decimal notation of `n` to `s`.
fn push_decimal(s: &mut String, n: usize)
    ensures
        final(s)@ == old(s)@ + decimal_spec(n as nat),
    decreases n,
{
    if n < 10 {
        s.push(digit(n));
        assert(old(s)@.push(digit_spec(n as nat)) == old(s)@ + seq![digit_spec(n as nat)]);
    } else {
        push_decimal(s, n / 10);
        s.push(digit(n % 10));
        assert((old(s)@ + decimal_spec((n / 10) as nat)).push(digit_spec((n % 10) as nat))
            == old(s)@ + decimal_spec((n / 10) as nat).push(digit_spec((n % 10) as nat)));
    }
}

/// The decimal notation of `n`.
pub fn decimal(n: usize) -> (s: String)
    ensures
        s@ == decimal_spec(n as nat),
{
    let mut s = String::new();
    push_decimal(&mut s, n);
    assert(Seq::<char>::empty() + decimal_spec(n as nat) == decimal_spec(n as nat));
    s
}

} // verus!
