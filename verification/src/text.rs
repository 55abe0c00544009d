//! Character-level helpers shared by the parsers of this crate.

use vstd::prelude::*;

verus! {

/// Whether `c` has the Unicode `White_Space` property.
pub open spec fn is_whitespace(c: char) -> bool {
    let n = c as u32;
    ||| 0x09 <= n <= 0x0D
    ||| n == 0x20
    ||| n == 0x85
    ||| n == 0xA0
    ||| n == 0x1680
    ||| 0x2000 <= n <= 0x200A
    ||| n == 0x2028
    ||| n == 0x2029
    ||| n == 0x202F
    ||| n == 0x205F
    ||| n == 0x3000
}

/// Decides [`is_whitespace`].
pub fn char_is_whitespace(c: char) -> (r: bool)
    ensures
        r == is_whitespace(c),
{
    let n: u32 = c as u32;
    (0x09 <= n && n <= 0x0D) || n == 0x20 || n == 0x85 || n == 0xA0 || n == 0x1680 || (0x2000 <= n
        && n <= 0x200A) || n == 0x2028 || n == 0x2029 || n == 0x202F || n == 0x205F || n == 0x3000
}

/// The characters of `s`, in order.
pub fn chars_of(s: &str) -> (v: Vec<char>)
    ensures
        v@ == s@,
{
    let mut v: Vec<char> = Vec::new();
    for c in it: s.chars()
        invariant
            it.seq() == s@,
            v@ == it.seq().take(it.index() as int),
    {
        v.push(c);
    }
    v
}

/// Whether two runs of characters hold the same text.
pub fn same_text(a: &[char], b: &[char]) -> (r: bool)
    ensures
        r == (a@ == b@),
{
    if a.len() != b.len() {
        return false;
    }
    let mut i: usize = 0;
    while i < a.len()
        invariant
            i <= a.len(),
            a.len() == b.len(),
            forall|j: int| 0 <= j < i ==> a@[j] == b@[j],
        decreases a.len() - i,
    {
        if a[i] != b[i] {
            return false;
        }
        i += 1;
    }
    assert(a@ =~= b@);
    true
}

/// `needle` stands in `hay` at index `at`.
pub open spec fn occurs_at(hay: Seq<char>, needle: Seq<char>, at: int) -> bool {
    &&& 0 <= at
    &&& at + needle.len() <= hay.len()
    &&& hay.subrange(at, at + needle.len()) == needle
}

/// `needle` stands somewhere in `hay`, as a run of consecutive characters.
pub open spec fn contains_text(hay: Seq<char>, needle: Seq<char>) -> bool {
    exists|at: int| occurs_at(hay, needle, at)
}

fn matches_at(hay: &[char], needle: &[char], at: usize) -> (r: bool)
    requires
        at + needle.len() <= hay.len(),
    ensures
        r == occurs_at(hay@, needle@, at as int),
{
    let mut k: usize = 0;
    while k < needle.len()
        invariant
            k <= needle.len(),
            at + needle.len() <= hay.len(),
            forall|j: int| 0 <= j < k ==> hay@[at + j] == needle@[j],
        decreases needle.len() - k,
    {
        if hay[at + k] != needle[k] {
            assert(hay@.subrange(at as int, at + needle@.len())[k as int] == hay@[at + k]);
            return false;
        }
        k += 1;
    }
    assert(hay@.subrange(at as int, at + needle@.len()) =~= needle@);
    true
}

/// Decides [`contains_text`].
pub fn contains(hay: &[char], needle: &[char]) -> (r: bool)
    ensures
        r == contains_text(hay@, needle@),
{
    if needle.len() > hay.len() {
        return false;
    }
    let last: usize = hay.len() - needle.len();
    let mut at: usize = 0;
    loop
        invariant
            at <= last,
            last == hay.len() - needle.len(),
            forall|j: int| 0 <= j < at ==> !occurs_at(hay@, needle@, j),
        decreases last - at,
    {
        if matches_at(hay, needle, at) {
            return true;
        }
        if at == last {
            return false;
        }
        at += 1;
    }
}

/// How many whitespace characters of `s` follow one another from index `from` on.
pub open spec fn whitespace_run(s: Seq<char>, from: int) -> nat
    decreases s.len() - from,
{
    if 0 <= from < s.len() && is_whitespace(s[from]) {
        1 + whitespace_run(s, from + 1)
    } else {
        0
    }
}

/// How many characters other than whitespace follow one another from index `from` on.
pub open spec fn word_run(s: Seq<char>, from: int) -> nat
    decreases s.len() - from,
{
    if 0 <= from < s.len() && !is_whitespace(s[from]) {
        1 + word_run(s, from + 1)
    } else {
        0
    }
}

/// Where the `n`-th whitespace-delimited field of `s` at or after `from` begins
/// and ends (counting from zero), or `None` where fewer fields are left.
pub open spec fn field_bounds(s: Seq<char>, from: int, n: nat) -> Option<(int, int)>
    decreases n,
{
    let start = from + whitespace_run(s, from);
    let end = start + word_run(s, start);
    if start == end {
        None
    } else if n == 0 {
        Some((start, end))
    } else {
        field_bounds(s, end, (n - 1) as nat)
    }
}

/// The `n`-th whitespace-delimited field of `s`, counting from zero.
pub open spec fn field(s: Seq<char>, n: nat) -> Option<Seq<char>> {
    match field_bounds(s, 0, n) {
        Some((start, end)) => Some(s.subrange(start, end)),
        None => None,
    }
}

fn skip_whitespace(s: &[char], from: usize) -> (r: usize)
    requires
        from <= s.len(),
    ensures
        r == from + whitespace_run(s@, from as int),
        r <= s.len(),
{
    let mut i: usize = from;
    while i < s.len() && char_is_whitespace(s[i])
        invariant
            from <= i <= s.len(),
            from + whitespace_run(s@, from as int) == i + whitespace_run(s@, i as int),
        decreases s.len() - i,
    {
        i += 1;
    }
    i
}

fn skip_word(s: &[char], from: usize) -> (r: usize)
    requires
        from <= s.len(),
    ensures
        r == from + word_run(s@, from as int),
        r <= s.len(),
{
    let mut i: usize = from;
    while i < s.len() && !char_is_whitespace(s[i])
        invariant
            from <= i <= s.len(),
            from + word_run(s@, from as int) == i + word_run(s@, i as int),
        decreases s.len() - i,
    {
        i += 1;
    }
    i
}

/// Finds the `n`-th whitespace-delimited field of `s`, counting from zero.
pub fn nth_field(s: &[char], n: usize) -> (r: Option<(usize, usize)>)
    ensures
        match field_bounds(s@, 0, n as nat) {
            Some((start, end)) => r == Some((start as usize, end as usize)) && 0 <= start < end
                <= s.len(),
            None => r is None,
        },
{
    let mut from: usize = 0;
    let mut left: usize = n;
    loop
        invariant
            from <= s.len(),
            left <= n,
            field_bounds(s@, 0, n as nat) == field_bounds(s@, from as int, left as nat),
        decreases left,
    {
        let start = skip_whitespace(s, from);
        let end = skip_word(s, start);
        if start == end {
            return None;
        }
        if left == 0 {
            return Some((start, end));
        }
        from = end;
        left -= 1;
    }
}

/// How many characters of `s` stand between index `from` and the next line feed.
pub open spec fn line_len(s: Seq<char>, from: int) -> nat
    decreases s.len() - from,
{
    if 0 <= from < s.len() && s[from] != '\n' {
        1 + line_len(s, from + 1)
    } else {
        0
    }
}

/// Finds the end of the line of `s` that begins at `from`.
pub fn line_end(s: &[char], from: usize) -> (r: usize)
    requires
        from <= s.len(),
    ensures
        r == from + line_len(s@, from as int),
        r <= s.len(),
{
    let mut i: usize = from;
    while i < s.len() && s[i] != '\n'
        invariant
            from <= i <= s.len(),
            from + line_len(s@, from as int) == i + line_len(s@, i as int),
        decreases s.len() - i,
    {
        i += 1;
    }
    i
}

} // verus!
