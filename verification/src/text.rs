//! Lines of text: white space, words and prefixes.

use vstd::prelude::*;

verus! {

/// Whether `c` has the Unicode property White_Space.
pub open spec fn is_space(c: char) -> bool {
    let n = c as u32;
    ||| 0x09 <= n <= 0x0D
    ||| n == 0x20
    ||| n == 0x85
    ||| n == 0xA0
    ||| n == 0x1680
    ||| 0x2000 <= n <= 0x200A
    ||| n == 0x2028
    ||| n == 0x2029
    ||| n == 0x202F
    ||| n == 0x205F
    ||| n == 0x3000
}

/// The first position at or after `from` that holds no white space, or the
/// length of `s` where there is none.
pub open spec fn skip_spaces(s: Seq<char>, from: int) -> int
    decreases s.len() - from,
{
    if from < 0 || from >= s.len() {
        s.len() as int
    } else if is_space(s[from]) {
        skip_spaces(s, from + 1)
    } else {
        from
    }
}

/// The first position at or after `from` that holds white space, or the
/// length of `s` where there is none.
pub open spec fn skip_word(s: Seq<char>, from: int) -> int
    decreases s.len() - from,
{
    if from < 0 || from >= s.len() {
        s.len() as int
    } else if is_space(s[from]) {
        from
    } else {
        skip_word(s, from + 1)
    }
}

/// The `n`-th word of `s`, counting from 0: its `n`-th maximal run of
/// characters that are not white space.
pub open spec fn word(s: Seq<char>, n: nat) -> Option<Seq<char>> {
    word_from(s, 0, n)
}

/// The `n`-th word of `s` among those that start at or after `from`.
pub open spec fn word_from(s: Seq<char>, from: int, n: nat) -> Option<Seq<char>>
    decreases n,
{
    let start = skip_spaces(s, from);
    let end = skip_word(s, start);
    if start >= s.len() {
        None
    } else if n == 0 {
        Some(s.subrange(start, end))
    } else {
        word_from(s, end, (n - 1) as nat)
    }
}

/// Where the skipping of white space ends: between `from` and the end there
/// is white space only, and what follows is none.
pub proof fn lemma_skip_spaces(s: Seq<char>, from: int)
    requires
        0 <= from <= s.len(),
    ensures
        from <= skip_spaces(s, from) <= s.len(),
        forall|i: int| from <= i < skip_spaces(s, from) ==> is_space(#[trigger] s[i]),
        skip_spaces(s, from) < s.len() ==> !is_space(s[skip_spaces(s, from)]),
    decreases s.len() - from,
{
    if from < s.len() && is_space(s[from]) {
        lemma_skip_spaces(s, from + 1);
    }
}

/// Where the skipping of a word ends: between `from` and the end there is no
/// white space, and what follows is white space or the end of the text.
pub proof fn lemma_skip_word(s: Seq<char>, from: int)
    requires
        0 <= from <= s.len(),
    ensures
        from <= skip_word(s, from) <= s.len(),
        forall|i: int| from <= i < skip_word(s, from) ==> !is_space(#[trigger] s[i]),
        skip_word(s, from) < s.len() ==> is_space(s[skip_word(s, from)]),
    decreases s.len() - from,
{
    if from < s.len() && !is_space(s[from]) {
        lemma_skip_word(s, from + 1);
    }
}

/// A word is not empty and holds no white space.
pub proof fn lemma_word_shape(s: Seq<char>, n: nat)
    ensures
        word(s, n) matches Some(w) ==> w.len() > 0 && forall|i: int|
            0 <= i < w.len() ==> !is_space(#[trigger] w[i]),
{
    lemma_word_from_shape(s, 0, n);
}

proof fn lemma_word_from_shape(s: Seq<char>, from: int, n: nat)
    requires
        0 <= from <= s.len(),
    ensures
        word_from(s, from, n) matches Some(w) ==> w.len() > 0 && forall|i: int|
            0 <= i < w.len() ==> !is_space(#[trigger] w[i]),
    decreases n,
{
    lemma_skip_spaces(s, from);
    let start = skip_spaces(s, from);
    if start < s.len() {
        lemma_skip_word(s, start);
        let end = skip_word(s, start);
        if n == 0 {
            let w = s.subrange(start, end);
            assert forall|i: int| 0 <= i < w.len() implies !is_space(#[trigger] w[i]) by {
                assert(w[i] == s[start + i]);
            }
        } else {
            lemma_word_from_shape(s, end, (n - 1) as nat);
        }
    }
}

/// Whether `s` begins with `prefix`.
pub open spec fn starts_with(s: Seq<char>, prefix: Seq<char>) -> bool {
    prefix.len() <= s.len() && s.subrange(0, prefix.len() as int) == prefix
}

pub fn space(c: char) -> (r: bool)
    ensures
        r == is_space(c),
{
    let n: u32 = c as u32;
    (0x09 <= n && n <= 0x0D) || n == 0x20 || n == 0x85 || n == 0xA0 || n == 0x1680 || (0x2000 <= n
        && n <= 0x200A) || n == 0x2028 || n == 0x2029 || n == 0x202F || n == 0x205F || n == 0x3000
}

/// The characters of `s`, in order.
pub fn chars_of(s: &str) -> (r: Vec<char>)
    ensures
        r@ == s@,
{
    let mut out: Vec<char> = Vec::new();
    for c in it: s.chars()
        invariant
            it.seq() == s@,
            out@ == s@.take(it.index() as int),
    {
        assert(s@.take(it.index() + 1) == s@.take(it.index() as int).push(c));
        out.push(c);
    }
    out
}

/// Whether two texts hold the same characters.
pub fn same_text(a: &str, b: &str) -> (r: bool)
    ensures
        r == (a@ == b@),
{
    a.to_owned() == b.to_owned()
}

/// Whether `line` begins with `prefix`.
pub fn begins_with(line: &str, prefix: &str) -> (r: bool)
    ensures
        r == starts_with(line@, prefix@),
{
    let cs = chars_of(line);
    let ps = chars_of(prefix);
    if ps.len() > cs.len() {
        return false;
    }
    let mut i: usize = 0;
    while i < ps.len()
        invariant
            cs@ == line@,
            ps@ == prefix@,
            i <= ps.len() <= cs.len(),
            cs@.subrange(0, i as int) == ps@.subrange(0, i as int),
        decreases ps.len() - i,
    {
        if cs[i] != ps[i] {
            assert(cs@.subrange(0, ps.len() as int)[i as int] == cs@[i as int]);
            return false;
        }
        assert(cs@.subrange(0, i + 1) == cs@.subrange(0, i as int).push(cs@[i as int]));
        assert(ps@.subrange(0, i + 1) == ps@.subrange(0, i as int).push(ps@[i as int]));
        i += 1;
    }
    assert(ps@.subrange(0, ps.len() as int) == ps@);
    true
}

fn scan_spaces(cs: &Vec<char>, from: usize) -> (r: usize)
    requires
        from <= cs.len(),
    ensures
        r == skip_spaces(cs@, from as int),
        from <= r <= cs.len(),
{
    let mut i: usize = from;
    while i < cs.len() && space(cs[i])
        invariant
            from <= i <= cs.len(),
            skip_spaces(cs@, from as int) == skip_spaces(cs@, i as int),
        decreases cs.len() - i,
    {
        i += 1;
    }
    i
}

fn scan_word(cs: &Vec<char>, from: usize) -> (r: usize)
    requires
        from <= cs.len(),
    ensures
        r == skip_word(cs@, from as int),
        from <= r <= cs.len(),
{
    let mut i: usize = from;
    while i < cs.len() && !space(cs[i])
        invariant
            from <= i <= cs.len(),
            skip_word(cs@, from as int) == skip_word(cs@, i as int),
        decreases cs.len() - i,
    {
        i += 1;
    }
    i
}

/// The `n`-th word of `line`, counting from 0.
pub fn nth_word(line: &str, n: usize) -> (r: Option<String>)
    ensures
        match r {
            Some(w) => word(line@, n as nat) == Some(w@),
            None => word(line@, n as nat) is None,
        },
{
    let cs = chars_of(line);
    let mut from: usize = 0;
    let mut left: usize = n;
    loop
        invariant
            cs@ == line@,
            from <= cs.len(),
            left <= n,
            word(line@, n as nat) == word_from(line@, from as int, left as nat),
        decreases left,
    {
        let start = scan_spaces(&cs, from);
        if start >= cs.len() {
            return None;
        }
        let end = scan_word(&cs, start);
        if left == 0 {
            return Some(line.substring_char(start, end).to_owned());
        }
        from = end;
        left -= 1;
    }
}

} // verus!
