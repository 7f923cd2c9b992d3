//! Conversions between strings and character vectors, on which the scanners
//! of this crate work.

use vstd::prelude::*;

verus! {

/// Trusted, of `std`: `String::push` appends one character to the string.
pub assume_specification[ String::push ](s: &mut String, c: char)
    ensures
        final(s)@ == old(s)@.push(c),
;

/// The character sequences that a sequence of strings stands for.
pub open spec fn texts(strings: Seq<String>) -> Seq<Seq<char>> {
    Seq::new(strings.len(), |i: int| strings[i]@)
}

/// The character sequences that a sequence of character vectors stands for.
pub open spec fn words(vectors: Seq<Vec<char>>) -> Seq<Seq<char>> {
    Seq::new(vectors.len(), |i: int| vectors[i]@)
}

/// The characters of `s`, in order.
pub fn to_chars(s: &str) -> (v: Vec<char>)
    ensures
        v@ == s@,
{
    let mut v: Vec<char> = Vec::new();
    for c in it: s.chars()
        invariant
            it.seq() == s@,
            v@ == s@.take(it.index()),
    {
        v.push(c);
    }
    v
}

/// The string made of the characters of `v`, in order.
pub fn from_chars(v: &Vec<char>) -> (s: String)
    ensures
        s@ == v@,
{
    let mut s = String::new();
    let mut i: usize = 0;
    while i < v.len()
        invariant
            i <= v.len(),
            s@ == v@.take(i as int),
        decreases v.len() - i,
    {
        s.push(v[i]);
        i += 1;
    }
    s
}

/// Appends the characters of `more` to `out`.
pub fn append_chars(out: &mut Vec<char>, more: &Vec<char>)
    ensures
        final(out)@ == old(out)@ + more@,
{
    let mut i: usize = 0;
    while i < more.len()
        invariant
            i <= more.len(),
            out@ == old(out)@ + more@.take(i as int),
        decreases more.len() - i,
    {
        out.push(more[i]);
        i += 1;
    }
}

/// Whether `text[from..to]` spells `word`.
pub fn slice_spells(text: &Vec<char>, from: usize, to: usize, word: &Vec<char>) -> (same: bool)
    requires
        from <= to <= text.len(),
    ensures
        same == (text@.subrange(from as int, to as int) == word@),
{
    if to - from != word.len() {
        return false;
    }
    let mut i: usize = 0;
    while i < word.len()
        invariant
            from <= to <= text.len(),
            to - from == word.len(),
            i <= word.len(),
            forall|j: int| 0 <= j < i ==> text@[from + j] == word@[j],
        decreases word.len() - i,
    {
        if text[from + i] != word[i] {
            assert(text@.subrange(from as int, to as int)[i as int] != word@[i as int]);
            return false;
        }
        i += 1;
    }
    assert(text@.subrange(from as int, to as int) =~= word@);
    true
}

/// The character of a decimal digit.
pub open spec fn digit_char(d: nat) -> char
    recommends
        d < 10,
{
    (48 + d) as u8 as char
}

/// A number in decimal, without sign or leading zeros.
pub open spec fn decimal(n: nat) -> Seq<char>
    decreases n,
{
    if n < 10 {
        seq![digit_char(n)]
    } else {
        decimal(n / 10).push(digit_char(n % 10))
    }
}

/// Writes `n` in decimal.
pub fn decimal_chars(n: u128) -> (digits: Vec<char>)
    ensures
        digits@ == decimal(n as nat),
{
    let mut reversed: Vec<char> = Vec::new();
    let mut rest: u128 = n;
    assert(decimal(n as nat) + reversed@.reverse() =~= decimal(n as nat));
    while rest >= 10
        invariant
            decimal(n as nat) == decimal(rest as nat) + reversed@.reverse(),
        decreases rest,
    {
        let d: u8 = (rest % 10) as u8;
        let ghost before = reversed@;
        let ghost c = digit_char((rest % 10) as nat);
        reversed.push((48 + d) as char);
        assert(reversed@.reverse() =~= seq![c] + before.reverse());
        assert(decimal((rest / 10) as nat).push(c) + before.reverse() =~= decimal(
            (rest / 10) as nat,
        ) + reversed@.reverse());
        rest = rest / 10;
    }
    let mut digits: Vec<char> = Vec::new();
    digits.push((48 + rest as u8) as char);
    let mut i: usize = reversed.len();
    assert(digits@ =~= decimal(rest as nat) + reversed@.reverse().take(0));
    while i > 0
        invariant
            i <= reversed.len(),
            digits@ == decimal(rest as nat) + reversed@.reverse().take(reversed.len() - i),
        decreases i,
    {
        i -= 1;
        let ghost before = digits@;
        digits.push(reversed[i]);
        assert(reversed@.reverse().take(reversed.len() - i) =~= reversed@.reverse().take(
            reversed.len() - i - 1,
        ).push(reversed@[i as int]));
        assert(digits@ =~= decimal(rest as nat) + reversed@.reverse().take(reversed.len() - i));
    }
    assert(reversed@.reverse().take(reversed.len() as int) =~= reversed@.reverse());
    digits
}

/// Whether two strings hold the same characters.
pub fn same_text(a: &str, b: &str) -> (same: bool)
    ensures
        same == (a@ == b@),
{
    let left = to_chars(a);
    let right = to_chars(b);
    let same = slice_spells(&left, 0, left.len(), &right);
    assert(left@.subrange(0, left.len() as int) =~= left@);
    same
}

/// Whether `text` begins with `prefix`.
pub fn begins_with(text: &str, prefix: &str) -> (begins: bool)
    ensures
        begins == (prefix@.len() <= text@.len() && text@.take(prefix@.len() as int) == prefix@),
{
    let left = to_chars(text);
    let right = to_chars(prefix);
    if right.len() > left.len() {
        return false;
    }
    slice_spells(&left, 0, right.len(), &right)
}

/// A copy of `text[from..to]`.
pub fn copy_slice(text: &Vec<char>, from: usize, to: usize) -> (word: Vec<char>)
    requires
        from <= to <= text.len(),
    ensures
        word@ == text@.subrange(from as int, to as int),
{
    let mut word: Vec<char> = Vec::new();
    let mut i: usize = from;
    while i < to
        invariant
            from <= i <= to <= text.len(),
            word@ == text@.subrange(from as int, i as int),
        decreases to - i,
    {
        word.push(text[i]);
        assert(text@.subrange(from as int, i as int).push(text@[i as int]) =~= text@.subrange(
            from as int,
            i + 1,
        ));
        i += 1;
    }
    word
}

/// Whether one of `list` spells `text[from..to]`.
pub fn any_spells(list: &Vec<Vec<char>>, text: &Vec<char>, from: usize, to: usize) -> (found: bool)
    requires
        from <= to <= text.len(),
    ensures
        found == words(list@).contains(text@.subrange(from as int, to as int)),
{
    let ghost word = text@.subrange(from as int, to as int);
    let mut i: usize = 0;
    while i < list.len()
        invariant
            from <= to <= text.len(),
            i <= list.len(),
            word == text@.subrange(from as int, to as int),
            forall|j: int| 0 <= j < i ==> (#[trigger] words(list@)[j]) != word,
        decreases list.len() - i,
    {
        if slice_spells(text, from, to, &list[i]) {
            assert(words(list@)[i as int] == word);
            return true;
        }
        i += 1;
    }
    false
}

/// The strings that the character vectors of `list` spell.
pub fn strings_of(list: &Vec<Vec<char>>) -> (out: Vec<String>)
    ensures
        texts(out@) == words(list@),
{
    let mut out: Vec<String> = Vec::new();
    let mut i: usize = 0;
    while i < list.len()
        invariant
            i <= list.len(),
            out.len() == i,
            forall|j: int| 0 <= j < i ==> (#[trigger] out[j])@ == list[j]@,
        decreases list.len() - i,
    {
        out.push(from_chars(&list[i]));
        i += 1;
    }
    assert(texts(out@) =~= words(list@));
    out
}

/// A copy of a list of strings.
pub fn copy_strings(list: &Vec<String>) -> (copy: Vec<String>)
    ensures
        texts(copy@) == texts(list@),
{
    let mut copy: Vec<String> = Vec::new();
    let mut i: usize = 0;
    while i < list.len()
        invariant
            i <= list.len(),
            copy.len() == i,
            forall|j: int| 0 <= j < i ==> (#[trigger] copy[j])@ == list[j]@,
        decreases list.len() - i,
    {
        copy.push(list[i].clone());
        i += 1;
    }
    assert(texts(copy@) =~= texts(list@));
    copy
}

} // verus!
