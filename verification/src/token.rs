//! Constraint tokens: three wire indices written as `(A|B|C)`.

use crate::decimal::{all_digits, decimal_value, is_digit, lemma_decimal_value_prefix};
use crate::error::Error;
use vstd::prelude::*;
use vstd::string::*;

verus! {

/// Whether `c` is one of the two parenthesis characters.
pub open spec fn is_paren(c: char) -> bool {
    c == '(' || c == ')'
}

/// `s` without the parenthesis characters that it starts with.
pub open spec fn trim_start(s: Seq<char>) -> Seq<char>
    decreases s.len(),
{
    if s.len() > 0 && is_paren(s[0]) {
        trim_start(s.drop_first())
    } else {
        s
    }
}

/// `s` without the parenthesis characters that it ends with.
pub open spec fn trim_end(s: Seq<char>) -> Seq<char>
    decreases s.len(),
{
    if s.len() > 0 && is_paren(s.last()) {
        trim_end(s.drop_last())
    } else {
        s
    }
}

/// `s` without the parenthesis characters around it.
pub open spec fn strip_parens(s: Seq<char>) -> Seq<char> {
    trim_end(trim_start(s))
}

/// The fields of `s`: the runs of characters between its `|` characters, in
/// order. A string with `n` bars has `n + 1` fields, some of them maybe empty.
pub open spec fn fields(s: Seq<char>) -> Seq<Seq<char>>
    decreases s.len(),
{
    if s.len() == 0 {
        seq![Seq::empty()]
    } else {
        let before = fields(s.drop_last());
        if s.last() == '|' {
            before.push(Seq::empty())
        } else {
            before.update(before.len() - 1, before.last().push(s.last()))
        }
    }
}

/// The wire index that a run of digits denotes: at least one digit, nothing
/// but digits, the whole no greater than `u32::MAX`.
pub open spec fn digits_index(digits: Seq<char>) -> Option<u32> {
    if digits.len() > 0 && all_digits(digits) && decimal_value(digits) <= u32::MAX {
        Some(decimal_value(digits) as u32)
    } else {
        None
    }
}

/// The wire index that a field denotes: an optional `+`, then a run of digits
/// that denotes a wire index. Any other field denotes none.
pub open spec fn field_index(f: Seq<char>) -> Option<u32> {
    if f.len() > 0 && f[0] == '+' {
        digits_index(f.drop_first())
    } else {
        digits_index(f)
    }
}

/// The triple that a token denotes: the token without the parentheses around
/// it has exactly three fields, and each of them denotes a wire index.
pub open spec fn constraint_of(token: Seq<char>) -> Option<(u32, u32, u32)> {
    let f = fields(strip_parens(token));
    if f.len() == 3 && field_index(f[0]) is Some && field_index(f[1]) is Some && field_index(
        f[2],
    ) is Some {
        Some((field_index(f[0])->0, field_index(f[1])->0, field_index(f[2])->0))
    } else {
        None
    }
}

/// Where the first `k` characters of `s` are parentheses and the next is
/// none, `s` without the parentheses that it starts with is what follows the
/// first `k`.
proof fn lemma_trim_start(s: Seq<char>, k: int)
    requires
        0 <= k <= s.len(),
        forall|i: int| 0 <= i < k ==> is_paren(#[trigger] s[i]),
        k < s.len() ==> !is_paren(s[k]),
    ensures
        trim_start(s) == s.skip(k),
    decreases k,
{
    if k == 0 {
        assert(s.skip(0) =~= s);
    } else {
        let t = s.drop_first();
        assert forall|i: int| 0 <= i < k - 1 implies is_paren(#[trigger] t[i]) by {
            assert(t[i] == s[i + 1]);
        }
        lemma_trim_start(t, k - 1);
        assert(t.skip(k - 1) =~= s.skip(k));
    }
}

/// Where the characters of `s` from the `k`-th on are parentheses and the one
/// before is none, `s` without the parentheses that it ends with is its first
/// `k` characters.
proof fn lemma_trim_end(s: Seq<char>, k: int)
    requires
        0 <= k <= s.len(),
        forall|i: int| k <= i < s.len() ==> is_paren(#[trigger] s[i]),
        k > 0 ==> !is_paren(s[k - 1]),
    ensures
        trim_end(s) == s.take(k),
    decreases s.len() - k,
{
    if k == s.len() {
        assert(s.take(k) =~= s);
    } else {
        let t = s.drop_last();
        lemma_trim_end(t, k);
        assert(t.take(k) =~= s.take(k));
    }
}

/// The characters of `s`.
fn chars_of(s: &str) -> (v: Vec<char>)
    ensures
        v@ == s@,
{
    let n = s.unicode_len();
    let mut v: Vec<char> = Vec::new();
    let mut i: usize = 0;
    while i < n
        invariant
            n == s@.len(),
            i <= n,
            v@ == s@.take(i as int),
        decreases n - i,
    {
        v.push(s.get_char(i));
        i = i + 1;
        assert(v@ =~= s@.take(i as int));
    }
    assert(s@.take(n as int) =~= s@);
    v
}

/// Whether `c` is one of the two parenthesis characters.
fn is_paren_char(c: char) -> (r: bool)
    ensures
        r == is_paren(c),
{
    c == '(' || c == ')'
}

/// The wire index that the field `f` denotes, if it denotes one.
fn parse_index(f: &Vec<char>) -> (r: Option<u32>)
    ensures
        r == field_index(f@),
{
    let n = f.len();
    let start: usize = if n > 0 && f[0] == '+' {
        1
    } else {
        0
    };
    let ghost digits = f@.skip(start as int);
    proof {
        if start == 1 {
            assert(digits =~= f@.drop_first());
        } else {
            assert(digits =~= f@);
        }
    }
    assert(field_index(f@) == digits_index(digits));
    if start == n {
        return None;
    }
    let mut acc: u64 = 0;
    let mut i: usize = start;
    while i < n
        invariant
            start <= i <= n,
            n == f@.len(),
            digits == f@.skip(start as int),
            field_index(f@) == digits_index(digits),
            all_digits(digits.take(i - start)),
            acc == decimal_value(digits.take(i - start)),
            acc <= u32::MAX,
        decreases n - i,
    {
        let c = f[i];
        let code: u32 = c as u32;
        if code < 48 || code > 57 {
            assert(!is_digit(digits[i - start]));
            return None;
        }
        let d: u64 = (code - 48) as u64;
        let next: u64 = acc * 10 + d;
        proof {
            let longer = digits.take(i - start + 1);
            assert(longer.drop_last() =~= digits.take(i - start));
            assert(longer.last() == c);
            assert(decimal_value(longer) == next);
            assert forall|j: int| 0 <= j < longer.len() implies is_digit(#[trigger] longer[j]) by {
                if j < i - start {
                    assert(digits.take(i - start)[j] == longer[j]);
                }
            }
        }
        if next > 0xffff_ffff {
            proof {
                lemma_decimal_value_prefix(digits, i - start + 1);
            }
            return None;
        }
        acc = next;
        i = i + 1;
    }
    assert(digits.take(n - start) =~= digits);
    Some(acc as u32)
}

/// The character sequences that the vectors of `v` hold.
spec fn views(v: Seq<Vec<char>>) -> Seq<Seq<char>> {
    Seq::new(v.len(), |j: int| v[j]@)
}

/// The fields of the characters of `chars` from `start` up to `end`.
fn split_fields(chars: &Vec<char>, start: usize, end: usize) -> (r: Vec<Vec<char>>)
    requires
        start <= end <= chars@.len(),
    ensures
        views(r@) == fields(chars@.subrange(start as int, end as int)),
{
    let ghost inner = chars@.subrange(start as int, end as int);
    let mut done: Vec<Vec<char>> = Vec::new();
    let mut current: Vec<char> = Vec::new();
    let mut i: usize = start;
    assert(inner.take(0) =~= Seq::<char>::empty());
    assert(views(done@).push(current@) =~= seq![Seq::<char>::empty()]);
    while i < end
        invariant
            start <= i <= end <= chars@.len(),
            inner == chars@.subrange(start as int, end as int),
            fields(inner.take(i - start)) == views(done@).push(current@),
        decreases end - i,
    {
        let c = chars[i];
        let ghost before = views(done@).push(current@);
        proof {
            let longer = inner.take(i - start + 1);
            assert(longer.drop_last() =~= inner.take(i - start));
            assert(longer.last() == c);
        }
        if c == '|' {
            done.push(current);
            current = Vec::new();
            assert(views(done@).push(current@) =~= before.push(Seq::empty()));
        } else {
            current.push(c);
            assert(views(done@).push(current@) =~= before.update(
                before.len() - 1,
                before.last().push(c),
            ));
        }
        i = i + 1;
    }
    let ghost before = views(done@).push(current@);
    done.push(current);
    assert(views(done@) =~= before);
    assert(inner.take(end - start) =~= inner);
    done
}

/// The triple of wire indices that the token `constraint` denotes. The token
/// is malformed where, without the parentheses around it, it does not fall
/// into exactly three fields that each denote a wire index.
pub fn parse_constraint(constraint: &str) -> (r: Result<(u32, u32, u32), Error>)
    ensures
        r == match constraint_of(constraint@) {
            Some(t) => Ok::<(u32, u32, u32), Error>(t),
            None => Err(Error::MalformedConstraint),
        },
{
    let chars = chars_of(constraint);
    let n = chars.len();
    let mut start: usize = 0;
    while start < n && is_paren_char(chars[start])
        invariant
            start <= n,
            n == chars@.len(),
            forall|i: int| 0 <= i < start ==> is_paren(#[trigger] chars@[i]),
        decreases n - start,
    {
        start = start + 1;
    }
    let mut end: usize = n;
    while end > start && is_paren_char(chars[end - 1])
        invariant
            start <= end <= n,
            n == chars@.len(),
            forall|i: int| end <= i < n ==> is_paren(#[trigger] chars@[i]),
        decreases end,
    {
        end = end - 1;
    }
    let ghost inner = chars@.subrange(start as int, end as int);
    proof {
        lemma_trim_start(chars@, start as int);
        let t = chars@.skip(start as int);
        assert forall|i: int| end - start <= i < t.len() implies is_paren(#[trigger] t[i]) by {
            assert(t[i] == chars@[i + start]);
        }
        lemma_trim_end(t, end - start);
        assert(t.take(end - start) =~= inner);
        assert(strip_parens(constraint@) == inner);
    }
    let done = split_fields(&chars, start, end);
    assert(views(done@).len() == done@.len());
    if done.len() != 3 {
        return Err(Error::MalformedConstraint);
    }
    let a = parse_index(&done[0]);
    let b = parse_index(&done[1]);
    let c = parse_index(&done[2]);
    assert(views(done@)[0] == done@[0]@ && views(done@)[1] == done@[1]@ && views(done@)[2]
        == done@[2]@);
    match (a, b, c) {
        (Some(a), Some(b), Some(c)) => Ok((a, b, c)),
        _ => Err(Error::MalformedConstraint),
    }
}

} // verus!
