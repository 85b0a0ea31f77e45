//! Character-level helpers shared by the text parsers and report builders: whitespace
//! tokenisation, ASCII case folding, decimal rendering and `String` assembly.

use vstd::prelude::*;

verus! {

/// The Unicode `White_Space` property, which is what `char::is_whitespace` tests.
pub open spec fn is_space(c: char) -> bool {
    let u = c as u32;
    ||| 9 <= u <= 13
    ||| u == 32
    ||| u == 0x85
    ||| u == 0xA0
    ||| u == 0x1680
    ||| 0x2000 <= u <= 0x200A
    ||| u == 0x2028
    ||| u == 0x2029
    ||| u == 0x202F
    ||| u == 0x205F
    ||| u == 0x3000
}

/// Whether `c` is Unicode white space.
pub fn is_whitespace(c: char) -> (b: bool)
    ensures
        b == is_space(c),
{
    let u = c as u32;
    (9 <= u && u <= 13) || u == 32 || u == 0x85 || u == 0xA0 || u == 0x1680 || (0x2000 <= u && u
        <= 0x200A) || u == 0x2028 || u == 0x2029 || u == 0x202F || u == 0x205F || u == 0x3000
}

/// The maximal runs of non-space characters of `s[i..]`, where `cur` is the run already
/// started before position `i`.
pub open spec fn tokens_from(s: Seq<char>, i: int, cur: Seq<char>) -> Seq<Seq<char>>
    decreases s.len() - i,
{
    if i >= s.len() {
        if cur.len() > 0 {
            seq![cur]
        } else {
            seq![]
        }
    } else if is_space(s[i]) {
        (if cur.len() > 0 {
            seq![cur]
        } else {
            seq![]
        }) + tokens_from(s, i + 1, seq![])
    } else {
        tokens_from(s, i + 1, cur.push(s[i]))
    }
}

/// The white-space separated words of `s`, in order (what `str::split_whitespace` yields).
pub open spec fn tokens(s: Seq<char>) -> Seq<Seq<char>> {
    tokens_from(s, 0, seq![])
}

/// The characters of `text`, in order.
pub fn collect_chars(text: &str) -> (out: Vec<char>)
    ensures
        out@ == text@,
{
    let mut out: Vec<char> = Vec::new();
    for c in it: text.chars()
        invariant
            it.seq() == text@,
            out@ == it.seq().take(it.index() as int),
    {
        out.push(c);
    }
    out
}

/// Splits `cs` into its white-space separated words.
pub fn split_tokens(cs: &Vec<char>) -> (toks: Vec<Vec<char>>)
    ensures
        toks@.len() == tokens(cs@).len(),
        forall|k: int| 0 <= k < toks@.len() ==> #[trigger] toks@[k]@ == tokens(cs@)[k],
{
    let mut toks: Vec<Vec<char>> = Vec::new();
    let ghost mut seen: Seq<Seq<char>> = seq![];
    let mut cur: Vec<char> = Vec::new();
    let mut i: usize = 0;
    while i < cs.len()
        invariant
            0 <= i <= cs.len(),
            toks@.len() == seen.len(),
            forall|k: int| 0 <= k < toks@.len() ==> #[trigger] toks@[k]@ == seen[k],
            seen + tokens_from(cs@, i as int, cur@) == tokens(cs@),
        decreases cs.len() - i,
    {
        let c = cs[i];
        if is_whitespace(c) {
            let ghost before = seen;
            if cur.len() > 0 {
                proof {
                    seen = seen.push(cur@);
                }
                toks.push(cur);
            }
            assert(seen + tokens_from(cs@, i + 1, seq![]) =~= before + tokens_from(
                cs@,
                i as int,
                cur@,
            ));
            cur = Vec::new();
            assert(cur@ =~= seq![]);
        } else {
            cur.push(c);
        }
        i += 1;
    }
    let ghost before = seen;
    if cur.len() > 0 {
        proof {
            seen = seen.push(cur@);
        }
        toks.push(cur);
    }
    assert(seen =~= tokens(cs@));
    toks
}

/// Whether two character slices hold the same characters.
pub fn chars_eq(a: &[char], b: &[char]) -> (r: bool)
    ensures
        r == (a@ == b@),
{
    if a.len() != b.len() {
        return false;
    }
    let mut i: usize = 0;
    while i < a.len()
        invariant
            0 <= i <= a.len(),
            a@.len() == b@.len(),
            forall|j: int| 0 <= j < i ==> a@[j] == b@[j],
        decreases a.len() - i,
    {
        if a[i] != b[i] {
            return false;
        }
        i += 1;
    }
    assert(a@ =~= b@);
    true
}

/// Whether two strings hold the same characters.
pub fn str_eq(a: &str, b: &str) -> (r: bool)
    ensures
        r == (a@ == b@),
{
    let ca = collect_chars(a);
    let cb = collect_chars(b);
    chars_eq(ca.as_slice(), cb.as_slice())
}

/// Whether `needle` occurs in `hay` starting at `at`.
pub open spec fn occurs_at(hay: Seq<char>, needle: Seq<char>, at: int) -> bool {
    0 <= at && at + needle.len() <= hay.len() && hay.subrange(at, at + needle.len()) == needle
}

/// Whether `at` is the first occurrence of `needle` in `hay` at or after `from`.
pub open spec fn first_occurrence(hay: Seq<char>, needle: Seq<char>, from: int, at: int) -> bool {
    &&& from <= at
    &&& occurs_at(hay, needle, at)
    &&& forall|j: int| from <= j < at ==> !#[trigger] occurs_at(hay, needle, j)
}

/// Whether `needle` occurs in `hay` at `at`.
fn matches_at(hay: &[char], needle: &[char], at: usize) -> (r: bool)
    ensures
        r == occurs_at(hay@, needle@, at as int),
{
    if at > hay.len() || needle.len() > hay.len() - at {
        return false;
    }
    let n = hay.len();
    let mut i: usize = 0;
    while i < needle.len()
        invariant
            n == hay@.len(),
            i <= needle@.len(),
            at + needle@.len() <= hay@.len(),
            forall|j: int| 0 <= j < i ==> hay@[at + j] == needle@[j],
        decreases needle@.len() - i,
    {
        if hay[at + i] != needle[i] {
            proof {
                assert(hay@.subrange(at as int, at + needle@.len())[i as int] != needle@[i as int]);
            }
            return false;
        }
        i = i + 1;
    }
    proof {
        assert(hay@.subrange(at as int, at + needle@.len()) =~= needle@);
    }
    true
}

/// The first occurrence of `needle` in `hay` at or after `from`, if any.
pub fn find_from(hay: &[char], needle: &[char], from: usize) -> (r: Option<usize>)
    ensures
        match r {
            Some(at) => first_occurrence(hay@, needle@, from as int, at as int),
            None => forall|j: int| from <= j ==> !#[trigger] occurs_at(hay@, needle@, j),
        },
{
    let mut at = from;
    while at < hay.len()
        invariant
            from <= at,
            forall|j: int| from <= j < at ==> !#[trigger] occurs_at(hay@, needle@, j),
        decreases hay@.len() - at,
    {
        if matches_at(hay, needle, at) {
            return Some(at);
        }
        at = at + 1;
    }
    if at == hay.len() && matches_at(hay, needle, at) {
        return Some(at);
    }
    None
}

/// Appends `c` to `s` (`String::push`).
#[verifier::external_body]
pub(crate) fn push_char(s: &mut String, c: char)
    ensures
        final(s)@ == old(s)@.push(c),
{
    s.push(c);
}

/// A `String` holding exactly the characters of `cs`.
pub fn string_from(cs: &[char]) -> (s: String)
    ensures
        s@ == cs@,
{
    let mut s = String::new();
    let mut i: usize = 0;
    while i < cs.len()
        invariant
            0 <= i <= cs.len(),
            s@ == cs@.take(i as int),
        decreases cs.len() - i,
    {
        push_char(&mut s, cs[i]);
        assert(cs@.take(i + 1) =~= cs@.take(i as int).push(cs@[i as int]));
        i += 1;
    }
    assert(cs@.take(cs@.len() as int) =~= cs@);
    s
}

/// Appends every character of `cs` to `s`.
pub fn push_chars(s: &mut String, cs: &[char])
    ensures
        final(s)@ == old(s)@ + cs@,
{
    let mut i: usize = 0;
    while i < cs.len()
        invariant
            0 <= i <= cs.len(),
            s@ == old(s)@ + cs@.take(i as int),
        decreases cs.len() - i,
    {
        push_char(s, cs[i]);
        assert(cs@.take(i + 1) =~= cs@.take(i as int).push(cs@[i as int]));
        i += 1;
    }
    assert(cs@.take(cs@.len() as int) =~= cs@);
}

/// The ASCII digit character for `d < 10`.
pub open spec fn digit_char(d: nat) -> char {
    (48 + d) as char
}

/// The decimal rendering of `n`, most significant digit first, with no leading zeros.
pub open spec fn decimal(n: nat) -> Seq<char>
    decreases n,
{
    if n < 10 {
        seq![digit_char(n)]
    } else {
        decimal(n / 10).push(digit_char(n % 10))
    }
}

/// Appends the decimal rendering of `n` to `s`.
pub fn push_decimal(s: &mut String, n: u64)
    ensures
        final(s)@ == old(s)@ + decimal(n as nat),
    decreases n,
{
    if n >= 10 {
        push_decimal(s, n / 10);
    }
    let d = (n % 10) as u8;
    let c = (48u8 + d) as char;
    push_char(s, c);
    assert(old(s)@ + decimal(n as nat) =~= (if n >= 10 {
        old(s)@ + decimal((n / 10) as nat)
    } else {
        old(s)@
    }).push(digit_char((n % 10) as nat)));
}

/// The code point of `c` with ASCII upper-case letters folded to lower case
/// (`char::to_ascii_lowercase`, taken as a number).
pub open spec fn folded_code(c: char) -> u32 {
    let u = c as u32;
    if 65 <= u <= 90 {
        (u + 32) as u32
    } else {
        u
    }
}

/// Whether `needle` occurs in the ASCII-lower-cased `hay` starting at `at`.
pub open spec fn folded_occurs_at(hay: Seq<char>, needle: Seq<char>, at: int) -> bool {
    &&& 0 <= at
    &&& at + needle.len() <= hay.len()
    &&& forall|k: int| 0 <= k < needle.len() ==> folded_code(#[trigger] hay[at + k]) == needle[k] as u32
}

/// Whether the ASCII-lower-cased `hay` contains `needle`
/// (`hay.to_ascii_lowercase().contains(needle)`).
pub open spec fn contains_folded_spec(hay: Seq<char>, needle: Seq<char>) -> bool {
    exists|at: int| folded_occurs_at(hay, needle, at)
}

/// Whether the ASCII-lower-cased `hay` contains `needle`.
pub fn contains_folded(hay: &[char], needle: &[char]) -> (r: bool)
    ensures
        r == contains_folded_spec(hay@, needle@),
{
    if needle.len() > hay.len() {
        assert forall|at: int| !folded_occurs_at(hay@, needle@, at) by {}
        return false;
    }
    let last = hay.len() - needle.len();
    let mut at: usize = 0;
    loop
        invariant
            needle@.len() <= hay@.len(),
            hay@.len() == hay.len(),
            last == hay@.len() - needle@.len(),
            at <= last,
            forall|k: int| 0 <= k < at ==> !folded_occurs_at(hay@, needle@, k),
        ensures
            forall|k: int| 0 <= k <= last ==> !folded_occurs_at(hay@, needle@, k),
        decreases last - at,
    {
        let mut j: usize = 0;
        let mut ok = true;
        while j < needle.len()
            invariant_except_break
                ok,
                forall|k: int| 0 <= k < j ==> folded_code(#[trigger] hay@[at + k]) == needle@[k] as u32,
            invariant
                0 <= j <= needle@.len(),
                needle@.len() <= hay@.len(),
                hay@.len() == hay.len(),
                last == hay@.len() - needle@.len(),
                at <= last,
            ensures
                ok ==> j == needle@.len() && forall|k: int|
                    0 <= k < j ==> folded_code(#[trigger] hay@[at + k]) == needle@[k] as u32,
                !ok ==> !folded_occurs_at(hay@, needle@, at as int),
            decreases needle.len() - j,
        {
            let u = hay[at + j] as u32;
            let folded = if 65 <= u && u <= 90 {
                u + 32
            } else {
                u
            };
            if folded != needle[j] as u32 {
                ok = false;
                assert(folded_code(hay@[at + j]) != needle@[j as int] as u32);
                break;
            }
            j += 1;
        }
        if ok {
            assert(folded_occurs_at(hay@, needle@, at as int));
            return true;
        }
        if at == last {
            break;
        }
        at += 1;
    }
    assert forall|k: int| !folded_occurs_at(hay@, needle@, k) by {
        if 0 <= k && k + needle@.len() <= hay@.len() {
            assert(k <= last);
        }
    }
    false
}

} // verus!
