//! Small helpers on text.

use vstd::prelude::*;

verus! {

/// The characters of an optional text.
pub open spec fn opt_chars(o: Option<String>) -> Option<Seq<char>> {
    match o {
        Some(s) => Some(s@),
        None => None,
    }
}

/// The bytes of an optional byte string.
pub open spec fn opt_bytes(o: Option<Vec<u8>>) -> Option<Seq<u8>> {
    match o {
        Some(b) => Some(b@),
        None => None,
    }
}

/// Whether `s` reads exactly as `word`.
pub fn is_word(s: &String, word: &str) -> (b: bool)
    ensures
        b == (s@ == word@),
{
    let w = word.to_owned();
    *s == w
}

/// The characters of each text of a list.
pub open spec fn texts(list: Seq<String>) -> Seq<Seq<char>> {
    list.map_values(|s: String| s@)
}

/// The characters of each text of an optional list.
pub open spec fn opt_texts(o: Option<Vec<String>>) -> Option<Seq<Seq<char>>> {
    match o {
        Some(list) => Some(texts(list@)),
        None => None,
    }
}

/// Whether `word` is one of the texts of `list`.
pub fn contains_text(list: &Vec<String>, word: &String) -> (found: bool)
    ensures
        found == texts(list@).contains(word@),
{
    let mut i: usize = 0;
    while i < list.len()
        invariant
            i <= list.len(),
            forall|k: int| 0 <= k < i ==> texts(list@)[k] != word@,
        decreases list.len() - i,
    {
        assert(texts(list@)[i as int] == list@[i as int]@);
        if same_text(&list[i], word) {
            return true;
        }
        i += 1;
    }
    false
}

/// Whether `a` and `b` read the same.
pub fn same_text(a: &String, b: &String) -> (r: bool)
    ensures
        r == (a@ == b@),
{
    *a == *b
}

/// Whether `a` and `b` hold the same bytes.
pub fn same_bytes(a: &Vec<u8>, b: &Vec<u8>) -> (r: bool)
    ensures
        r == (a@ == b@),
{
    if a.len() != b.len() {
        return false;
    }
    let mut i: usize = 0;
    while i < a.len()
        invariant
            a.len() == b.len(),
            i <= a.len(),
            forall|k: int| 0 <= k < i ==> a@[k] == b@[k],
        decreases a.len() - i,
    {
        if a[i] != b[i] {
            return false;
        }
        i += 1;
    }
    assert(a@ =~= b@);
    true
}

/// The character that stands for the digit `d`.
pub open spec fn digit_char(d: int) -> char
    recommends
        0 <= d < 10,
{
    if d == 0 {
        '0'
    } else if d == 1 {
        '1'
    } else if d == 2 {
        '2'
    } else if d == 3 {
        '3'
    } else if d == 4 {
        '4'
    } else if d == 5 {
        '5'
    } else if d == 6 {
        '6'
    } else if d == 7 {
        '7'
    } else if d == 8 {
        '8'
    } else {
        '9'
    }
}

/// The digits of `n` in base ten, the most significant first; one `0` for
/// zero.
pub open spec fn digits(n: nat) -> Seq<char>
    decreases n,
{
    if n < 10 {
        seq![digit_char(n as int)]
    } else {
        digits(n / 10).push(digit_char((n % 10) as int))
    }
}

/// `n` written in base ten, with a leading `-` if it is negative.
pub open spec fn decimal(n: int) -> Seq<char> {
    if n < 0 {
        seq!['-'] + digits((-n) as nat)
    } else {
        digits(n as nat)
    }
}

/// The text of one digit.
fn digit_text(d: u32) -> (t: &'static str)
    requires
        d < 10,
    ensures
        t@ == seq![digit_char(d as int)],
{
    proof {
        reveal_strlit("0");
        reveal_strlit("1");
        reveal_strlit("2");
        reveal_strlit("3");
        reveal_strlit("4");
        reveal_strlit("5");
        reveal_strlit("6");
        reveal_strlit("7");
        reveal_strlit("8");
        reveal_strlit("9");
    }
    let t = if d == 0 {
        "0"
    } else if d == 1 {
        "1"
    } else if d == 2 {
        "2"
    } else if d == 3 {
        "3"
    } else if d == 4 {
        "4"
    } else if d == 5 {
        "5"
    } else if d == 6 {
        "6"
    } else if d == 7 {
        "7"
    } else if d == 8 {
        "8"
    } else {
        "9"
    };
    assert(t@ =~= seq![digit_char(d as int)]);
    t
}

/// Appends the digits of `n` to `out`.
fn push_digits(out: &mut String, n: u32)
    ensures
        final(out)@ == old(out)@ + digits(n as nat),
    decreases n,
{
    if n >= 10 {
        push_digits(out, n / 10);
    }
    out.append(digit_text(n % 10));
    assert(out@ =~= old(out)@ + digits(n as nat));
}

/// Writes `n` in base ten.
pub fn i32_to_string(n: i32) -> (s: String)
    ensures
        s@ == decimal(n as int),
{
    let mut out = String::new();
    if n < 0 {
        proof {
            reveal_strlit("-");
        }
        out.append("-");
        assert(out@ =~= seq!['-']);
        let magnitude: u32 = if n == i32::MIN {
            2147483648u32
        } else {
            (-n) as u32
        };
        push_digits(&mut out, magnitude);
    } else {
        push_digits(&mut out, n as u32);
        assert(out@ =~= digits(n as nat));
    }
    out
}

/// Appends one character. Calls `String::push` of the standard library,
/// which is trusted to put `c` behind the characters of `s` and to leave
/// those as they are.
#[verifier::external_body]
fn push_char(s: &mut String, c: char)
    ensures
        final(s)@ == old(s)@.push(c),
{
    s.push(c)
}

/// `c`, or `%` in the place of a blank.
pub open spec fn wildcard(c: char) -> char {
    if c == ' ' {
        '%'
    } else {
        c
    }
}

/// The pattern that finds the texts holding the words of `filter` in their
/// order: `filter` between two `%`, with a `%` for every blank.
pub open spec fn like(filter: Seq<char>) -> Seq<char> {
    seq!['%'] + filter.map_values(|c: char| wildcard(c)) + seq!['%']
}

/// The pattern that finds the texts holding the words of `filter` in their
/// order.
pub fn like_pattern(filter: &str) -> (pattern: String)
    ensures
        pattern@ == like(filter@),
{
    let n = filter.unicode_len();
    let mut pattern = String::new();
    push_char(&mut pattern, '%');
    let mut i: usize = 0;
    while i < n
        invariant
            i <= n,
            n == filter@.len(),
            pattern@ == seq!['%'] + filter@.take(i as int).map_values(|c: char| wildcard(c)),
        decreases n - i,
    {
        let c = filter.get_char(i);
        let ghost before = pattern@;
        if c == ' ' {
            push_char(&mut pattern, '%');
        } else {
            push_char(&mut pattern, c);
        }
        assert(pattern@ =~= seq!['%'] + filter@.take(i + 1).map_values(|c: char| wildcard(c)));
        i += 1;
    }
    assert(filter@.take(i as int) =~= filter@);
    push_char(&mut pattern, '%');
    assert(pattern@ =~= like(filter@));
    pattern
}

/// The pattern of an optional filter.
pub fn opt_like_pattern(filter: Option<String>) -> (pattern: Option<String>)
    ensures
        opt_chars(pattern) == (match filter {
            Some(f) => Some(like(f@)),
            None => None,
        }),
{
    match filter {
        Some(f) => Some(like_pattern(f.as_str())),
        None => None,
    }
}

} // verus!
