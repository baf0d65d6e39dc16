//! Small verified string utilities: decimal rendering, ASCII case-insensitive
//! search and trimming of a trailing character.
use vstd::prelude::*;
use vstd::string::*;

verus! {

/// The ASCII digit for `d` (meaningful for `d < 10`).
pub open spec fn digit_char(d: nat) -> char {
    if d == 0 { '0' }
    else if d == 1 { '1' }
    else if d == 2 { '2' }
    else if d == 3 { '3' }
    else if d == 4 { '4' }
    else if d == 5 { '5' }
    else if d == 6 { '6' }
    else if d == 7 { '7' }
    else if d == 8 { '8' }
    else { '9' }
}

/// Decimal representation of a natural number, most significant digit first,
/// without leading zeros (as `Display` for unsigned integers writes it).
pub open spec fn decimal(n: nat) -> Seq<char>
    decreases n,
{
    if n < 10 {
        seq![digit_char(n)]
    } else {
        decimal(n / 10).push(digit_char(n % 10))
    }
}

/// The character `c` of the searched text matches the (lower-case) pattern
/// character `w`: it is `w` itself, or the ASCII upper-case letter whose
/// lower-case form is `w`.
pub open spec fn ascii_ci_eq(c: char, w: char) -> bool {
    c == w || ('A' <= c && c <= 'Z' && (c as u32) + 32 == (w as u32))
}

/// `word` occurs in `s` at position `i` when `s` is lower-cased character by character.
pub open spec fn occurs_ci_at(s: Seq<char>, word: Seq<char>, i: int) -> bool {
    &&& 0 <= i
    &&& i + word.len() <= s.len()
    &&& forall|j: int| 0 <= j < word.len() ==> #[trigger] ascii_ci_eq(s[i + j], word[j])
}

/// `word` occurs somewhere in `s`, ignoring ASCII case.
pub open spec fn contains_ci(s: Seq<char>, word: Seq<char>) -> bool {
    exists|i: int| occurs_ci_at(s, word, i)
}

/// `s` with every trailing occurrence of `c` removed.
pub open spec fn trim_end_char(s: Seq<char>, c: char) -> Seq<char>
    decreases s.len(),
{
    if s.len() > 0 && s.last() == c {
        trim_end_char(s.drop_last(), c)
    } else {
        s
    }
}

fn digit_text(d: u64) -> (s: &'static str)
    requires
        d < 10,
    ensures
        s@ == seq![digit_char(d as nat)],
{
    proof {
        reveal_strlit("0");
        reveal_strlit("1");
        reveal_strlit("2");
        reveal_strlit("3");
        reveal_strlit("4");
        reveal_strlit("5");
        reveal_strlit("6");
        reveal_strlit("7");
        reveal_strlit("8");
        reveal_strlit("9");
    }
    if d == 0 {
        "0"
    } else if d == 1 {
        "1"
    } else if d == 2 {
        "2"
    } else if d == 3 {
        "3"
    } else if d == 4 {
        "4"
    } else if d == 5 {
        "5"
    } else if d == 6 {
        "6"
    } else if d == 7 {
        "7"
    } else if d == 8 {
        "8"
    } else {
        "9"
    }
}

/// The decimal text of `n`.
pub fn decimal_text(n: u64) -> (s: String)
    ensures
        s@ == decimal(n as nat),
    decreases n,
{
    if n < 10 {
        String::from_str(digit_text(n))
    } else {
        let mut s = decimal_text(n / 10);
        s.append(digit_text(n % 10));
        s
    }
}

/// Concatenation of two string slices into a new `String`.
pub fn concat2(a: &str, b: &str) -> (s: String)
    ensures
        s@ == a@ + b@,
{
    let s = String::from_str(a);
    s.concat(b)
}

/// Concatenation of three string slices into a new `String`.
pub fn concat3(a: &str, b: &str, c: &str) -> (s: String)
    ensures
        s@ == a@ + b@ + c@,
{
    let s = String::from_str(a);
    let s = s.concat(b);
    s.concat(c)
}

fn ci_eq(c: char, w: char) -> (r: bool)
    ensures
        r == ascii_ci_eq(c, w),
{
    c == w || ('A' <= c && c <= 'Z' && (c as u32) + 32 == (w as u32))
}

/// Does `word` (written in lower case) occur in `s`, ignoring ASCII case in `s`?
pub fn contains_ascii_ci(s: &str, word: &str) -> (found: bool)
    ensures
        found == contains_ci(s@, word@),
{
    let n = s.unicode_len();
    let m = word.unicode_len();
    if m > n {
        assert forall|i: int| !occurs_ci_at(s@, word@, i) by {}
        return false;
    }
    let mut i: usize = 0;
    while i <= n - m
        invariant
            n == s@.len(),
            m == word@.len(),
            m <= n,
            i <= n - m + 1,
            forall|k: int| 0 <= k < i ==> !occurs_ci_at(s@, word@, k),
        decreases n - m + 1 - i,
    {
        let mut j: usize = 0;
        let mut ok = true;
        while j < m && ok
            invariant
                n == s@.len(),
                m == word@.len(),
                i + m <= n,
                j <= m,
                ok == (forall|t: int| 0 <= t < j ==> #[trigger] ascii_ci_eq(s@[i + t], word@[t])),
            decreases m - j,
        {
            let c = s.get_char(i + j);
            let w = word.get_char(j);
            if !ci_eq(c, w) {
                ok = false;
            }
            j = j + 1;
        }
        if ok {
            assert(occurs_ci_at(s@, word@, i as int));
            return true;
        }
        assert(!occurs_ci_at(s@, word@, i as int));
        i = i + 1;
    }
    assert forall|k: int| !occurs_ci_at(s@, word@, k) by {
        if 0 <= k < i {
        } else if occurs_ci_at(s@, word@, k) {
            assert(k + m <= n);
        }
    }
    false
}

/// `s` with all trailing occurrences of `c` removed (as `str::trim_end_matches` with a `char`).
pub fn trim_end_matching(s: &str, c: char) -> (r: String)
    ensures
        r@ == trim_end_char(s@, c),
{
    let n = s.unicode_len();
    let mut k: usize = n;
    assert(s@.subrange(0, n as int) =~= s@);
    while k > 0 && s.get_char(k - 1) == c
        invariant
            n == s@.len(),
            k <= n,
            trim_end_char(s@, c) == trim_end_char(s@.subrange(0, k as int), c),
        decreases k,
    {
        proof {
            let t = s@.subrange(0, k as int);
            assert(t.last() == c);
            assert(t.drop_last() =~= s@.subrange(0, k - 1));
        }
        k = k - 1;
    }
    proof {
        let t = s@.subrange(0, k as int);
        if k > 0 {
            assert(t.last() != c);
        }
        assert(trim_end_char(t, c) == t);
    }
    String::from_str(s.substring_char(0, k))
}

/// `s` with every leading occurrence of `p` removed (as `str::trim_start_matches`
/// with a string pattern; an empty pattern removes nothing).
pub open spec fn trim_start_all(s: Seq<char>, p: Seq<char>) -> Seq<char>
    decreases s.len(),
{
    if p.len() > 0 && p.len() <= s.len() && s.subrange(0, p.len() as int) == p {
        trim_start_all(s.subrange(p.len() as int, s.len() as int), p)
    } else {
        s
    }
}

fn starts_with_at(s: &str, p: &str, from: usize, n: usize, m: usize) -> (b: bool)
    requires
        n == s@.len(),
        m == p@.len(),
        from <= n,
    ensures
        b == (from + m <= n && s@.subrange(from as int, from + m) == p@),
{
    if m > n - from {
        return false;
    }
    let mut j: usize = 0;
    while j < m
        invariant
            n == s@.len(),
            m == p@.len(),
            from + m <= n,
            j <= m,
            forall|t: int| 0 <= t < j ==> s@[from + t] == p@[t],
        decreases m - j,
    {
        if s.get_char(from + j) != p.get_char(j) {
            assert(s@.subrange(from as int, from + m)[j as int] != p@[j as int]);
            return false;
        }
        j = j + 1;
    }
    assert(s@.subrange(from as int, from + m) =~= p@);
    true
}

/// `s` with every leading occurrence of `p` removed.
pub fn trim_start_matching(s: &str, p: &str) -> (r: String)
    ensures
        r@ == trim_start_all(s@, p@),
{
    let n = s.unicode_len();
    let m = p.unicode_len();
    if m == 0 {
        return String::from_str(s);
    }
    let mut k: usize = 0;
    assert(s@.subrange(0, n as int) =~= s@);
    while starts_with_at(s, p, k, n, m)
        invariant
            n == s@.len(),
            m == p@.len(),
            m > 0,
            k <= n,
            trim_start_all(s@, p@) == trim_start_all(s@.subrange(k as int, n as int), p@),
        decreases n - k,
    {
        proof {
            let t = s@.subrange(k as int, n as int);
            assert(t.subrange(0, m as int) =~= s@.subrange(k as int, k + m));
            assert(t.subrange(m as int, t.len() as int) =~= s@.subrange(k + m, n as int));
        }
        k = k + m;
    }
    proof {
        let t = s@.subrange(k as int, n as int);
        if m <= t.len() {
            assert(t.subrange(0, m as int) =~= s@.subrange(k as int, k + m));
        }
    }
    String::from_str(s.substring_char(k, n))
}

} // verus!
