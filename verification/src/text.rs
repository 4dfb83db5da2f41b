//! Verified text utilities: prefix tests, character search, ASCII-whitespace
//! trimming, lower-case hex rendering, and kebab-to-snake conversion.

use vstd::prelude::*;

verus! {

/// ASCII whitespace, the set trimmed from the ends of a pinned source string.
pub open spec fn ws(c: char) -> bool {
    c == ' ' || c == '\t' || c == '\n' || c == '\r'
}

/// Number of leading whitespace characters.
pub open spec fn leading_ws(s: Seq<char>) -> int
    decreases s.len(),
{
    if s.len() == 0 || !ws(s[0]) {
        0
    } else {
        1 + leading_ws(s.drop_first())
    }
}

/// Number of trailing whitespace characters.
pub open spec fn trailing_ws(s: Seq<char>) -> int
    decreases s.len(),
{
    if s.len() == 0 || !ws(s.last()) {
        0
    } else {
        1 + trailing_ws(s.drop_last())
    }
}

/// The sequence with leading and trailing whitespace removed.
pub open spec fn trim_chars(s: Seq<char>) -> Seq<char> {
    if leading_ws(s) == s.len() {
        Seq::<char>::empty()
    } else {
        s.subrange(leading_ws(s), s.len() - trailing_ws(s))
    }
}

proof fn lemma_leading_ws_bounds(s: Seq<char>)
    ensures
        0 <= leading_ws(s) <= s.len(),
        forall|j: int| 0 <= j < leading_ws(s) ==> ws(s[j]),
        leading_ws(s) < s.len() ==> !ws(s[leading_ws(s)]),
    decreases s.len(),
{
    if s.len() == 0 || !ws(s[0]) {
    } else {
        lemma_leading_ws_bounds(s.drop_first());
        assert forall|j: int| 0 <= j < leading_ws(s) implies ws(s[j]) by {
            if j > 0 {
                assert(s.drop_first()[j - 1] == s[j]);
            }
        }
        if leading_ws(s) < s.len() {
            assert(s.drop_first()[leading_ws(s) - 1] == s[leading_ws(s)]);
        }
    }
}

proof fn lemma_leading_ws_unique(s: Seq<char>, i: int)
    requires
        0 <= i <= s.len(),
        forall|j: int| 0 <= j < i ==> ws(s[j]),
        i < s.len() ==> !ws(s[i]),
    ensures
        i == leading_ws(s),
{
    lemma_leading_ws_bounds(s);
}

proof fn lemma_trailing_ws_bounds(s: Seq<char>)
    ensures
        0 <= trailing_ws(s) <= s.len(),
        forall|j: int| s.len() - trailing_ws(s) <= j < s.len() ==> ws(s[j]),
        trailing_ws(s) < s.len() ==> !ws(s[s.len() - trailing_ws(s) - 1]),
    decreases s.len(),
{
    if s.len() == 0 || !ws(s.last()) {
    } else {
        lemma_trailing_ws_bounds(s.drop_last());
        assert forall|j: int| s.len() - trailing_ws(s) <= j < s.len() implies ws(s[j]) by {
            if j < s.len() - 1 {
                assert(s.drop_last()[j] == s[j]);
            }
        }
        if trailing_ws(s) < s.len() {
            assert(s.drop_last()[s.len() - trailing_ws(s) - 1] == s[s.len() - trailing_ws(s) - 1]);
        }
    }
}

proof fn lemma_trailing_ws_unique(s: Seq<char>, t: int)
    requires
        0 <= t <= s.len(),
        forall|j: int| s.len() - t <= j < s.len() ==> ws(s[j]),
        t < s.len() ==> !ws(s[s.len() - t - 1]),
    ensures
        t == trailing_ws(s),
{
    lemma_trailing_ws_bounds(s);
    if t < trailing_ws(s) {
        assert(ws(s[s.len() - t - 1]));
    } else if trailing_ws(s) < t {
        assert(ws(s[s.len() - trailing_ws(s) - 1]));
    }
}

/// Whether `p` is a prefix of `s`.
pub open spec fn starts_with(s: Seq<char>, p: Seq<char>) -> bool {
    p.len() <= s.len() && s.subrange(0, p.len() as int) == p
}

/// Test whether the characters of `p` open the string `s`.
pub fn has_prefix(s: &str, p: &str) -> (r: bool)
    ensures
        r == starts_with(s@, p@),
{
    let sn = s.unicode_len();
    let pn = p.unicode_len();
    if pn > sn {
        proof {
            assert(!starts_with(s@, p@));
        }
        return false;
    }
    let mut i: usize = 0;
    while i < pn
        invariant
            i <= pn <= sn,
            sn == s@.len(),
            pn == p@.len(),
            forall|j: int| 0 <= j < i ==> s@[j] == p@[j],
        decreases pn - i,
    {
        if s.get_char(i) != p.get_char(i) {
            proof {
                assert(s@.subrange(0, p@.len() as int)[i as int] != p@[i as int]);
            }
            return false;
        }
        i = i + 1;
    }
    proof {
        assert(s@.subrange(0, p@.len() as int) =~= p@);
    }
    true
}

/// Whether `c` occurs in `s`.
pub open spec fn contains_char(s: Seq<char>, c: char) -> bool {
    exists|i: int| 0 <= i < s.len() && s[i] == c
}

/// Index of the first occurrence of `c` in `s`; meaningful only when `c`
/// occurs.
pub open spec fn first_index_of(s: Seq<char>, c: char) -> int {
    choose|i: int|
        0 <= i < s.len() && s[i] == c && forall|j: int| 0 <= j < i ==> s[j] != c
}

/// A position holding `c` with no earlier occurrence is the first index.
pub proof fn lemma_first_index_of(s: Seq<char>, c: char, i: int)
    requires
        0 <= i < s.len(),
        s[i] == c,
        forall|j: int| 0 <= j < i ==> s[j] != c,
    ensures
        contains_char(s, c),
        first_index_of(s, c) == i,
        s[first_index_of(s, c)] == c,
        forall|j: int| 0 <= j < first_index_of(s, c) ==> s[j] != c,
{
    assert(0 <= i < s.len() && s[i] == c && (forall|j: int| 0 <= j < i ==> s[j] != c));
    let w = first_index_of(s, c);
    assert(0 <= w < s.len() && s[w] == c && (forall|j: int| 0 <= j < w ==> s[j] != c));
    if w < i {
        assert(s[w] != c);
    }
    if i < w {
        assert(s[i] != c);
    }
}

proof fn lemma_first_index_of_from_witness(s: Seq<char>, c: char, k: int)
    requires
        0 <= k < s.len(),
        s[k] == c,
    ensures
        0 <= first_index_of(s, c) < s.len(),
        s[first_index_of(s, c)] == c,
        forall|j: int| 0 <= j < first_index_of(s, c) ==> s[j] != c,
    decreases k,
{
    if forall|j: int| 0 <= j < k ==> s[j] != c {
        lemma_first_index_of(s, c, k);
    } else {
        let j = choose|j: int| 0 <= j < k && s[j] == c;
        lemma_first_index_of_from_witness(s, c, j);
    }
}

/// When `c` occurs in `s`, the first index is in range, holds `c`, and
/// nothing before it does.
pub proof fn lemma_first_index_of_properties(s: Seq<char>, c: char)
    requires
        contains_char(s, c),
    ensures
        0 <= first_index_of(s, c) < s.len(),
        s[first_index_of(s, c)] == c,
        forall|j: int| 0 <= j < first_index_of(s, c) ==> s[j] != c,
{
    let k = choose|i: int| 0 <= i < s.len() && s[i] == c;
    lemma_first_index_of_from_witness(s, c, k);
}

/// Find the first occurrence of the character `c` in `s`.
pub fn find_char(s: &str, c: char) -> (r: Option<usize>)
    ensures
        match r {
            Some(i) => i < s@.len() && s@[i as int] == c && forall|j: int|
                0 <= j < i ==> s@[j] != c,
            None => !contains_char(s@, c),
        },
        r is Some <==> contains_char(s@, c),
        r is Some ==> r->0 == first_index_of(s@, c),
{
    let n = s.unicode_len();
    let mut i: usize = 0;
    while i < n
        invariant
            i <= n,
            n == s@.len(),
            forall|j: int| 0 <= j < i ==> s@[j] != c,
        decreases n - i,
    {
        if s.get_char(i) == c {
            proof {
                let w = first_index_of(s@, c);
                assert(0 <= w < s@.len() && s@[w] == c && forall|j: int|
                    0 <= j < w ==> s@[j] != c);
                if w < i as int {
                    assert(s@[w] != c);
                }
                if i < w {
                    assert(s@[i as int] != c);
                }
            }
            return Some(i);
        }
        i = i + 1;
    }
    None
}

/// Compare two string slices character for character.
pub fn str_eq(a: &str, b: &str) -> (r: bool)
    ensures
        r == (a@ == b@),
{
    let ao: String = a.to_owned();
    let bo: String = b.to_owned();
    ao == bo
}

/// Remove leading and trailing ASCII whitespace.
pub fn trim<'a>(s: &'a str) -> (r: &'a str)
    ensures
        r@ == trim_chars(s@),
{
    let n = s.unicode_len();
    let mut a: usize = 0;
    while a < n && is_ws_char(s.get_char(a))
        invariant
            a <= n,
            n == s@.len(),
            forall|j: int| 0 <= j < a ==> ws(s@[j]),
        decreases n - a,
    {
        a = a + 1;
    }
    if a == n {
        proof {
            lemma_leading_ws_unique(s@, n as int);
        }
        return s.substring_char(n, n);
    }
    proof {
        lemma_leading_ws_unique(s@, a as int);
    }
    let mut b: usize = n;
    while b > a && is_ws_char(s.get_char(b - 1))
        invariant
            a <= b <= n,
            a < n,
            n == s@.len(),
            !ws(s@[a as int]),
            forall|j: int| b <= j < n ==> ws(s@[j]),
        decreases b,
    {
        b = b - 1;
    }
    proof {
        if b == a {
            assert(ws(s@[a as int]));
        }
        lemma_trailing_ws_unique(s@, n - b as int);
    }
    s.substring_char(a, b)
}

/// Decide ASCII whitespace for one character.
fn is_ws_char(c: char) -> (r: bool)
    ensures
        r == ws(c),
{
    c == ' ' || c == '\t' || c == '\n' || c == '\r'
}

/// The lower-case hex digit for a value below sixteen.
pub open spec fn hex_digit(d: int) -> char {
    if d == 0 { '0' } else if d == 1 { '1' } else if d == 2 { '2' } else if d == 3 { '3' }
    else if d == 4 { '4' } else if d == 5 { '5' } else if d == 6 { '6' } else if d == 7 { '7' }
    else if d == 8 { '8' } else if d == 9 { '9' } else if d == 10 { 'a' } else if d == 11 { 'b' }
    else if d == 12 { 'c' } else if d == 13 { 'd' } else if d == 14 { 'e' } else { 'f' }
}

/// Lower-case hexadecimal rendering of `n`, without leading zeros.
pub open spec fn hex_chars(n: u64) -> Seq<char>
    decreases n,
{
    if n < 16 {
        seq![hex_digit(n as int)]
    } else {
        hex_chars(n / 16).push(hex_digit((n % 16) as int))
    }
}

/// One lower-case hex digit as a borrowed one-character string.
fn hex_digit_str(d: u64) -> (r: &'static str)
    requires
        d < 16,
    ensures
        r@ =~= seq![hex_digit(d as int)],
{
    let table = "0123456789abcdef";
    proof {
        reveal_strlit("0123456789abcdef");
    }
    let i = d as usize;
    table.substring_char(i, i + 1)
}

/// Render `n` in lower-case hexadecimal without leading zeros.
pub fn to_hex(n: u64) -> (r: String)
    ensures
        r@ == hex_chars(n),
    decreases n,
{
    if n < 16 {
        let digit = hex_digit_str(n);
        digit.to_owned()
    } else {
        let mut s = to_hex(n / 16);
        let digit = hex_digit_str(n % 16);
        s.append(digit);
        proof {
            assert(s@ =~= hex_chars(n));
        }
        s
    }
}

/// Kebab-to-snake conversion: each `-` becomes `_`, all else unchanged.
pub open spec fn snake_chars(s: Seq<char>) -> Seq<char> {
    s.map(|_i: int, c: char| if c == '-' { '_' } else { c })
}

/// Convert a kebab-case dependency name to an identifier-safe snake-case
/// form.
pub fn kebab_to_snake_case(s: &str) -> (r: String)
    ensures
        r@ == snake_chars(s@),
{
    let n = s.unicode_len();
    let mut out = String::new();
    let mut i: usize = 0;
    while i < n
        invariant
            i <= n,
            n == s@.len(),
            out@ =~= snake_chars(s@.subrange(0, i as int)),
        decreases n - i,
    {
        let c = s.get_char(i);
        if c == '-' {
            proof {
                reveal_strlit("_");
            }
            out.append("_");
        } else {
            let piece = s.substring_char(i, i + 1);
            out.append(piece);
        }
        proof {
            assert(snake_chars(s@.subrange(0, i + 1)) =~= snake_chars(
                s@.subrange(0, i as int),
            ).push(if s@[i as int] == '-' { '_' } else { s@[i as int] }));
        }
        i = i + 1;
    }
    proof {
        assert(s@.subrange(0, n as int) =~= s@);
    }
    out
}

} // verus!
