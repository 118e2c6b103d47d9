//! Verified utilities over `String` and `Seq<char>`: character search,
//! substring search, line splitting and zero-padded decimal formatting.

use vstd::prelude::*;
use vstd::string::*;

verus! {

/// True when `pat` occurs in `s` starting at index `i`.
pub open spec fn occurs_at(s: Seq<char>, pat: Seq<char>, i: int) -> bool {
    0 <= i && i + pat.len() <= s.len() && s.subrange(i, i + pat.len()) == pat
}

/// True when `pat` occurs somewhere in `s`.
pub open spec fn contains_seq(s: Seq<char>, pat: Seq<char>) -> bool {
    exists|i: int| occurs_at(s, pat, i)
}

/// Index of the first occurrence of `pat` in `s`, if any.
pub open spec fn find_first(s: Seq<char>, pat: Seq<char>) -> Option<int>
    decreases s.len(),
{
    if pat.len() <= s.len() {
        if s.subrange(0, pat.len() as int) == pat {
            Some(0int)
        } else if s.len() == 0 {
            None
        } else {
            match find_first(s.skip(1), pat) {
                Some(i) => Some(i + 1),
                None => None,
            }
        }
    } else {
        None
    }
}

/// Index of the first occurrence of the character `c` in `s`, if any.
pub open spec fn find_char(s: Seq<char>, c: char) -> Option<int>
    decreases s.len(),
{
    if s.len() == 0 {
        None
    } else if s[0] == c {
        Some(0int)
    } else {
        match find_char(s.skip(1), c) {
            Some(i) => Some(i + 1),
            None => None,
        }
    }
}

/// Index of the last occurrence of the character `c` in `s`, if any.
pub open spec fn find_last_char(s: Seq<char>, c: char) -> Option<int>
    decreases s.len(),
{
    if s.len() == 0 {
        None
    } else if s[s.len() - 1] == c {
        Some(s.len() - 1)
    } else {
        find_last_char(s.take(s.len() - 1), c)
    }
}

/// `find_first` returns a first occurrence: a match at the index and none before it.
pub proof fn lemma_find_first_characterizes(s: Seq<char>, pat: Seq<char>)
    ensures
        match find_first(s, pat) {
            Some(i) => occurs_at(s, pat, i) && (forall|j: int| 0 <= j < i ==> !occurs_at(s, pat, j)),
            None => !contains_seq(s, pat),
        },
    decreases s.len(),
{
    if pat.len() <= s.len() {
        if s.subrange(0, pat.len() as int) == pat {
            assert(occurs_at(s, pat, 0));
        } else if s.len() == 0 {
            assert(forall|i: int| !occurs_at(s, pat, i));
        } else {
            lemma_find_first_characterizes(s.skip(1), pat);
            assert forall|j: int| 0 <= j && j + pat.len() <= s.len() - 1 implies
                (occurs_at(s.skip(1), pat, j) <==> occurs_at(s, pat, j + 1)) by {
                assert(s.skip(1).subrange(j, j + pat.len()) =~= s.subrange(j + 1, j + 1 + pat.len()));
            }
            match find_first(s.skip(1), pat) {
                Some(i) => {
                    assert(occurs_at(s.skip(1), pat, i));
                    assert(occurs_at(s, pat, i + 1));
                    assert forall|j: int| 0 <= j < i + 1 implies !occurs_at(s, pat, j) by {
                        if j == 0 {
                            assert(s.subrange(0, pat.len() as int) != pat);
                        } else {
                            assert(!occurs_at(s.skip(1), pat, j - 1));
                        }
                    }
                },
                None => {
                    assert forall|j: int| !occurs_at(s, pat, j) by {
                        if 0 < j && j + pat.len() <= s.len() {
                            assert(!occurs_at(s.skip(1), pat, j - 1));
                        } else if j == 0 {
                            assert(s.subrange(0, pat.len() as int) != pat);
                        }
                    }
                },
            }
        }
    } else {
        assert(forall|i: int| !occurs_at(s, pat, i));
    }
}

/// `find_char` returns the first index holding `c`, when one exists.
pub proof fn lemma_find_char_characterizes(s: Seq<char>, c: char)
    ensures
        match find_char(s, c) {
            Some(i) => 0 <= i < s.len() && s[i] == c && (forall|j: int| 0 <= j < i ==> s[j] != c),
            None => forall|j: int| 0 <= j < s.len() ==> s[j] != c,
        },
    decreases s.len(),
{
    if s.len() == 0 {
    } else if s[0] == c {
    } else {
        lemma_find_char_characterizes(s.skip(1), c);
        let t = s.skip(1);
        match find_char(t, c) {
            Some(i) => {
                assert(s[i + 1] == t[i]);
                assert forall|j: int| 0 <= j < i + 1 implies s[j] != c by {
                    if j > 0 {
                        assert(t[j - 1] != c);
                    }
                }
            },
            None => {
                assert forall|j: int| 0 <= j < s.len() implies s[j] != c by {
                    if j > 0 {
                        assert(t[j - 1] != c);
                    }
                }
            },
        }
    }
}

/// `find_last_char` returns the last index holding `c`, when one exists.
pub proof fn lemma_find_last_char_characterizes(s: Seq<char>, c: char)
    ensures
        match find_last_char(s, c) {
            Some(i) => 0 <= i < s.len() && s[i] == c && (forall|j: int| i < j < s.len() ==> s[j] != c),
            None => forall|j: int| 0 <= j < s.len() ==> s[j] != c,
        },
    decreases s.len(),
{
    if s.len() == 0 {
    } else if s[s.len() - 1] == c {
    } else {
        lemma_find_last_char_characterizes(s.take(s.len() - 1), c);
        assert(forall|j: int| 0 <= j < s.len() - 1 ==> s.take(s.len() - 1)[j] == s[j]);
    }
}

/// Character-for-character equality of two string slices.
pub fn str_eq(a: &str, b: &str) -> (r: bool)
    ensures
        r == (a@ == b@),
{
    let na = a.unicode_len();
    let nb = b.unicode_len();
    if na != nb {
        return false;
    }
    let mut i: usize = 0;
    while i < na
        invariant
            na == a@.len(),
            na == b@.len(),
            0 <= i <= na,
            forall|j: int| 0 <= j < i ==> a@[j] == b@[j],
        decreases na - i,
    {
        if a.get_char(i) != b.get_char(i) {
            return false;
        }
        i += 1;
    }
    proof {
        assert(a@ =~= b@);
    }
    true
}

/// First index at which the character `c` appears in `s`, scanning executable text.
pub fn find_char_in(s: &str, c: char) -> (r: Option<usize>)
    ensures
        match r {
            Some(i) => find_char(s@, c) == Some(i as int),
            None => find_char(s@, c) is None,
        },
{
    let n = s.unicode_len();
    let mut i: usize = 0;
    while i < n
        invariant
            n == s@.len(),
            0 <= i <= n,
            forall|j: int| 0 <= j < i ==> s@[j] != c,
        decreases n - i,
    {
        if s.get_char(i) == c {
            proof {
                lemma_find_char_characterizes(s@, c);
                match find_char(s@, c) {
                    Some(k) => {
                        if k < i as int {
                            assert(s@[k] != c);
                        }
                        if k > i as int {
                            assert(s@[i as int] != c);
                        }
                    },
                    None => {
                        assert(s@[i as int] != c);
                    },
                }
            }
            return Some(i);
        }
        i += 1;
    }
    proof {
        lemma_find_char_characterizes(s@, c);
    }
    None
}

/// Last index at which the character `c` appears in `s`.
pub fn find_last_char_in(s: &str, c: char) -> (r: Option<usize>)
    ensures
        match r {
            Some(i) => find_last_char(s@, c) == Some(i as int),
            None => find_last_char(s@, c) is None,
        },
{
    let n = s.unicode_len();
    let mut i: usize = n;
    while i > 0
        invariant
            n == s@.len(),
            0 <= i <= n,
            forall|j: int| i <= j < n ==> s@[j] != c,
        decreases i,
    {
        i -= 1;
        if s.get_char(i) == c {
            proof {
                lemma_find_last_char_characterizes(s@, c);
                match find_last_char(s@, c) {
                    Some(k) => {
                        if k > i as int {
                            assert(s@[k] != c);
                        }
                        if k < i as int {
                            assert(s@[i as int] != c);
                        }
                    },
                    None => {
                        assert(s@[i as int] != c);
                    },
                }
            }
            return Some(i);
        }
    }
    proof {
        lemma_find_last_char_characterizes(s@, c);
    }
    None
}

/// First index at which the pattern `pat` occurs in `s`.
pub fn find_sub(s: &str, pat: &str) -> (r: Option<usize>)
    ensures
        match r {
            Some(i) => find_first(s@, pat@) == Some(i as int),
            None => find_first(s@, pat@) is None,
        },
{
    let n = s.unicode_len();
    let m = pat.unicode_len();
    if m > n {
        proof {
            lemma_find_first_characterizes(s@, pat@);
            assert(forall|j: int| !occurs_at(s@, pat@, j));
        }
        return None;
    }
    if m == 0 {
        proof {
            assert(s@.subrange(0, 0) =~= pat@);
        }
        return Some(0);
    }
    let mut i: usize = 0;
    while i <= n - m
        invariant
            n == s@.len(),
            m == pat@.len(),
            1 <= m <= n,
            0 <= i <= n - m + 1,
            forall|j: int| 0 <= j < i ==> !occurs_at(s@, pat@, j),
        decreases n - i,
    {
        let mut k: usize = 0;
        let mut matched = true;
        while matched && k < m
            invariant
                n == s@.len(),
                m == pat@.len(),
                m <= n,
                0 <= i <= n - m,
                0 <= k <= m,
                matched ==> forall|t: int| 0 <= t < k ==> s@[i + t] == pat@[t],
                !matched ==> !occurs_at(s@, pat@, i as int),
            decreases m - k,
        {
            if s.get_char(i + k) != pat.get_char(k) {
                matched = false;
                proof {
                    assert(s@.subrange(i as int, i + m) != pat@) by {
                        assert(s@.subrange(i as int, i + m)[k as int] == s@[i + k]);
                    }
                }
                k = m;
            } else {
                k += 1;
            }
        }
        if matched {
            proof {
                assert(s@.subrange(i as int, i + m) =~= pat@);
                assert(occurs_at(s@, pat@, i as int));
                lemma_find_first_characterizes(s@, pat@);
                match find_first(s@, pat@) {
                    Some(t) => {
                        if t < i as int {
                            assert(!occurs_at(s@, pat@, t));
                        }
                        if t > i as int {
                            assert(!occurs_at(s@, pat@, i as int));
                        }
                    },
                    None => {
                        assert(!occurs_at(s@, pat@, i as int));
                    },
                }
            }
            return Some(i);
        }
        i += 1;
    }
    proof {
        lemma_find_first_characterizes(s@, pat@);
        assert forall|j: int| !occurs_at(s@, pat@, j) by {
            if 0 <= j && j + pat@.len() <= s@.len() {
                assert(j < i);
            }
        }
    }
    None
}

/// A line body with any single trailing carriage return removed.
pub open spec fn strip_cr(t: Seq<char>) -> Seq<char> {
    if t.len() > 0 && t[t.len() - 1] == '\r' {
        t.take(t.len() - 1)
    } else {
        t
    }
}

/// The lines of `s`: split at each line feed, dropping a carriage return
/// that stands just before it; a final fragment without a line feed is kept
/// as it is, and a trailing line feed opens no extra empty line.
pub open spec fn spec_lines(s: Seq<char>) -> Seq<Seq<char>>
    decreases s.len(),
    via spec_lines_decreases
{
    if s.len() == 0 {
        Seq::empty()
    } else {
        match find_char(s, '\n') {
            None => seq![s],
            Some(i) => seq![strip_cr(s.take(i))] + spec_lines(s.skip(i + 1)),
        }
    }
}

#[via_fn]
proof fn spec_lines_decreases(s: Seq<char>) {
    if s.len() > 0 {
        lemma_find_char_characterizes(s, '\n');
    }
}

/// Split a text into its lines.
pub fn split_lines(s: &str) -> (r: Vec<String>)
    ensures
        r.deep_view() == spec_lines(s@),
{
    let n = s.unicode_len();
    let mut out: Vec<String> = Vec::new();
    let mut start: usize = 0;
    let mut i: usize = 0;
    proof {
        assert(s@.skip(0) =~= s@);
        assert(out.deep_view() + spec_lines(s@) =~= spec_lines(s@));
    }
    while i < n
        invariant
            n == s@.len(),
            0 <= start <= i <= n,
            spec_lines(s@) == out.deep_view() + spec_lines(s@.skip(start as int)),
            forall|j: int| start <= j < i ==> s@[j] != '\n',
        decreases n - i,
    {
        let c = s.get_char(i);
        if c == '\n' {
            let mut line = s.substring_char(start, i);
            if i > start && s.get_char(i - 1) == '\r' {
                line = s.substring_char(start, i - 1);
            }
            let ghost rest = s@.skip(start as int);
            proof {
                lemma_find_char_characterizes(rest, '\n');
                assert(forall|j: int| 0 <= j < rest.len() ==> rest[j] == s@[start + j]);
                assert(rest[i - start] == '\n');
                assert(forall|j: int| 0 <= j < i - start ==> rest[j] != '\n');
                match find_char(rest, '\n') {
                    Some(k) => {
                        if k < i - start {
                            assert(rest[k] != '\n');
                        }
                        if k > i - start {
                            assert(rest[i - start] != '\n');
                        }
                        assert(k == i - start);
                    },
                    None => {
                        assert(rest[i - start] != '\n');
                    },
                }
                assert(rest.take(i - start) =~= s@.subrange(start as int, i as int));
                assert(rest.skip(i - start + 1) =~= s@.skip(i + 1));
                assert(strip_cr(rest.take(i - start)) =~= line@);
                assert(spec_lines(rest) == seq![strip_cr(rest.take(i - start))] + spec_lines(
                    rest.skip(i - start + 1),
                ));
                assert((out.deep_view() + seq![line@]) + spec_lines(s@.skip(i + 1))
                    =~= out.deep_view() + spec_lines(rest));
            }
            out.push(line.to_owned());
            start = i + 1;
        }
        i += 1;
    }
    if start < n {
        let line = s.substring_char(start, n);
        let ghost rest = s@.skip(start as int);
        proof {
            lemma_find_char_characterizes(rest, '\n');
            assert(forall|j: int| 0 <= j < rest.len() ==> rest[j] == s@[start + j]);
            match find_char(rest, '\n') {
                Some(k) => {
                    assert(rest[k] != '\n');
                },
                None => {},
            }
            assert(rest =~= line@);
            assert(spec_lines(rest) == seq![rest]);
            assert(out.deep_view() + seq![line@] =~= out.deep_view() + spec_lines(rest));
        }
        out.push(line.to_owned());
    } else {
        proof {
            assert(s@.skip(start as int) =~= Seq::<char>::empty());
            assert(out.deep_view() + spec_lines(s@.skip(start as int)) =~= out.deep_view());
        }
    }
    out
}

/// The total weight of a line list: each line's length plus one.
pub open spec fn lines_measure(lines: Seq<Seq<char>>) -> nat
    decreases lines.len(),
{
    if lines.len() == 0 {
        0
    } else {
        lines[0].len() + 1 + lines_measure(lines.skip(1))
    }
}

/// A text of `n` characters splits into at most `n + 1` lines.
pub proof fn lemma_spec_lines_count(s: Seq<char>)
    ensures
        spec_lines(s).len() <= s.len() + 1,
    decreases s.len(),
{
    if s.len() == 0 {
    } else {
        lemma_find_char_characterizes(s, '\n');
        match find_char(s, '\n') {
            None => {},
            Some(i) => {
                lemma_spec_lines_count(s.skip(i + 1));
            },
        }
    }
}

/// The weight of the lines of `s` is at most twice its length plus one.
pub proof fn lemma_spec_lines_measure(s: Seq<char>)
    ensures
        lines_measure(spec_lines(s)) <= 2 * s.len() + 1,
    decreases s.len(),
{
    if s.len() == 0 {
    } else {
        lemma_find_char_characterizes(s, '\n');
        match find_char(s, '\n') {
            None => {
                assert(spec_lines(s) == seq![s]);
                assert(seq![s].skip(1) =~= Seq::<Seq<char>>::empty());
                assert(lines_measure(Seq::<Seq<char>>::empty()) == 0);
                assert(lines_measure(seq![s]) == s.len() + 1);
            },
            Some(i) => {
                lemma_spec_lines_measure(s.skip(i + 1));
                let rest = spec_lines(s.skip(i + 1));
                assert((seq![strip_cr(s.take(i))] + rest).skip(1) =~= rest);
                assert(strip_cr(s.take(i)).len() <= i);
            },
        }
    }
}

/// The character that writes the decimal digit `d`.
pub open spec fn digit_char(d: int) -> char {
    if d == 0 {
        '0'
    } else if d == 1 {
        '1'
    } else if d == 2 {
        '2'
    } else if d == 3 {
        '3'
    } else if d == 4 {
        '4'
    } else if d == 5 {
        '5'
    } else if d == 6 {
        '6'
    } else if d == 7 {
        '7'
    } else if d == 8 {
        '8'
    } else {
        '9'
    }
}

/// The decimal digits of `n`, most significant first.
pub open spec fn dec_digits(n: nat) -> Seq<char>
    decreases n,
{
    if n < 10 {
        seq![digit_char(n as int)]
    } else {
        dec_digits(n / 10) + seq![digit_char((n % 10) as int)]
    }
}

/// A run of `k` zero characters.
pub open spec fn zero_run(k: nat) -> Seq<char>
    decreases k,
{
    if k == 0 {
        Seq::empty()
    } else {
        zero_run((k - 1) as nat) + seq!['0']
    }
}

/// The decimal form of `n`, left-padded with zeros to at least `w` characters.
pub open spec fn zero_padded(n: nat, w: nat) -> Seq<char> {
    if dec_digits(n).len() >= w {
        dec_digits(n)
    } else {
        zero_run((w - dec_digits(n).len()) as nat) + dec_digits(n)
    }
}

/// One decimal digit as a string.
fn digit_str(d: usize) -> (r: String)
    requires
        d < 10,
    ensures
        r@ =~= seq![digit_char(d as int)],
{
    let s: &str = if d == 0 {
        "0"
    } else if d == 1 {
        "1"
    } else if d == 2 {
        "2"
    } else if d == 3 {
        "3"
    } else if d == 4 {
        "4"
    } else if d == 5 {
        "5"
    } else if d == 6 {
        "6"
    } else if d == 7 {
        "7"
    } else if d == 8 {
        "8"
    } else {
        "9"
    };
    proof {
        reveal_strlit("0");
        reveal_strlit("1");
        reveal_strlit("2");
        reveal_strlit("3");
        reveal_strlit("4");
        reveal_strlit("5");
        reveal_strlit("6");
        reveal_strlit("7");
        reveal_strlit("8");
        reveal_strlit("9");
    }
    s.to_owned()
}

/// The decimal form of `n`.
pub fn dec_str(n: usize) -> (r: String)
    ensures
        r@ == dec_digits(n as nat),
    decreases n,
{
    if n < 10 {
        digit_str(n)
    } else {
        let mut s = dec_str(n / 10);
        let d = digit_str(n % 10);
        s.append(d.as_str());
        s
    }
}

/// The decimal form of `n`, zero-padded to at least `w` characters.
pub fn padded_dec_str(n: usize, w: usize) -> (r: String)
    ensures
        r@ == zero_padded(n as nat, w as nat),
{
    let digits = dec_str(n);
    let len = digits.as_str().unicode_len();
    if len >= w {
        return digits;
    }
    let mut out = String::new();
    let mut k: usize = 0;
    while k < w - len
        invariant
            len < w,
            0 <= k <= w - len,
            out@ == zero_run(k as nat),
        decreases w - len - k,
    {
        out.append("0");
        proof {
            reveal_strlit("0");
            assert(out@ =~= zero_run((k + 1) as nat));
        }
        k += 1;
    }
    out.append(digits.as_str());
    out
}

/// Whether `pat` occurs anywhere in `s`.
pub fn contains_sub(s: &str, pat: &str) -> (r: bool)
    ensures
        r == contains_seq(s@, pat@),
{
    proof {
        lemma_find_first_characterizes(s@, pat@);
    }
    match find_sub(s, pat) {
        Some(_) => true,
        None => false,
    }
}

} // verus!
