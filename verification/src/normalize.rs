//! Typographic normalizer: rewrites ASCII punctuation in the raw text to its
//! full-width equivalent before any parsing takes place. A literal `...`
//! becomes a single ellipsis; `?`, `!`, `(`, `)` and `~` become their
//! full-width forms. There is no escaping mechanism.

use vstd::prelude::*;
use vstd::string::*;

verus! {

/// The ASCII characters that the normalizer rewrites on their own.
pub open spec fn is_special(c: char) -> bool {
    c == '?' || c == '!' || c == '(' || c == ')' || c == '~'
}

/// The full-width replacement of a single character (other characters stay).
pub open spec fn special_sub(c: char) -> char {
    if c == '?' {
        '？'
    } else if c == '!' {
        '！'
    } else if c == '(' {
        '（'
    } else if c == ')' {
        '）'
    } else if c == '~' {
        '〜'
    } else {
        c
    }
}

/// Whether `s` starts with three dots.
pub open spec fn starts_ellipsis(s: Seq<char>) -> bool {
    s.len() >= 3 && s[0] == '.' && s[1] == '.' && s[2] == '.'
}

/// The normalized form of `s`: a left-to-right scan that folds each `...`
/// into an ellipsis and widens each special character.
pub open spec fn norm(s: Seq<char>) -> Seq<char>
    decreases s.len(),
{
    if s.len() == 0 {
        Seq::empty()
    } else if starts_ellipsis(s) {
        seq!['…'] + norm(s.skip(3))
    } else {
        seq![special_sub(s[0])] + norm(s.skip(1))
    }
}

/// Normalization never lengthens the text.
pub proof fn lemma_norm_len(s: Seq<char>)
    ensures
        norm(s).len() <= s.len(),
    decreases s.len(),
{
    if s.len() == 0 {
    } else if starts_ellipsis(s) {
        lemma_norm_len(s.skip(3));
    } else {
        lemma_norm_len(s.skip(1));
    }
}

/// No character of `t` is one the normalizer would rewrite on its own.
pub open spec fn no_specials(t: Seq<char>) -> bool {
    forall|i: int| 0 <= i < t.len() ==> !is_special(t[i])
}

/// No three consecutive dots stand anywhere in `t`.
pub open spec fn no_triple_dot(t: Seq<char>) -> bool {
    forall|i: int| 0 <= i && i + 3 <= t.len() ==> !(#[trigger] t[i] == '.' && t[i + 1] == '.' && t[i
        + 2] == '.')
}

/// The number of dots at the head of `t`.
pub open spec fn lead_dots(t: Seq<char>) -> nat
    decreases t.len(),
{
    if t.len() == 0 || t[0] != '.' {
        0
    } else {
        1 + lead_dots(t.skip(1))
    }
}

proof fn lemma_lead_dots_bounds_prefix(t: Seq<char>)
    requires
        lead_dots(t) <= 1,
    ensures
        !(t.len() >= 2 && t[0] == '.' && t[1] == '.'),
{
    if t.len() >= 2 && t[0] == '.' && t[1] == '.' {
        assert(lead_dots(t) == 1 + lead_dots(t.skip(1)));
        assert(t.skip(1)[0] == '.');
        assert(lead_dots(t.skip(1)) >= 1);
    }
}

/// A text without special characters and without a triple dot is a fixed
/// point of the normalizer.
proof fn lemma_norm_fixed(s: Seq<char>)
    requires
        no_specials(s),
        no_triple_dot(s),
    ensures
        norm(s) == s,
    decreases s.len(),
{
    if s.len() == 0 {
        assert(norm(s) =~= s);
    } else if starts_ellipsis(s) {
        assert(!(s[0] == '.' && s[1] == '.' && s[2] == '.'));
    } else {
        assert(forall|i: int| 0 <= i < s.len() - 1 ==> s.skip(1)[i] == s[i + 1]);
        lemma_norm_fixed(s.skip(1));
        assert(!is_special(s[0]));
        assert(norm(s) =~= s);
    }
}

/// The output of the normalizer has no special characters, no triple dot,
/// and no more leading dots than its input.
proof fn lemma_norm_output_clean(s: Seq<char>)
    ensures
        no_specials(norm(s)),
        no_triple_dot(norm(s)),
        lead_dots(norm(s)) <= lead_dots(s),
    decreases s.len(),
{
    if s.len() == 0 {
    } else if starts_ellipsis(s) {
        lemma_norm_output_clean(s.skip(3));
        let t = norm(s.skip(3));
        let r = seq!['…'] + t;
        assert(forall|i: int| 1 <= i < r.len() ==> r[i] == t[i - 1]);
        assert(no_specials(r));
        assert forall|i: int| 0 <= i && i + 3 <= r.len() implies !(#[trigger] r[i] == '.' && r[i
            + 1] == '.' && r[i + 2] == '.') by {
            if i > 0 {
                assert(!(t[i - 1] == '.' && t[i] == '.' && t[i + 1] == '.'));
            }
        }
        assert(r[0] != '.');
        assert(lead_dots(r) == 0);
    } else {
        lemma_norm_output_clean(s.skip(1));
        let t = norm(s.skip(1));
        let c = special_sub(s[0]);
        let r = seq![c] + t;
        assert(forall|i: int| 1 <= i < r.len() ==> r[i] == t[i - 1]);
        assert(!is_special(c));
        assert(no_specials(r));
        if s[0] == '.' {
            // A dot kept on its own: the tail cannot continue it to a triple.
            assert(c == '.');
            assert(r.skip(1) =~= t);
            assert(lead_dots(r) == 1 + lead_dots(t));
            if s.len() >= 2 && s[1] == '.' {
                assert(!starts_ellipsis(s));
                assert(s.len() < 3 || s[2] != '.');
                assert(s.skip(1)[0] == '.');
                if s.len() >= 3 {
                    assert(s.skip(1)[1] == s[2]);
                    assert(lead_dots(s.skip(1)) == 1 + lead_dots(s.skip(1).skip(1)));
                    assert(s.skip(1).skip(1) =~= s.skip(2));
                    if s.len() == 3 {
                        assert(s.skip(2).len() == 1);
                        assert(s.skip(2)[0] == s[2]);
                        assert(lead_dots(s.skip(2)) == 0);
                    } else {
                        assert(s.skip(2)[0] == s[2]);
                        assert(lead_dots(s.skip(2)) == 0);
                    }
                    assert(lead_dots(s.skip(1)) == 1);
                } else {
                    assert(s.skip(1).len() == 1);
                    assert(lead_dots(s.skip(1).skip(1)) == 0);
                    assert(lead_dots(s.skip(1)) == 1);
                }
            } else {
                if s.len() >= 2 {
                    assert(s.skip(1)[0] == s[1]);
                    assert(lead_dots(s.skip(1)) == 0);
                } else {
                    assert(lead_dots(s.skip(1)) == 0);
                }
            }
            assert(lead_dots(t) <= 1);
            lemma_lead_dots_bounds_prefix(t);
            assert forall|i: int| 0 <= i && i + 3 <= r.len() implies !(#[trigger] r[i] == '.' && r[i
                + 1] == '.' && r[i + 2] == '.') by {
                if i > 0 {
                    assert(!(t[i - 1] == '.' && t[i] == '.' && t[i + 1] == '.'));
                } else {
                    assert(!(t.len() >= 2 && t[0] == '.' && t[1] == '.'));
                }
            }
            assert(lead_dots(r) <= lead_dots(s));
        } else {
            assert(c != '.');
            assert forall|i: int| 0 <= i && i + 3 <= r.len() implies !(#[trigger] r[i] == '.' && r[i
                + 1] == '.' && r[i + 2] == '.') by {
                if i > 0 {
                    assert(!(t[i - 1] == '.' && t[i] == '.' && t[i + 1] == '.'));
                }
            }
            assert(lead_dots(r) == 0);
        }
    }
}

/// Normalizing already-normalized text is a no-op.
pub proof fn lemma_normalize_idempotent(s: Seq<char>)
    ensures
        norm(norm(s)) == norm(s),
{
    lemma_norm_output_clean(s);
    lemma_norm_fixed(norm(s));
}

/// Rewrite ASCII punctuation in `raw` to the full-width equivalents.
pub fn normalize_text(raw: &str) -> (out: String)
    ensures
        out@ == norm(raw@),
{
    let n = raw.unicode_len();
    let mut out = String::new();
    let mut i: usize = 0;
    proof {
        assert(raw@.skip(0) =~= raw@);
        assert(out@ + norm(raw@) =~= norm(raw@));
    }
    while i < n
        invariant
            n == raw@.len(),
            0 <= i <= n,
            norm(raw@) == out@ + norm(raw@.skip(i as int)),
        decreases n - i,
    {
        let ghost rest = raw@.skip(i as int);
        proof {
            assert(rest.len() == n - i);
            assert(forall|j: int| 0 <= j < rest.len() ==> rest[j] == raw@[i + j]);
        }
        let c = raw.get_char(i);
        if c == '.' && n - i > 2 && raw.get_char(i + 1) == '.' && raw.get_char(i + 2) == '.' {
            out.append("…");
            proof {
                reveal_strlit("…");
                assert(starts_ellipsis(rest));
                assert(rest.skip(3) =~= raw@.skip(i + 3));
                assert(out@ + norm(raw@.skip(i + 3)) =~= norm(raw@));
            }
            i += 3;
        } else {
            proof {
                assert(!starts_ellipsis(rest)) by {
                    if i + 2 < n {
                        assert(rest[1] == raw@[i + 1] && rest[2] == raw@[i + 2]);
                    }
                }
                assert(norm(rest) == seq![special_sub(rest[0])] + norm(rest.skip(1)));
                assert(rest.skip(1) =~= raw@.skip(i + 1));
            }
            if c == '?' {
                out.append("？");
                proof {
                    reveal_strlit("？");
                }
            } else if c == '!' {
                out.append("！");
                proof {
                    reveal_strlit("！");
                }
            } else if c == '(' {
                out.append("（");
                proof {
                    reveal_strlit("（");
                }
            } else if c == ')' {
                out.append("）");
                proof {
                    reveal_strlit("）");
                }
            } else if c == '~' {
                out.append("〜");
                proof {
                    reveal_strlit("〜");
                }
            } else {
                let piece = raw.substring_char(i, i + 1);
                out.append(piece);
                proof {
                    assert(piece@ =~= seq![special_sub(rest[0])]);
                }
            }
            proof {
                assert(out@ + norm(raw@.skip(i + 1)) =~= norm(raw@));
            }
            i += 1;
        }
    }
    proof {
        assert(raw@.skip(n as int) =~= Seq::<char>::empty());
        assert(out@ + norm(Seq::<char>::empty()) =~= out@);
    }
    out
}

} // verus!
