//! Preparing the C source and the Dafny text: comments that hide
//! assertions are opened, and `decreases *` clauses can be dropped.
use vstd::prelude::*;

use crate::strings::seq_contains;

verus! {

/// The characters that have a meaning of their own in a regular
/// expression.
pub open spec fn is_regex_meta(c: char) -> bool {
    ||| c == '\\'
    ||| c == '.'
    ||| c == '+'
    ||| c == '*'
    ||| c == '?'
    ||| c == '('
    ||| c == ')'
    ||| c == '|'
    ||| c == '['
    ||| c == ']'
    ||| c == '{'
    ||| c == '}'
    ||| c == '^'
    ||| c == '$'
    ||| c == '#'
    ||| c == '&'
    ||| c == '-'
    ||| c == '~'
}

/// The text a regular expression matches when it is made of ordinary
/// characters and of metacharacters escaped with a backslash; `None` for
/// any other expression.
pub open spec fn regex_literal(p: Seq<char>) -> Option<Seq<char>>
    decreases p.len(),
{
    if p.len() == 0 {
        Some(seq![])
    } else if p[0] == '\\' {
        if p.len() >= 2 && is_regex_meta(p[1]) {
            match regex_literal(p.subrange(2, p.len() as int)) {
                Some(rest) => Some(seq![p[1]] + rest),
                None => None,
            }
        } else {
            None
        }
    } else if is_regex_meta(p[0]) {
        None
    } else {
        match regex_literal(p.drop_first()) {
            Some(rest) => Some(seq![p[0]] + rest),
            None => None,
        }
    }
}

/// `h` with every occurrence of `p` replaced by `rep`, the occurrences
/// taken from the left and not overlapping.
pub open spec fn replace_all_seq(h: Seq<char>, p: Seq<char>, rep: Seq<char>) -> Seq<char>
    decreases h.len(),
{
    if p.len() == 0 || h.len() < p.len() {
        h
    } else if h.subrange(0, p.len() as int) == p {
        rep + replace_all_seq(h.subrange(p.len() as int, h.len() as int), p, rep)
    } else {
        seq![h[0]] + replace_all_seq(h.drop_first(), p, rep)
    }
}

/// `regex::Regex::new(pattern)` followed by `Regex::replace_all(haystack,
/// replacement)`. For a short pattern of ordinary characters and escaped
/// metacharacters, the expression compiles and matches exactly that text;
/// every match, leftmost first and not overlapping, is replaced, and a
/// replacement without `$` is inserted as it is.
#[verifier::external_body]
fn regex_replace_all(pattern: &str, haystack: &str, replacement: &str) -> (r: String)
    requires
        regex_literal(pattern@) is Some,
        regex_literal(pattern@)->0.len() > 0,
        pattern@.len() <= 64,
        !replacement@.contains('$'),
    ensures
        r@ == replace_all_seq(haystack@, regex_literal(pattern@)->0, replacement@),
{
    regex::Regex::new(pattern).unwrap().replace_all(haystack, replacement).into_owned()
}

/// Ordinary characters, followed by an expression that matches `u`,
/// match themselves followed by `u`.
proof fn lemma_plain_then(s: Seq<char>, t: Seq<char>, u: Seq<char>)
    requires
        forall|i: int| 0 <= i < s.len() ==> !is_regex_meta(#[trigger] s[i]),
        regex_literal(t) == Some(u),
    ensures
        regex_literal(s + t) == Some(s + u),
    decreases s.len(),
{
    if s.len() > 0 {
        lemma_plain_then(s.drop_first(), t, u);
        assert((s + t).drop_first() =~= s.drop_first() + t);
        assert(seq![s[0]] + (s.drop_first() + u) =~= s + u);
    } else {
        assert(s + t =~= t);
        assert(s + u =~= u);
    }
}

/// Opens the comments that hide assertions: every `//@` is removed, then
/// every `\false` becomes `false`.
pub fn extract_assertion(input: &str) -> (r: String)
    ensures
        r@ == replace_all_seq(
            replace_all_seq(input@, seq!['/', '/', '@'], Seq::empty()),
            seq!['\\', 'f', 'a', 'l', 's', 'e'],
            seq!['f', 'a', 'l', 's', 'e'],
        ),
{
    proof {
        reveal_strlit("//@");
        reveal_strlit("\\\\false");
        reveal_strlit("");
        reveal_strlit("false");
        let e = Seq::<char>::empty();
        let marker = seq!['/', '/', '@'];
        let f = seq!['f', 'a', 'l', 's', 'e'];
        assert(regex_literal(e) == Some(e));
        lemma_plain_then(marker, e, e);
        lemma_plain_then(f, e, e);
        assert(marker + e =~= marker);
        assert(f + e =~= f);
        let p = seq!['\\', '\\'] + f;
        assert("//@"@ =~= marker);
        assert("\\\\false"@ =~= p);
        assert(p.subrange(2, 7) =~= f);
        assert(regex_literal(p) == Some(seq!['\\'] + f));
        assert(seq!['\\'] + f =~= seq!['\\', 'f', 'a', 'l', 's', 'e']);
        assert(""@ =~= e);
        assert("false"@ =~= f);
    }
    let opened = regex_replace_all("//@", input, "");
    regex_replace_all("\\\\false", opened.as_str(), "false")
}

/// Drops every `decreases *` clause from a Dafny text, so that Dafny
/// checks that the loops and methods terminate.
pub fn delete_decreases_star(input: &str) -> (r: String)
    ensures
        r@ == replace_all_seq(
            input@,
            seq!['d', 'e', 'c', 'r', 'e', 'a', 's', 'e', 's', ' ', '*'],
            Seq::empty(),
        ),
{
    proof {
        reveal_strlit("decreases \\*");
        reveal_strlit("");
        let word = seq!['d', 'e', 'c', 'r', 'e', 'a', 's', 'e', 's', ' '];
        let star = seq!['\\', '*'];
        assert("decreases \\*"@ =~= word + star);
        assert(star.subrange(2, 2) =~= Seq::<char>::empty());
        assert(regex_literal(Seq::<char>::empty()) == Some(Seq::<char>::empty()));
        assert(star[0] == '\\' && star[1] == '*' && star.len() == 2);
        assert(seq!['*'] + Seq::<char>::empty() =~= seq!['*']);
        assert(regex_literal(star) == Some(seq!['*']));
        lemma_plain_then(word, star, seq!['*']);
        assert(word + seq!['*'] =~= seq!['d', 'e', 'c', 'r', 'e', 'a', 's', 'e', 's', ' ', '*']);
        assert(""@ =~= Seq::<char>::empty());
    }
    regex_replace_all("decreases \\*", input, "")
}

/// Replacing a text that does not occur changes nothing.
pub proof fn lemma_replace_absent(h: Seq<char>, p: Seq<char>, rep: Seq<char>)
    requires
        !seq_contains(h, p),
    ensures
        replace_all_seq(h, p, rep) == h,
    decreases h.len(),
{
    if p.len() == 0 || h.len() < p.len() {
    } else {
        assert(h.subrange(0, 0 + p.len() as int) != p);
        let t = h.drop_first();
        assert(!seq_contains(t, p)) by {
            if seq_contains(t, p) {
                let i = choose|i: int| 0 <= i && i + p.len() <= t.len() && #[trigger] t.subrange(i, i + p.len()) == p;
                assert(h.subrange(i + 1, i + 1 + p.len()) =~= t.subrange(i, i + p.len()));
            }
        }
        lemma_replace_absent(t, p, rep);
        assert(seq![h[0]] + t =~= h);
    }
}

/// A source without `//@` and without `\false` has no hidden assertion to
/// open: it is left as it is.
pub proof fn lemma_unmarked_source_unchanged(input: Seq<char>)
    requires
        !seq_contains(input, seq!['/', '/', '@']),
        !seq_contains(input, seq!['\\', 'f', 'a', 'l', 's', 'e']),
    ensures
        replace_all_seq(
            replace_all_seq(input, seq!['/', '/', '@'], Seq::empty()),
            seq!['\\', 'f', 'a', 'l', 's', 'e'],
            seq!['f', 'a', 'l', 's', 'e'],
        ) == input,
{
    lemma_replace_absent(input, seq!['/', '/', '@'], Seq::empty());
    lemma_replace_absent(input, seq!['\\', 'f', 'a', 'l', 's', 'e'], seq!['f', 'a', 'l', 's', 'e']);
}

/// A Dafny text without `decreases *` is left as it is.
pub proof fn lemma_no_decreases_star_unchanged(input: Seq<char>)
    requires
        !seq_contains(input, seq!['d', 'e', 'c', 'r', 'e', 'a', 's', 'e', 's', ' ', '*']),
    ensures
        replace_all_seq(
            input,
            seq!['d', 'e', 'c', 'r', 'e', 'a', 's', 'e', 's', ' ', '*'],
            Seq::empty(),
        ) == input,
{
    lemma_replace_absent(
        input,
        seq!['d', 'e', 'c', 'r', 'e', 'a', 's', 'e', 's', ' ', '*'],
        Seq::empty(),
    );
}

} // verus!
