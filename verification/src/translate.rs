//! The query-shorthand translator: a pure, total map from a compact
//! tag-query string to the engine's structured predicate syntax.
//!
//! Which of four surface forms an input takes is decided by the presence of
//! the characters `"` and `+`:
//! - both present: a conjunction of clauses separated by `+`, each clause a
//!   quoted phrase or a bare term, blank clauses dropped;
//! - only `"`: one phrase, matched with zero slop;
//! - only `+`: an intersection of bare terms, `+` turned into spaces;
//! - neither: a union of the terms as given.
//!
//! Malformed quoting is not detected: the translation is best effort, and
//! total over every input.

use vstd::prelude::*;
use vstd::string::StrSliceExecFns;
use vstd::string::StringExecFns;

use crate::text::append_plus_as_space;
use crate::text::append_stripped;
use crate::text::blank_str;
use crate::text::find_from;
use crate::text::is_blank;
use crate::text::lemma_split_on_last;
use crate::text::lemma_split_on_step;
use crate::text::seq_contains_char;
use crate::text::split_on;
use crate::text::str_contains_char;
use crate::text::strip_char;
use crate::text::swap_char;
use crate::text::trim_str;
use crate::text::trimmed;

verus! {

/// A phrase-match predicate over the fulltext field, with zero slop.
pub open spec fn phrase_pred(t: Seq<char>) -> Seq<char> {
    "text=phrase('"@ + t + "',slop=0)"@
}

/// An exact-term-equality predicate over the fulltext field.
pub open spec fn term_pred(t: Seq<char>) -> Seq<char> {
    "text='"@ + t + "'"@
}

/// A term-match predicate that intersects its space-separated terms.
pub open spec fn and_terms(t: Seq<char>) -> Seq<char> {
    "text=text('"@ + t + "',operator='and')"@
}

/// A term-match predicate that unions its terms.
pub open spec fn or_terms(t: Seq<char>) -> Seq<char> {
    "text=text('"@ + t + "',operator='or')"@
}

/// The predicate for one already-trimmed clause of a mixed conjunction:
/// a quoted clause becomes a zero-slop phrase with its quotes removed, a
/// bare clause an exact term.
pub open spec fn clause_pred(t: Seq<char>) -> Seq<char> {
    if seq_contains_char(t, '"') {
        phrase_pred(strip_char(t, '"'))
    } else {
        term_pred(t)
    }
}

/// The predicates of a sequence of raw clauses: clauses that are blank
/// after trimming are dropped, the rest are trimmed and translated.
pub open spec fn preds_of(pieces: Seq<Seq<char>>) -> Seq<Seq<char>>
    decreases pieces.len(),
{
    if pieces.len() == 0 {
        Seq::empty()
    } else if is_blank(pieces[0]) {
        preds_of(pieces.drop_first())
    } else {
        seq![clause_pred(trimmed(pieces[0]))] + preds_of(pieces.drop_first())
    }
}

/// The predicates joined with the engine's conjunction keyword.
pub open spec fn joined(preds: Seq<Seq<char>>) -> Seq<char>
    decreases preds.len(),
{
    if preds.len() == 0 {
        Seq::empty()
    } else if preds.len() == 1 {
        preds[0]
    } else {
        preds[0] + " and "@ + joined(preds.drop_first())
    }
}

/// The translation of a shorthand query: the decision table over the
/// presence of `"` and `+`.
pub open spec fn translated(q: Seq<char>) -> Seq<char> {
    if seq_contains_char(q, '"') {
        if seq_contains_char(q, '+') {
            joined(preds_of(split_on(q, '+')))
        } else {
            phrase_pred(strip_char(q, '"'))
        }
    } else if seq_contains_char(q, '+') {
        and_terms(swap_char(q, '+', ' '))
    } else {
        or_terms(q)
    }
}

proof fn lemma_preds_of_snoc(pieces: Seq<Seq<char>>, p: Seq<char>)
    ensures
        preds_of(pieces.push(p)) == preds_of(pieces) + (if is_blank(p) {
            Seq::<Seq<char>>::empty()
        } else {
            seq![clause_pred(trimmed(p))]
        }),
    decreases pieces.len(),
{
    let tail = (if is_blank(p) {
        Seq::<Seq<char>>::empty()
    } else {
        seq![clause_pred(trimmed(p))]
    });
    if pieces.len() == 0 {
        assert(preds_of(Seq::<Seq<char>>::empty()) == Seq::<Seq<char>>::empty());
        assert(pieces =~= Seq::<Seq<char>>::empty());
        assert(pieces.push(p).drop_first() =~= Seq::<Seq<char>>::empty());
        assert(pieces.push(p)[0] == p);
        assert(preds_of(pieces.push(p)) =~= tail);
        assert(preds_of(pieces) + tail =~= tail);
    } else {
        assert(pieces.push(p).drop_first() =~= pieces.drop_first().push(p));
        lemma_preds_of_snoc(pieces.drop_first(), p);
        assert(pieces.push(p)[0] == pieces[0]);
        assert(preds_of(pieces.push(p)) =~= preds_of(pieces) + tail);
    }
}

proof fn lemma_joined_snoc(preds: Seq<Seq<char>>, x: Seq<char>)
    ensures
        joined(preds.push(x)) == (if preds.len() == 0 {
            x
        } else {
            joined(preds) + " and "@ + x
        }),
    decreases preds.len(),
{
    if preds.len() == 0 {
        assert(preds.push(x)[0] == x);
        assert(joined(preds.push(x)) =~= x);
    } else {
        assert(preds.push(x).drop_first() =~= preds.drop_first().push(x));
        lemma_joined_snoc(preds.drop_first(), x);
        assert(preds.push(x)[0] == preds[0]);
        if preds.len() == 1 {
            assert(joined(preds) == preds[0]);
            assert(joined(preds.push(x)) =~= joined(preds) + " and "@ + x);
        } else {
            assert(joined(preds.push(x)) =~= joined(preds) + " and "@ + x);
        }
    }
}

/// Translates the mixed form: clauses separated by `+`, each quoted or
/// bare, blank clauses dropped, joined by conjunction.
fn parse_mixed(query: &str) -> (r: String)
    requires
        seq_contains_char(query@, '"'),
        seq_contains_char(query@, '+'),
    ensures
        r@ == translated(query@),
{
    let n = query.unicode_len();
    let mut out = String::new();
    let mut first: bool = true;
    let mut p: usize = 0;
    let ghost mut done: Seq<Seq<char>> = Seq::empty();
    proof {
        assert(query@.skip(0) =~= query@);
        assert(split_on(query@, '+') =~= done + split_on(query@.skip(0), '+'));
        assert(preds_of(done) =~= Seq::<Seq<char>>::empty());
        assert(out@ =~= joined(preds_of(done)));
    }
    loop
        invariant
            seq_contains_char(query@, '"'),
            seq_contains_char(query@, '+'),
            n == query@.len(),
            p <= n,
            split_on(query@, '+') == done + split_on(query@.skip(p as int), '+'),
            out@ == joined(preds_of(done)),
            first <==> preds_of(done).len() == 0,
        decreases n - p,
    {
        let (j, has_sep) = match find_from(query, p, '+') {
            Some(j) => (j, true),
            None => (n, false),
        };
        let piece = query.substring_char(p, j);
        let ghost old_done = done;
        if !blank_str(piece) {
            let t = trim_str(piece);
            if !first {
                out.append(" and ");
            }
            if str_contains_char(t, '"') {
                out.append("text=phrase('");
                append_stripped(&mut out, t, '"');
                out.append("',slop=0)");
            } else {
                out.append("text='");
                out.append(t);
                out.append("'");
            }
            proof {
                done = done.push(piece@);
                lemma_preds_of_snoc(old_done, piece@);
                lemma_joined_snoc(preds_of(old_done), clause_pred(trimmed(piece@)));
                assert(preds_of(done) =~= preds_of(old_done).push(clause_pred(trimmed(piece@))));
                assert(out@ =~= joined(preds_of(done)));
            }
            first = false;
        } else {
            proof {
                done = done.push(piece@);
                lemma_preds_of_snoc(old_done, piece@);
                assert(preds_of(done) =~= preds_of(old_done));
            }
        }
        if has_sep {
            proof {
                lemma_split_on_step(query@, '+', p as int, j as int);
                assert(done + split_on(query@.skip(j + 1), '+') =~= old_done + split_on(
                    query@.skip(p as int),
                    '+',
                ));
            }
            p = j + 1;
        } else {
            proof {
                lemma_split_on_last(query@, '+', p as int);
                assert(done =~= old_done + split_on(query@.skip(p as int), '+'));
                assert(done == split_on(query@, '+'));
            }
            return out;
        }
    }
}

/// Translates a shorthand query into one structured predicate over the
/// fulltext field, following the four-way decision table of `translated`.
pub fn parse_query(query: &str) -> (r: String)
    ensures
        r@ == translated(query@),
{
    let has_quote = str_contains_char(query, '"');
    let has_plus = str_contains_char(query, '+');
    if has_quote {
        if has_plus {
            parse_mixed(query)
        } else {
            let mut out = String::from_str("text=phrase('");
            append_stripped(&mut out, query, '"');
            out.append("',slop=0)");
            proof {
                assert(out@ =~= translated(query@));
            }
            out
        }
    } else if has_plus {
        let mut out = String::from_str("text=text('");
        append_plus_as_space(&mut out, query);
        out.append("',operator='and')");
        proof {
            assert(out@ =~= translated(query@));
        }
        out
    } else {
        let mut out = String::from_str("text=text('");
        out.append(query);
        out.append("',operator='or')");
        proof {
            assert(out@ =~= translated(query@));
        }
        out
    }
}

} // verus!
