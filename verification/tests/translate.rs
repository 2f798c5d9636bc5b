//! Tests for the query-shorthand translator: the four surface forms, the
//! dropping of blank clauses, and the best-effort handling of malformed
//! quoting.

use calmbench::translate::parse_query;

#[test]
fn mixed_phrase_and_term() {
    assert_eq!(
        parse_query("\"the who\"+uk"),
        "text=phrase('the who',slop=0) and text='uk'"
    );
}

#[test]
fn mixed_with_leading_plus_and_spaces() {
    assert_eq!(
        parse_query("+\"the who\" +uk"),
        "text=phrase('the who',slop=0) and text='uk'"
    );
}

#[test]
fn mixed_blank_clause_dropped() {
    assert_eq!(
        parse_query("\"the who\"+ +uk"),
        "text=phrase('the who',slop=0) and text='uk'"
    );
}

#[test]
fn mixed_two_phrases() {
    assert_eq!(
        parse_query("\"a b\"+\"c d\""),
        "text=phrase('a b',slop=0) and text=phrase('c d',slop=0)"
    );
}

#[test]
fn mixed_all_clauses_blank() {
    assert_eq!(parse_query("\" \"+ "), "text=phrase(' ',slop=0)");
}

#[test]
fn single_phrase() {
    assert_eq!(parse_query("\"quoted phrase\""), "text=phrase('quoted phrase',slop=0)");
}

#[test]
fn phrase_keeps_surrounding_spaces() {
    assert_eq!(parse_query("\" padded \""), "text=phrase(' padded ',slop=0)");
}

#[test]
fn unbalanced_quote_best_effort() {
    assert_eq!(parse_query("\"abc"), "text=phrase('abc',slop=0)");
}

#[test]
fn intersection_of_terms() {
    assert_eq!(parse_query("a+b"), "text=text('a b',operator='and')");
}

#[test]
fn intersection_of_longer_terms() {
    assert_eq!(parse_query("rock+roll+uk"), "text=text('rock roll uk',operator='and')");
}

#[test]
fn union_of_terms() {
    assert_eq!(parse_query("a,b"), "text=text('a,b',operator='or')");
}

#[test]
fn union_keeps_input_verbatim() {
    assert_eq!(parse_query("the who"), "text=text('the who',operator='or')");
}

#[test]
fn plus_inside_quotes_still_splits() {
    // Quoting is not validated: the split on `+` happens regardless, and
    // each half keeps its own quote stripped away.
    assert_eq!(
        parse_query("\"a+b\""),
        "text=phrase('a',slop=0) and text=phrase('b',slop=0)"
    );
}

#[test]
fn trailing_plus_becomes_trailing_space() {
    assert_eq!(parse_query("a+b+"), "text=text('a b ',operator='and')");
}

#[test]
fn multibyte_terms_survive_translation() {
    assert_eq!(parse_query("naïve+café"), "text=text('naïve café',operator='and')");
    assert_eq!(parse_query("\"дом кино\""), "text=phrase('дом кино',slop=0)");
}

#[test]
fn union_of_empty_input() {
    assert_eq!(parse_query(""), "text=text('',operator='or')");
}
