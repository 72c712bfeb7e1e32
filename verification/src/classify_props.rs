//! Properties of statement classification: surrounding whitespace and
//! ASCII letter case never change how a statement is classified.

use vstd::prelude::*;
use crate::classify::{
    OperationType, fold_code, folded_codes, is_ascii_space, is_unicode_space, leading_token,
    spec_classify, spec_trim, trim_end, trim_start,
};

verus! {

/// Every character of the text is Unicode whitespace.
pub open spec fn all_space(s: Seq<char>) -> bool {
    forall|j: int| 0 <= j < s.len() ==> is_unicode_space(#[trigger] s[j])
}

/// Two texts of equal length whose characters agree up to ASCII letter
/// case.
pub open spec fn fold_eq(s: Seq<char>, t: Seq<char>) -> bool {
    s.len() == t.len() && forall|j: int|
        0 <= j < s.len() ==> fold_code(s[j]) == fold_code(#[trigger] t[j])
}

proof fn lemma_trim_start_of_space(s: Seq<char>)
    requires
        all_space(s),
    ensures
        trim_start(s) == Seq::<char>::empty(),
    decreases s.len(),
{
    if s.len() > 0 {
        lemma_trim_start_of_space(s.drop_first());
    } else {
        assert(s =~= Seq::<char>::empty());
    }
}

proof fn lemma_trim_start_prefix(pre: Seq<char>, x: Seq<char>)
    requires
        all_space(pre),
    ensures
        trim_start(pre + x) == trim_start(x),
    decreases pre.len(),
{
    if pre.len() == 0 {
        assert(pre + x =~= x);
    } else {
        assert((pre + x)[0] == pre[0]);
        assert((pre + x).drop_first() =~= pre.drop_first() + x);
        lemma_trim_start_prefix(pre.drop_first(), x);
    }
}

proof fn lemma_trim_end_suffix(x: Seq<char>, post: Seq<char>)
    requires
        all_space(post),
    ensures
        trim_end(x + post) == trim_end(x),
    decreases post.len(),
{
    if post.len() == 0 {
        assert(x + post =~= x);
    } else {
        assert((x + post).last() == post.last());
        assert((x + post).drop_last() =~= x + post.drop_last());
        lemma_trim_end_suffix(x, post.drop_last());
    }
}

proof fn lemma_trim_start_through_suffix(s: Seq<char>, post: Seq<char>)
    ensures
        trim_start(s).len() > 0 ==> trim_start(s + post) == trim_start(s) + post,
        trim_start(s).len() == 0 ==> trim_start(s + post) == trim_start(post),
    decreases s.len(),
{
    if s.len() == 0 {
        assert(s + post =~= post);
    } else {
        assert((s + post)[0] == s[0]);
        if is_unicode_space(s[0]) {
            assert((s + post).drop_first() =~= s.drop_first() + post);
            lemma_trim_start_through_suffix(s.drop_first(), post);
        } else {
            assert(trim_start(s + post) == s + post);
        }
    }
}

/// Surrounding a statement with Unicode whitespace on either side never
/// changes its classification.
pub proof fn lemma_classify_ignores_outer_whitespace(pre: Seq<char>, s: Seq<char>, post: Seq<char>)
    requires
        all_space(pre),
        all_space(post),
    ensures
        spec_classify(pre + s + post) == spec_classify(s),
{
    assert(pre + s + post =~= pre + (s + post));
    lemma_trim_start_prefix(pre, s + post);
    lemma_trim_start_through_suffix(s, post);
    if trim_start(s).len() > 0 {
        lemma_trim_end_suffix(trim_start(s), post);
        assert(spec_trim(pre + s + post) == spec_trim(s));
    } else {
        lemma_trim_start_of_space(post);
        assert(spec_trim(pre + s + post) == Seq::<char>::empty());
        assert(spec_trim(s) == Seq::<char>::empty());
    }
}

proof fn lemma_fold_preserves_space(a: char, b: char)
    requires
        fold_code(a) == fold_code(b),
    ensures
        is_unicode_space(a) == is_unicode_space(b),
        is_ascii_space(a) == is_ascii_space(b),
{
}

proof fn lemma_trim_start_fold(s: Seq<char>, t: Seq<char>)
    requires
        fold_eq(s, t),
    ensures
        fold_eq(trim_start(s), trim_start(t)),
    decreases s.len(),
{
    if s.len() > 0 {
        lemma_fold_preserves_space(s[0], t[0]);
        if is_unicode_space(s[0]) {
            assert(fold_eq(s.drop_first(), t.drop_first()));
            lemma_trim_start_fold(s.drop_first(), t.drop_first());
        }
    }
}

proof fn lemma_trim_end_fold(s: Seq<char>, t: Seq<char>)
    requires
        fold_eq(s, t),
    ensures
        fold_eq(trim_end(s), trim_end(t)),
    decreases s.len(),
{
    if s.len() > 0 {
        lemma_fold_preserves_space(s.last(), t.last());
        if is_unicode_space(s.last()) {
            assert(fold_eq(s.drop_last(), t.drop_last()));
            lemma_trim_end_fold(s.drop_last(), t.drop_last());
        }
    }
}

proof fn lemma_leading_token_fold(s: Seq<char>, t: Seq<char>)
    requires
        fold_eq(s, t),
    ensures
        fold_eq(leading_token(s), leading_token(t)),
    decreases s.len(),
{
    if s.len() > 0 {
        lemma_fold_preserves_space(s[0], t[0]);
        if !is_ascii_space(s[0]) {
            assert(fold_eq(s.drop_first(), t.drop_first()));
            lemma_leading_token_fold(s.drop_first(), t.drop_first());
            assert(fold_eq(seq![s[0]] + leading_token(s.drop_first()), seq![t[0]] + leading_token(
                t.drop_first(),
            )));
        }
    }
}

/// Two texts that differ only in ASCII letter case are classified the
/// same way.
pub proof fn lemma_classify_ignores_ascii_case(s: Seq<char>, t: Seq<char>)
    requires
        fold_eq(s, t),
    ensures
        spec_classify(s) == spec_classify(t),
{
    lemma_trim_start_fold(s, t);
    lemma_trim_end_fold(trim_start(s), trim_start(t));
    lemma_leading_token_fold(spec_trim(s), spec_trim(t));
    let a = leading_token(spec_trim(s));
    let b = leading_token(spec_trim(t));
    assert(folded_codes(a) =~= folded_codes(b));
}

} // verus!
