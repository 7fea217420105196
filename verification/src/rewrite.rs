use vstd::prelude::*;
use vstd::string::*;

use crate::assets::{replacements_view, Replacement, ReplacementModel};

verus! {

/// `pattern` occurs in `text` starting at character position `i`.
pub open spec fn occurs_at(text: Seq<char>, pattern: Seq<char>, i: int) -> bool {
    &&& 0 <= i
    &&& i + pattern.len() <= text.len()
    &&& text.subrange(i, i + pattern.len() as int) == pattern
}

/// `pattern` occurs somewhere in `text`.
pub open spec fn contains_pattern(text: Seq<char>, pattern: Seq<char>) -> bool {
    exists|i: int| occurs_at(text, pattern, i)
}

/// Replacing every literal occurrence of `pattern` in `text` by
/// `replacement`, scanning left to right over non-overlapping occurrences.
/// An empty pattern replaces nothing.
pub open spec fn replace_all_spec(
    text: Seq<char>,
    pattern: Seq<char>,
    replacement: Seq<char>,
) -> Seq<char>
    decreases text.len(),
{
    if pattern.len() == 0 || text.len() < pattern.len() {
        text
    } else if text.subrange(0, pattern.len() as int) == pattern {
        replacement + replace_all_spec(text.skip(pattern.len() as int), pattern, replacement)
    } else {
        seq![text[0]] + replace_all_spec(text.skip(1), pattern, replacement)
    }
}

/// Applying a sequence of replacements to a text, one after the other, in
/// recording order. A later replacement also sees what earlier ones
/// produced: the substitution is literal and non-scoped by design.
pub open spec fn rewrite_all_spec(text: Seq<char>, replacements: Seq<ReplacementModel>) -> Seq<
    char,
>
    decreases replacements.len(),
{
    if replacements.len() == 0 {
        text
    } else {
        rewrite_all_spec(
            replace_all_spec(
                text,
                replacements[0].original_text,
                replacements[0].replacement_text,
            ),
            replacements.drop_first(),
        )
    }
}

/// Whether `pattern` occurs in `text` at character position `i`.
fn matches_at(text: &str, pattern: &str, i: usize) -> (r: bool)
    requires
        i + pattern@.len() <= text@.len(),
    ensures
        r == occurs_at(text@, pattern@, i as int),
{
    let n: usize = text.unicode_len();
    let m: usize = pattern.unicode_len();
    let mut j: usize = 0;
    while j < m
        invariant
            j <= m,
            n == text@.len(),
            m == pattern@.len(),
            i + m <= text@.len(),
            forall|k: int| 0 <= k < j ==> text@[i + k] == pattern@[k],
        decreases m - j,
    {
        if text.get_char(i + j) != pattern.get_char(j) {
            proof {
                let s = text@.subrange(i as int, i + m);
                assert(s[j as int] == text@[i + j]);
            }
            return false;
        }
        j += 1;
    }
    proof {
        assert(text@.subrange(i as int, i + m) =~= pattern@);
    }
    true
}

/// Replaces every literal occurrence of `pattern` in `text` by
/// `replacement`, scanning left to right: the semantics of a sequential
/// literal substitution pass.
pub fn replace_all(text: &str, pattern: &str, replacement: &str) -> (r: String)
    requires
        pattern@.len() >= 1,
    ensures
        r@ == replace_all_spec(text@, pattern@, replacement@),
{
    let n: usize = text.unicode_len();
    let m: usize = pattern.unicode_len();
    let mut out = String::new();
    let mut i: usize = 0;
    proof {
        assert(text@.skip(0) =~= text@);
        assert(out@ + replace_all_spec(text@, pattern@, replacement@) =~= replace_all_spec(
            text@,
            pattern@,
            replacement@,
        ));
    }
    while i < n
        invariant
            i <= n,
            n == text@.len(),
            m == pattern@.len(),
            m >= 1,
            replace_all_spec(text@, pattern@, replacement@) == out@ + replace_all_spec(
                text@.skip(i as int),
                pattern@,
                replacement@,
            ),
        decreases n - i,
    {
        let ghost suffix = text@.skip(i as int);
        if m <= n - i && matches_at(text, pattern, i) {
            proof {
                assert(suffix.subrange(0, m as int) =~= text@.subrange(i as int, i + m));
                assert(suffix.skip(m as int) =~= text@.skip(i + m));
                assert(replace_all_spec(suffix, pattern@, replacement@) == replacement@
                    + replace_all_spec(text@.skip(i + m), pattern@, replacement@));
            }
            let ghost out_pre = out@;
            out.append(replacement);
            proof {
                let rest = replace_all_spec(text@.skip(i + m), pattern@, replacement@);
                assert((out_pre + replacement@) + rest =~= out_pre + (replacement@ + rest));
            }
            i += m;
        } else {
            proof {
                assert(suffix[0] == text@[i as int]);
                assert(suffix.skip(1) =~= text@.skip(i as int + 1));
                if m <= n - i {
                    assert(suffix.subrange(0, m as int) =~= text@.subrange(i as int, i + m));
                    assert(suffix.subrange(0, m as int) != pattern@);
                    assert(replace_all_spec(suffix, pattern@, replacement@) == seq![suffix[0]]
                        + replace_all_spec(suffix.skip(1), pattern@, replacement@));
                } else {
                    assert(suffix.len() < m);
                    assert(replace_all_spec(suffix, pattern@, replacement@) == suffix);
                    assert(suffix =~= seq![suffix[0]] + suffix.skip(1));
                    assert(replace_all_spec(suffix.skip(1), pattern@, replacement@) == suffix.skip(
                        1,
                    ));
                }
            }
            let piece = text.substring_char(i, i + 1);
            proof {
                assert(piece@ =~= seq![text@[i as int]]);
            }
            let ghost out_pre = out@;
            out.append(piece);
            proof {
                let rest = replace_all_spec(text@.skip(i as int + 1), pattern@, replacement@);
                assert((out_pre + piece@) + rest =~= out_pre + (piece@ + rest));
            }
            i += 1;
        }
    }
    proof {
        assert(text@.skip(n as int) =~= Seq::<char>::empty());
        assert(replace_all_spec(Seq::<char>::empty(), pattern@, replacement@)
            == Seq::<char>::empty());
        assert(out@ + Seq::<char>::empty() =~= out@);
    }
    out
}

/// Applies every recorded replacement to the page text, in recording order:
/// the final pass that points the page at its locally saved assets.
pub fn rewrite_page(text: &str, replacements: &Vec<Replacement>) -> (r: String)
    requires
        forall|k: int|
            0 <= k < replacements@.len() ==> (#[trigger] replacements@[k]).original_text@.len()
                > 0,
    ensures
        r@ == rewrite_all_spec(text@, replacements_view(replacements@)),
{
    let ghost models = replacements_view(replacements@);
    let mut current = String::from_str(text);
    let mut k: usize = 0;
    proof {
        assert(models.skip(0) =~= models);
    }
    while k < replacements.len()
        invariant
            k <= replacements@.len(),
            models == replacements_view(replacements@),
            models.len() == replacements@.len(),
            forall|j: int|
                0 <= j < replacements@.len() ==> (#[trigger] replacements@[j]).original_text@.len()
                    > 0,
            rewrite_all_spec(text@, models) == rewrite_all_spec(
                current@,
                models.skip(k as int),
            ),
        decreases replacements@.len() - k,
    {
        proof {
            assert(models.skip(k as int).len() > 0);
            assert(models.skip(k as int)[0] == models[k as int]);
            assert(models[k as int] == replacements@[k as int]@);
            assert(models.skip(k as int).drop_first() =~= models.skip(k as int + 1));
        }
        let pair = &replacements[k];
        current = replace_all(
            current.as_str(),
            pair.original_text.as_str(),
            pair.replacement_text.as_str(),
        );
        k += 1;
    }
    proof {
        assert(models.skip(models.len() as int) =~= Seq::<ReplacementModel>::empty());
    }
    current
}

/// The induction behind `lemma_replace_all_clears`. Besides the absence of
/// the pattern it carries the fact the literal case needs: a short tail of
/// the pattern seen at the front of the output was already at the front of
/// the input.
proof fn lemma_replace_all_clears_rec(text: Seq<char>, pattern: Seq<char>, replacement: Seq<char>)
    requires
        pattern.len() >= 1,
        replacement.len() >= 1,
        forall|i: int| 0 <= i < replacement.len() ==> replacement[i] != pattern[0],
        forall|k: int| 1 <= k < pattern.len() ==> pattern[k] != replacement[0],
    ensures
        !contains_pattern(replace_all_spec(text, pattern, replacement), pattern),
        forall|k: int|
            1 <= k < pattern.len() && (#[trigger] pattern.skip(k)).is_prefix_of(
                replace_all_spec(text, pattern, replacement),
            ) ==> pattern.skip(k).is_prefix_of(text),
    decreases text.len(),
{
    let plen = pattern.len() as int;
    let rlen = replacement.len() as int;
    let whole = replace_all_spec(text, pattern, replacement);
    if text.len() < pattern.len() {
        // nothing was replaced, and the text is too short to hold the pattern
        assert(whole == text);
        if contains_pattern(whole, pattern) {
            let i = choose|i: int| occurs_at(whole, pattern, i);
            assert(false);
        }
    } else if text.subrange(0, plen) == pattern {
        let tail = text.skip(plen);
        let rest = replace_all_spec(tail, pattern, replacement);
        lemma_replace_all_clears_rec(tail, pattern, replacement);
        assert(whole == replacement + rest);
        if contains_pattern(whole, pattern) {
            let i = choose|i: int| occurs_at(whole, pattern, i);
            if i < rlen {
                assert(pattern[0] == whole.subrange(i, i + plen)[0]);
                assert(pattern[0] == whole[i]);
                assert(whole[i] == replacement[i]);
                assert(false);
            } else {
                assert(rest.subrange(i - rlen, i - rlen + plen) =~= whole.subrange(i, i + plen));
                assert(occurs_at(rest, pattern, i - rlen));
                assert(false);
            }
        }
        assert forall|k: int|
            1 <= k < pattern.len() && (#[trigger] pattern.skip(k)).is_prefix_of(whole) implies
            pattern.skip(k).is_prefix_of(text) by {
            assert(pattern.skip(k)[0] == pattern[k]);
            assert(whole.subrange(0, plen - k)[0] == whole[0]);
            assert(whole[0] == replacement[0]);
            assert(false);
        }
    } else {
        let tail = text.skip(1);
        let rest = replace_all_spec(tail, pattern, replacement);
        lemma_replace_all_clears_rec(tail, pattern, replacement);
        assert(whole == seq![text[0]] + rest);
        assert(whole[0] == text[0]);
        if contains_pattern(whole, pattern) {
            let i = choose|i: int| occurs_at(whole, pattern, i);
            if i == 0 {
                assert(pattern[0] == whole.subrange(0, plen)[0]);
                assert(pattern[0] == text[0]);
                if plen == 1 {
                    assert(text.subrange(0, 1) =~= pattern);
                } else {
                    assert(pattern.skip(1).is_prefix_of(rest)) by {
                        assert forall|j: int| 0 <= j < plen - 1 implies pattern.skip(1)[j]
                            == rest.subrange(0, plen - 1)[j] by {
                            assert(pattern.skip(1)[j] == pattern[j + 1]);
                            assert(pattern[j + 1] == whole.subrange(0, plen)[j + 1]);
                            assert(whole[j + 1] == rest[j]);
                        }
                        assert(pattern.skip(1) =~= rest.subrange(0, plen - 1));
                    }
                    assert(pattern.skip(1).is_prefix_of(tail));
                    assert(text.subrange(0, plen) =~= pattern) by {
                        assert forall|j: int| 0 <= j < plen implies text.subrange(0, plen)[j]
                            == pattern[j] by {
                            if j >= 1 {
                                assert(pattern.skip(1)[j - 1] == tail.subrange(0, plen - 1)[j
                                    - 1]);
                                assert(tail[j - 1] == text[j]);
                            }
                        }
                    }
                }
                assert(false);
            } else {
                assert(rest.subrange(i - 1, i - 1 + plen) =~= whole.subrange(i, i + plen));
                assert(occurs_at(rest, pattern, i - 1));
                assert(false);
            }
        }
        assert forall|k: int|
            1 <= k < pattern.len() && (#[trigger] pattern.skip(k)).is_prefix_of(whole) implies
            pattern.skip(k).is_prefix_of(text) by {
            assert(pattern.skip(k)[0] == pattern[k]);
            assert(whole.subrange(0, plen - k)[0] == whole[0]);
            assert(pattern[k] == text[0]);
            if k + 1 == plen {
                assert(pattern.skip(k) =~= text.subrange(0, 1));
            } else {
                assert(pattern.skip(k + 1).is_prefix_of(rest)) by {
                    assert forall|j: int| 0 <= j < plen - k - 1 implies #[trigger] pattern.skip(
                        k + 1,
                    )[j] == rest.subrange(0, plen - k - 1)[j] by {
                        assert(pattern.skip(k + 1)[j] == pattern[k + 1 + j]);
                        assert(pattern[k + 1 + j] == pattern.skip(k)[j + 1]);
                        assert(pattern.skip(k)[j + 1] == whole.subrange(0, plen - k)[j + 1]);
                        assert(whole[j + 1] == rest[j]);
                    }
                    assert(pattern.skip(k + 1) =~= rest.subrange(0, plen - k - 1));
                }
                assert(pattern.skip(k + 1).is_prefix_of(tail));
                assert(pattern.skip(k) =~= text.subrange(0, plen - k)) by {
                    assert forall|j: int| 0 <= j < plen - k implies #[trigger] pattern.skip(k)[j]
                        == text.subrange(0, plen - k)[j] by {
                        if j >= 1 {
                            assert(pattern.skip(k)[j] == pattern[k + j]);
                            assert(pattern[k + j] == pattern.skip(k + 1)[j - 1]);
                            assert(pattern.skip(k + 1)[j - 1] == tail.subrange(0, plen - k - 1)[j
                                - 1]);
                            assert(tail[j - 1] == text[j]);
                        }
                    }
                }
            }
        }
    }
}

/// After the substitution pass, the pattern occurs nowhere in the result,
/// provided the replacement cannot rebuild it: the pattern's first
/// character appears nowhere in the replacement, and the replacement's
/// first character nowhere past the pattern's start. Without such a guard
/// the claim fails: replacing `"/style.css"` by `"css/style.css"` leaves a
/// text that still holds `"/style.css"`.
pub proof fn lemma_replace_all_clears(text: Seq<char>, pattern: Seq<char>, replacement: Seq<char>)
    requires
        pattern.len() >= 1,
        replacement.len() >= 1,
        forall|i: int| 0 <= i < replacement.len() ==> replacement[i] != pattern[0],
        forall|k: int| 1 <= k < pattern.len() ==> pattern[k] != replacement[0],
    ensures
        !contains_pattern(replace_all_spec(text, pattern, replacement), pattern),
{
    lemma_replace_all_clears_rec(text, pattern, replacement);
}

/// The page-level reading of `lemma_replace_all_clears`: once a reference's
/// substitution pass has run, the rewritten page holds no occurrence of the
/// original reference text, under the same guard on the two strings.
pub proof fn lemma_rewrite_clears_reference(text: Seq<char>, pair: ReplacementModel)
    requires
        pair.original_text.len() >= 1,
        pair.replacement_text.len() >= 1,
        forall|i: int|
            0 <= i < pair.replacement_text.len() ==> pair.replacement_text[i]
                != pair.original_text[0],
        forall|k: int|
            1 <= k < pair.original_text.len() ==> pair.original_text[k]
                != pair.replacement_text[0],
    ensures
        !contains_pattern(rewrite_all_spec(text, seq![pair]), pair.original_text),
{
    let once = seq![pair];
    let inner = replace_all_spec(text, pair.original_text, pair.replacement_text);
    assert(once.len() == 1);
    assert(once[0] == pair);
    assert(once.drop_first() =~= Seq::<ReplacementModel>::empty());
    assert(rewrite_all_spec(text, once) == rewrite_all_spec(inner, once.drop_first()));
    assert(rewrite_all_spec(inner, once.drop_first()) == inner);
    lemma_replace_all_clears(text, pair.original_text, pair.replacement_text);
}

/// A text that nowhere holds the pattern is left exactly as it is: in
/// particular a pass whose work is already done changes nothing.
pub proof fn lemma_replace_all_absent(text: Seq<char>, pattern: Seq<char>, replacement: Seq<char>)
    requires
        pattern.len() >= 1,
        !contains_pattern(text, pattern),
    ensures
        replace_all_spec(text, pattern, replacement) == text,
    decreases text.len(),
{
    if text.len() < pattern.len() {
    } else if text.subrange(0, pattern.len() as int) == pattern {
        assert(occurs_at(text, pattern, 0));
        assert(false);
    } else {
        assert(!contains_pattern(text.skip(1), pattern)) by {
            if contains_pattern(text.skip(1), pattern) {
                let i = choose|i: int| occurs_at(text.skip(1), pattern, i);
                assert(text.subrange(i + 1, i + 1 + pattern.len() as int) =~= text.skip(
                    1,
                ).subrange(i, i + pattern.len() as int));
                assert(occurs_at(text, pattern, i + 1));
            }
        }
        lemma_replace_all_absent(text.skip(1), pattern, replacement);
        assert(seq![text[0]] + text.skip(1) =~= text);
    }
}

} // verus!
