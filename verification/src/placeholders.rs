//! The discovery of the placeholders that a template uses.

use vstd::prelude::*;
use crate::text::{any_spells, append_chars, copy_slice, strings_of, texts, to_chars, words};

verus! {

/// The least index at or after `from` that holds a closing brace, or
/// `text.len()` where there is none.
pub open spec fn first_close(text: Seq<char>, from: int) -> int
    decreases text.len() - from,
{
    if from >= text.len() {
        text.len() as int
    } else if text[from] == '}' {
        from
    } else {
        first_close(text, from + 1)
    }
}

/// What stands between the braces of each `{...}` span that a scan of
/// `text[at..]` meets, in order. A span runs from an opening brace to the
/// next closing brace, and the scan goes on behind it. An opening brace that
/// nothing closes takes the rest of the text with it and gives no span.
pub open spec fn spans_from(text: Seq<char>, at: int) -> Seq<Seq<char>>
    decreases text.len() - at,
    via spans_from_decreases
{
    if at < 0 || at >= text.len() {
        Seq::empty()
    } else if text[at] == '{' {
        let close = first_close(text, at + 1);
        if close < text.len() {
            seq![text.subrange(at + 1, close)] + spans_from(text, close + 1)
        } else {
            Seq::empty()
        }
    } else {
        spans_from(text, at + 1)
    }
}

#[via_fn]
proof fn spans_from_decreases(text: Seq<char>, at: int) {
    if 0 <= at < text.len() {
        lemma_first_close_range(text, at + 1);
    }
}

/// The non-empty items of `spans`, each once, in the order in which they
/// first occur.
pub open spec fn distinct_nonempty(spans: Seq<Seq<char>>) -> Seq<Seq<char>>
    decreases spans.len(),
{
    if spans.len() == 0 {
        Seq::empty()
    } else {
        let before = distinct_nonempty(spans.drop_last());
        if spans.last().len() > 0 && !before.contains(spans.last()) {
            before.push(spans.last())
        } else {
            before
        }
    }
}

/// The text that placeholders are looked for in: the subject and, right
/// behind it, the body. A span left open in the subject so runs on into the
/// body.
pub open spec fn scanned_text(subject: Seq<char>, body: Seq<char>) -> Seq<char> {
    subject + body
}

/// The placeholder keys of a template: the distinct non-empty spans of the
/// subject and then the body, in first-seen order.
pub open spec fn placeholders(subject: Seq<char>, body: Seq<char>) -> Seq<Seq<char>> {
    distinct_nonempty(spans_from(scanned_text(subject, body), 0))
}

/// The least index at which `key` stands in `spans`, or `spans.len()` where
/// it stands nowhere.
pub open spec fn first_seen(spans: Seq<Seq<char>>, key: Seq<char>) -> int
    decreases spans.len(),
{
    if spans.len() == 0 {
        0
    } else if spans[0] == key {
        0
    } else {
        1 + first_seen(spans.drop_first(), key)
    }
}

/// `first_close` answers within `from..=text.len()`; below `text.len()` its
/// answer holds a closing brace, and nothing between `from` and it does.
pub proof fn lemma_first_close_range(text: Seq<char>, from: int)
    requires
        0 <= from <= text.len(),
    ensures
        from <= first_close(text, from) <= text.len(),
        first_close(text, from) < text.len() ==> text[first_close(text, from)] == '}',
        forall|i: int| from <= i < first_close(text, from) ==> text[i] != '}',
    decreases text.len() - from,
{
    if from < text.len() && text[from] != '}' {
        lemma_first_close_range(text, from + 1);
    }
}

/// The least index at or after `from` that holds a closing brace, or the
/// length of `text`.
fn find_close(text: &Vec<char>, from: usize) -> (close: usize)
    requires
        from <= text.len(),
    ensures
        close == first_close(text@, from as int),
        from <= close <= text.len(),
{
    let mut close: usize = from;
    while close < text.len() && text[close] != '}'
        invariant
            from <= close <= text.len(),
            first_close(text@, from as int) == first_close(text@, close as int),
        decreases text.len() - close,
    {
        close += 1;
    }
    close
}

/// The keys of the placeholders in a subject and a body: every non-empty
/// `{...}` span once, in first-seen order.
pub fn extract(subject: &str, body: &str) -> (keys: Vec<String>)
    ensures
        texts(keys@) == placeholders(subject@, body@),
{
    let mut text = to_chars(subject);
    let tail = to_chars(body);
    append_chars(&mut text, &tail);
    assert(text@ =~= scanned_text(subject@, body@));
    let mut found: Vec<Vec<char>> = Vec::new();
    let ghost mut seen: Seq<Seq<char>> = Seq::empty();
    let mut at: usize = 0;
    assert(words(found@) =~= distinct_nonempty(seen));
    while at < text.len()
        invariant
            at <= text.len(),
            spans_from(text@, 0) == seen + spans_from(text@, at as int),
            words(found@) == distinct_nonempty(seen),
        decreases text.len() - at,
    {
        if text[at] == '{' {
            let close = find_close(&text, at + 1);
            if close < text.len() {
                let ghost span = text@.subrange(at + 1, close as int);
                let ghost before = words(found@);
                if close > at + 1 && !any_spells(&found, &text, at + 1, close) {
                    found.push(copy_slice(&text, at + 1, close));
                    assert(words(found@) =~= before.push(span));
                }
                proof {
                    assert(seen.push(span).drop_last() =~= seen);
                    assert(seen + (seq![span] + spans_from(text@, close + 1)) =~= seen.push(
                        span,
                    ) + spans_from(text@, close + 1));
                    seen = seen.push(span);
                }
                at = close + 1;
            } else {
                at = text.len();
            }
        } else {
            at += 1;
        }
    }
    assert(seen + Seq::<Seq<char>>::empty() =~= seen);
    strings_of(&found)
}

/// `first_seen` is the least index that holds the key.
proof fn lemma_first_seen(spans: Seq<Seq<char>>, key: Seq<char>)
    ensures
        0 <= first_seen(spans, key) <= spans.len(),
        first_seen(spans, key) < spans.len() ==> spans[first_seen(spans, key)] == key,
        forall|i: int| 0 <= i < first_seen(spans, key) ==> spans[i] != key,
    decreases spans.len(),
{
    if spans.len() > 0 && spans[0] != key {
        let rest = spans.drop_first();
        lemma_first_seen(rest, key);
        assert forall|i: int| 0 <= i < first_seen(spans, key) implies spans[i] != key by {
            if i > 0 {
                assert(rest[i - 1] == spans[i]);
            }
        }
    }
}

/// What `distinct_nonempty` keeps: no item twice, only non-empty items of
/// `spans`, each of those, and them in the order of their first places in
/// `spans`.
proof fn lemma_distinct_nonempty(spans: Seq<Seq<char>>)
    ensures
        forall|i: int, j: int|
            0 <= i < j < distinct_nonempty(spans).len() ==> distinct_nonempty(spans)[i]
                != distinct_nonempty(spans)[j],
        forall|i: int|
            0 <= i < distinct_nonempty(spans).len() ==> (#[trigger] distinct_nonempty(
                spans,
            )[i]).len() > 0 && spans.contains(distinct_nonempty(spans)[i]),
        forall|k: int|
            0 <= k < spans.len() && (#[trigger] spans[k]).len() > 0 ==> distinct_nonempty(
                spans,
            ).contains(spans[k]),
        forall|i: int, j: int|
            0 <= i < j < distinct_nonempty(spans).len() ==> first_seen(
                spans,
                distinct_nonempty(spans)[i],
            ) < first_seen(spans, distinct_nonempty(spans)[j]),
    decreases spans.len(),
{
    let keys = distinct_nonempty(spans);
    if spans.len() > 0 {
        let front = spans.drop_last();
        let last = spans.last();
        let before = distinct_nonempty(front);
        lemma_distinct_nonempty(front);
        assert forall|i: int| 0 <= i < keys.len() implies (#[trigger] keys[i]).len() > 0
            && spans.contains(keys[i]) by {
            if i < before.len() {
                assert(front.contains(before[i]));
                let k = choose|k: int| 0 <= k < front.len() && front[k] == before[i];
                assert(spans[k] == before[i]);
            } else {
                assert(spans[spans.len() - 1] == keys[i]);
            }
        }
        assert forall|k: int| 0 <= k < spans.len() && (#[trigger] spans[k]).len()
            > 0 implies keys.contains(spans[k]) by {
            if k < front.len() {
                assert(front[k] == spans[k]);
                assert(before.contains(front[k]));
                let i = choose|i: int| 0 <= i < before.len() && before[i] == front[k];
                assert(keys[i] == spans[k]);
            } else if before.contains(last) {
                let i = choose|i: int| 0 <= i < before.len() && before[i] == last;
                assert(keys[i] == spans[k]);
            } else {
                assert(keys[keys.len() - 1] == spans[k]);
            }
        }
        assert forall|i: int, j: int| 0 <= i < j < keys.len() implies first_seen(spans, keys[i])
            < first_seen(spans, keys[j]) by {
            lemma_first_seen(spans, keys[i]);
            lemma_first_seen(spans, keys[j]);
            lemma_first_seen(front, keys[i]);
            lemma_first_seen(front, keys[j]);
            assert(front.contains(before[i]));
            let ki = choose|k: int| 0 <= k < front.len() && front[k] == before[i];
            assert(spans[ki] == keys[i]);
            let fi = first_seen(spans, keys[i]);
            let fj = first_seen(spans, keys[j]);
            assert(fi <= ki) by {
                if fi > ki {
                    assert(spans[ki] != keys[i]);
                }
            }
            if j < before.len() {
                assert(front.contains(before[j]));
                let kj = choose|k: int| 0 <= k < front.len() && front[k] == before[j];
                assert(spans[kj] == keys[j]);
                assert(fj <= kj) by {
                    if fj > kj {
                        assert(spans[kj] != keys[j]);
                    }
                }
                let gi = first_seen(front, keys[i]);
                let gj = first_seen(front, keys[j]);
                assert(gi == fi) by {
                    assert(front[fi] == spans[fi]);
                    if gi < fi {
                        assert(spans[gi] == front[gi]);
                    }
                    if fi < gi {
                        assert(front[fi] != keys[i]);
                    }
                }
                assert(gj == fj) by {
                    assert(front[fj] == spans[fj]);
                    if gj < fj {
                        assert(spans[gj] == front[gj]);
                    }
                    if fj < gj {
                        assert(front[fj] != keys[j]);
                    }
                }
            } else {
                assert(keys[j] == last);
                assert(!before.contains(last));
                assert(fj == spans.len() - 1) by {
                    if fj < spans.len() - 1 {
                        assert(front[fj] == last);
                        assert(front.contains(last));
                        let k = choose|k: int|
                            0 <= k < front.len() && (#[trigger] front[k]).len() > 0 && front[k]
                                == last;
                        assert(before.contains(front[k]));
                    }
                }
            }
        }
    }
}

/// The keys that `extract_placeholders` reports are pairwise distinct and
/// non-empty; every non-empty span of the scanned text is among them; and
/// they stand in the order in which they first occur in the subject and
/// then the body.
pub proof fn placeholders_are_distinct_in_first_seen_order(subject: Seq<char>, body: Seq<char>)
    ensures
        forall|i: int, j: int|
            0 <= i < j < placeholders(subject, body).len() ==> placeholders(subject, body)[i]
                != placeholders(subject, body)[j],
        forall|i: int|
            0 <= i < placeholders(subject, body).len() ==> (#[trigger] placeholders(
                subject,
                body,
            )[i]).len() > 0 && spans_from(scanned_text(subject, body), 0).contains(
                placeholders(subject, body)[i],
            ),
        forall|k: int|
            0 <= k < spans_from(scanned_text(subject, body), 0).len() && (#[trigger] spans_from(
                scanned_text(subject, body),
                0,
            )[k]).len() > 0 ==> placeholders(subject, body).contains(
                spans_from(scanned_text(subject, body), 0)[k],
            ),
        forall|i: int, j: int|
            0 <= i < j < placeholders(subject, body).len() ==> first_seen(
                spans_from(scanned_text(subject, body), 0),
                placeholders(subject, body)[i],
            ) < first_seen(
                spans_from(scanned_text(subject, body), 0),
                placeholders(subject, body)[j],
            ),
{
    lemma_distinct_nonempty(spans_from(scanned_text(subject, body), 0));
}

} // verus!
