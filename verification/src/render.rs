//! The substitution of `{key}` placeholders.
//!
//! A text is rendered in one pass from left to right. Where a placeholder
//! starts whose key is bound, the value takes its place and the pass goes on
//! behind the closing brace; the value itself is not looked into. Anything
//! else is copied.

use vstd::prelude::*;
use crate::text::{append_chars, from_chars, slice_spells, to_chars};

verus! {

/// The entries of an argument list as pairs of character sequences.
pub open spec fn entry_views(args: Seq<(String, String)>) -> Seq<(Seq<char>, Seq<char>)> {
    Seq::new(args.len(), |i: int| (args[i].0@, args[i].1@))
}

/// The map that a list of assignments builds: each entry overrides the
/// entries before it that have the same key.
pub open spec fn map_of(entries: Seq<(Seq<char>, Seq<char>)>) -> Map<Seq<char>, Seq<char>>
    decreases entries.len(),
{
    if entries.len() == 0 {
        Map::empty()
    } else {
        map_of(entries.drop_last()).insert(entries.last().0, entries.last().1)
    }
}

/// The key of the entry at `i`.
pub open spec fn key_at(entries: Seq<(Seq<char>, Seq<char>)>, i: int) -> Seq<char> {
    entries[i].0
}

/// The index of the last entry that has `key`, or -1 where none has it.
pub open spec fn last_binding(entries: Seq<(Seq<char>, Seq<char>)>, key: Seq<char>) -> int
    decreases entries.len(),
{
    if entries.len() == 0 {
        -1
    } else if entries.last().0 == key {
        entries.len() - 1
    } else {
        last_binding(entries.drop_last(), key)
    }
}

/// Whether `text[open..=close]` is a placeholder `{key}` whose key is bound
/// in `args`.
pub open spec fn is_bound_placeholder(
    text: Seq<char>,
    args: Map<Seq<char>, Seq<char>>,
    open: int,
    close: int,
) -> bool {
    &&& 0 <= open < close < text.len()
    &&& text[open] == '{'
    &&& text[close] == '}'
    &&& args.dom().contains(text.subrange(open + 1, close))
}

/// The least `close >= from` for which `text[open..=close]` is a bound
/// placeholder, or `text.len()` where there is none.
pub open spec fn bound_close(
    text: Seq<char>,
    args: Map<Seq<char>, Seq<char>>,
    open: int,
    from: int,
) -> int
    decreases text.len() - from,
{
    if from >= text.len() {
        text.len() as int
    } else if is_bound_placeholder(text, args, open, from) {
        from
    } else {
        bound_close(text, args, open, from + 1)
    }
}

/// The rendering of `text[at..]`: one pass from left to right, in which a
/// bound placeholder that starts at the current position is replaced by its
/// value and skipped, and any other character is copied. Where several bound
/// placeholders start at one position, the shortest is taken. Substituted
/// values are not scanned again.
pub open spec fn render_from(text: Seq<char>, args: Map<Seq<char>, Seq<char>>, at: int) -> Seq<char>
    decreases text.len() - at,
    via render_from_decreases
{
    if at < 0 || at >= text.len() {
        Seq::empty()
    } else {
        let close = bound_close(text, args, at, at + 1);
        if close < text.len() {
            args[text.subrange(at + 1, close)] + render_from(text, args, close + 1)
        } else {
            seq![text[at]] + render_from(text, args, at + 1)
        }
    }
}

#[via_fn]
proof fn render_from_decreases(text: Seq<char>, args: Map<Seq<char>, Seq<char>>, at: int) {
    if 0 <= at < text.len() {
        lemma_bound_close_range(text, args, at, at + 1);
    }
}

/// The rendering of a whole text for a recipient's arguments.
pub open spec fn render(text: Seq<char>, args: Map<Seq<char>, Seq<char>>) -> Seq<char> {
    render_from(text, args, 0)
}

/// `bound_close` answers within `from..=text.len()`; below `text.len()` its
/// answer closes a bound placeholder, and nothing between `from` and it does.
pub proof fn lemma_bound_close_range(
    text: Seq<char>,
    args: Map<Seq<char>, Seq<char>>,
    open: int,
    from: int,
)
    requires
        from <= text.len(),
    ensures
        from <= bound_close(text, args, open, from) <= text.len(),
        bound_close(text, args, open, from) < text.len() ==> is_bound_placeholder(
            text,
            args,
            open,
            bound_close(text, args, open, from),
        ),
        forall|c: int|
            from <= c < bound_close(text, args, open, from) ==> !is_bound_placeholder(
                text,
                args,
                open,
                c,
            ),
    decreases text.len() - from,
{
    if from < text.len() && !is_bound_placeholder(text, args, open, from) {
        lemma_bound_close_range(text, args, open, from + 1);
    }
}

/// `map_of(entries)` binds a key exactly when some entry has it, and binds it
/// to the value of the last such entry.
pub proof fn lemma_map_of_last_binding(entries: Seq<(Seq<char>, Seq<char>)>, key: Seq<char>)
    ensures
        -1 <= last_binding(entries, key) < entries.len(),
        map_of(entries).dom().contains(key) <==> last_binding(entries, key) >= 0,
        last_binding(entries, key) >= 0 ==> {
            &&& entries[last_binding(entries, key)].0 == key
            &&& map_of(entries)[key] == entries[last_binding(entries, key)].1
        },
    decreases entries.len(),
{
    if entries.len() > 0 {
        lemma_map_of_last_binding(entries.drop_last(), key);
    }
}

/// The entry at `i` is the last binding of `key` where it has the key and no
/// later entry has; there is none (`i == -1`) where no entry has the key.
pub proof fn lemma_last_binding_is(entries: Seq<(Seq<char>, Seq<char>)>, key: Seq<char>, i: int)
    requires
        -1 <= i < entries.len(),
        i >= 0 ==> entries[i].0 == key,
        forall|j: int| i < j < entries.len() ==> #[trigger] key_at(entries, j) != key,
    ensures
        last_binding(entries, key) == i,
    decreases entries.len(),
{
    if entries.len() > 0 {
        let front = entries.drop_last();
        let n = entries.len() - 1;
        if i != n {
            assert(key_at(entries, n) != key);
            assert forall|j: int| i < j < front.len() implies #[trigger] key_at(front, j)
                != key by {
                assert(key_at(entries, j) != key);
            }
            lemma_last_binding_is(front, key, i);
        }
    }
}

/// The keys and the values of an argument list, each as a character vector.
fn unpack_args(args: &Vec<(String, String)>) -> (table: (Vec<Vec<char>>, Vec<Vec<char>>))
    ensures
        table.0.len() == args.len(),
        table.1.len() == args.len(),
        forall|i: int| 0 <= i < args.len() ==> (#[trigger] table.0[i])@ == args[i].0@,
        forall|i: int| 0 <= i < args.len() ==> (#[trigger] table.1[i])@ == args[i].1@,
{
    let mut keys: Vec<Vec<char>> = Vec::new();
    let mut values: Vec<Vec<char>> = Vec::new();
    let mut i: usize = 0;
    while i < args.len()
        invariant
            i <= args.len(),
            keys.len() == i,
            values.len() == i,
            forall|j: int| 0 <= j < i ==> (#[trigger] keys[j])@ == args[j].0@,
            forall|j: int| 0 <= j < i ==> (#[trigger] values[j])@ == args[j].1@,
        decreases args.len() - i,
    {
        keys.push(to_chars(args[i].0.as_str()));
        values.push(to_chars(args[i].1.as_str()));
        i += 1;
    }
    (keys, values)
}

/// The index of the last key that `text[from..to]` spells.
fn last_key_spelled(keys: &Vec<Vec<char>>, text: &Vec<char>, from: usize, to: usize) -> (found:
    Option<usize>)
    requires
        from <= to <= text.len(),
    ensures
        match found {
            Some(i) => {
                &&& i < keys.len()
                &&& keys[i as int]@ == text@.subrange(from as int, to as int)
                &&& forall|j: int|
                    i < j < keys.len() ==> (#[trigger] keys[j])@ != text@.subrange(
                        from as int,
                        to as int,
                    )
            },
            None => forall|j: int|
                0 <= j < keys.len() ==> (#[trigger] keys[j])@ != text@.subrange(
                    from as int,
                    to as int,
                ),
        },
{
    let mut i: usize = keys.len();
    while i > 0
        invariant
            from <= to <= text.len(),
            i <= keys.len(),
            forall|j: int|
                i <= j < keys.len() ==> (#[trigger] keys[j])@ != text@.subrange(
                    from as int,
                    to as int,
                ),
        decreases i,
    {
        i -= 1;
        if slice_spells(text, from, to, &keys[i]) {
            return Some(i);
        }
    }
    None
}

/// The entries that a key table and a value table of one length stand for.
spec fn table_entries(keys: Seq<Vec<char>>, values: Seq<Vec<char>>) -> Seq<(Seq<char>, Seq<char>)> {
    Seq::new(keys.len(), |i: int| (keys[i]@, values[i]@))
}

/// The shortest bound placeholder that starts at `open`: the index of its
/// closing brace and of the entry that binds its key.
fn find_bound_placeholder(
    text: &Vec<char>,
    keys: &Vec<Vec<char>>,
    values: &Vec<Vec<char>>,
    open: usize,
) -> (found: Option<(usize, usize)>)
    requires
        open < text.len(),
        keys.len() == values.len(),
    ensures
        match found {
            Some((close, entry)) => {
                &&& open < close < text.len()
                &&& close == bound_close(
                    text@,
                    map_of(table_entries(keys@, values@)),
                    open as int,
                    open + 1,
                )
                &&& entry < values.len()
                &&& values[entry as int]@ == map_of(table_entries(keys@, values@))[text@.subrange(
                    open + 1,
                    close as int,
                )]
            },
            None => bound_close(
                text@,
                map_of(table_entries(keys@, values@)),
                open as int,
                open + 1,
            ) == text.len(),
        },
{
    let ghost entries = table_entries(keys@, values@);
    let ghost args = map_of(entries);
    if text[open] != '{' {
        proof {
            lemma_bound_close_range(text@, args, open as int, open + 1);
        }
        return None;
    }
    let mut close: usize = open + 1;
    while close < text.len()
        invariant
            open < close <= text.len(),
            text@[open as int] == '{',
            keys.len() == values.len(),
            entries == table_entries(keys@, values@),
            args == map_of(entries),
            bound_close(text@, args, open as int, open + 1) == bound_close(
                text@,
                args,
                open as int,
                close as int,
            ),
        decreases text.len() - close,
    {
        if text[close] == '}' {
            let ghost key = text@.subrange(open + 1, close as int);
            proof {
                lemma_map_of_last_binding(entries, key);
            }
            match last_key_spelled(keys, text, open + 1, close) {
                Some(entry) => {
                    proof {
                        assert forall|j: int| entry < j < entries.len() implies #[trigger] key_at(
                            entries,
                            j,
                        ) != key by {
                            assert(keys[j]@ != key);
                        }
                        lemma_last_binding_is(entries, key, entry as int);
                    }
                    return Some((close, entry));
                },
                None => {
                    proof {
                        assert forall|j: int| -1 < j < entries.len() implies #[trigger] key_at(
                            entries,
                            j,
                        ) != key by {
                            assert(keys[j]@ != key);
                        }
                        lemma_last_binding_is(entries, key, -1);
                    }
                },
            }
        }
        close += 1;
    }
    None
}

/// Renders `text` with the assignments `args`: every placeholder `{key}`
/// whose key is bound is replaced by the bound value, in one pass over
/// `text`; everything else stays as it is.
pub fn render_with(text: &str, args: &Vec<(String, String)>) -> (out: String)
    ensures
        out@ == render(text@, map_of(entry_views(args@))),
{
    let chars = to_chars(text);
    let (keys, values) = unpack_args(args);
    let ghost bound = map_of(entry_views(args@));
    assert(table_entries(keys@, values@) =~= entry_views(args@));
    let mut out: Vec<char> = Vec::new();
    let mut at: usize = 0;
    while at < chars.len()
        invariant
            at <= chars.len(),
            keys.len() == values.len(),
            bound == map_of(table_entries(keys@, values@)),
            render(chars@, bound) == out@ + render_from(chars@, bound, at as int),
        decreases chars.len() - at,
    {
        let ghost before = out@;
        match find_bound_placeholder(&chars, &keys, &values, at) {
            Some((close, entry)) => {
                append_chars(&mut out, &values[entry]);
                proof {
                    let value = bound[chars@.subrange(at + 1, close as int)];
                    assert(before + (value + render_from(chars@, bound, close + 1)) =~= (before
                        + value) + render_from(chars@, bound, close + 1));
                }
                at = close + 1;
            },
            None => {
                out.push(chars[at]);
                proof {
                    assert(before + (seq![chars@[at as int]] + render_from(
                        chars@,
                        bound,
                        at + 1,
                    )) =~= before.push(chars@[at as int]) + render_from(chars@, bound, at + 1));
                }
                at += 1;
            },
        }
    }
    from_chars(&out)
}

/// A text in which no bound placeholder starts renders as its own tail
/// from every position.
proof fn lemma_render_from_verbatim(text: Seq<char>, args: Map<Seq<char>, Seq<char>>, at: int)
    requires
        0 <= at <= text.len(),
        forall|open: int, close: int| !is_bound_placeholder(text, args, open, close),
    ensures
        render_from(text, args, at) == text.subrange(at, text.len() as int),
    decreases text.len() - at,
{
    if at < text.len() {
        lemma_bound_close_range(text, args, at, at + 1);
        lemma_render_from_verbatim(text, args, at + 1);
        assert(seq![text[at]] + text.subrange(at + 1, text.len() as int) =~= text.subrange(
            at,
            text.len() as int,
        ));
    } else {
        assert(text.subrange(at, text.len() as int) =~= Seq::<char>::empty());
    }
}

/// Rendering leaves a text as it is where none of its placeholders is
/// bound: unbound placeholders stay verbatim, and bindings that no
/// placeholder names have no effect.
pub proof fn render_keeps_text_without_bound_placeholder(
    text: Seq<char>,
    args: Map<Seq<char>, Seq<char>>,
)
    requires
        forall|open: int, close: int| !is_bound_placeholder(text, args, open, close),
    ensures
        render(text, args) == text,
{
    lemma_render_from_verbatim(text, args, 0);
    assert(text.subrange(0, text.len() as int) =~= text);
}

/// Rendering leaves a text without an opening brace as it is, whatever the
/// arguments.
pub proof fn render_keeps_text_without_brace(text: Seq<char>, args: Map<Seq<char>, Seq<char>>)
    requires
        forall|i: int| 0 <= i < text.len() ==> text[i] != '{',
    ensures
        render(text, args) == text,
{
    render_keeps_text_without_bound_placeholder(text, args);
}

/// Rendering with no arguments leaves every text as it is.
pub proof fn render_keeps_text_without_args(text: Seq<char>)
    ensures
        render(text, Map::empty()) == text,
{
    render_keeps_text_without_bound_placeholder(text, Map::empty());
}

/// A text behind its first `skip` characters, and the text itself from
/// `skip` on, close their placeholders at the same places.
proof fn lemma_bound_close_shift(
    text: Seq<char>,
    args: Map<Seq<char>, Seq<char>>,
    skip: int,
    open: int,
    from: int,
)
    requires
        0 <= skip <= text.len(),
        0 <= open < from <= text.len() - skip,
    ensures
        bound_close(text, args, open + skip, from + skip) == bound_close(
            text.subrange(skip, text.len() as int),
            args,
            open,
            from,
        ) + skip,
    decreases text.len() - skip - from,
{
    let tail = text.subrange(skip, text.len() as int);
    if from < tail.len() {
        assert(tail.subrange(open + 1, from) =~= text.subrange(open + skip + 1, from + skip));
        assert(is_bound_placeholder(text, args, open + skip, from + skip) == is_bound_placeholder(
            tail,
            args,
            open,
            from,
        ));
        if !is_bound_placeholder(tail, args, open, from) {
            lemma_bound_close_shift(text, args, skip, open, from + 1);
        }
    }
}

/// Rendering looks forward only: what it makes of a text from `skip` on is
/// what it makes of the text behind its first `skip` characters.
proof fn lemma_render_from_shift(
    text: Seq<char>,
    args: Map<Seq<char>, Seq<char>>,
    skip: int,
    at: int,
)
    requires
        0 <= skip <= text.len(),
        0 <= at <= text.len() - skip,
    ensures
        render_from(text, args, at + skip) == render_from(
            text.subrange(skip, text.len() as int),
            args,
            at,
        ),
    decreases text.len() - skip - at,
{
    let tail = text.subrange(skip, text.len() as int);
    if at < tail.len() {
        lemma_bound_close_shift(text, args, skip, at, at + 1);
        lemma_bound_close_range(tail, args, at, at + 1);
        let close = bound_close(tail, args, at, at + 1);
        if close < tail.len() {
            assert(tail.subrange(at + 1, close) =~= text.subrange(at + skip + 1, close + skip));
            lemma_render_from_shift(text, args, skip, close + 1);
        } else {
            lemma_render_from_shift(text, args, skip, at + 1);
        }
    }
}

/// A character at which no bound placeholder starts is copied, and the
/// rest is rendered by itself.
pub proof fn render_copies_character_outside_placeholder(
    c: char,
    rest: Seq<char>,
    args: Map<Seq<char>, Seq<char>>,
)
    requires
        forall|close: int| !is_bound_placeholder(seq![c] + rest, args, 0, close),
    ensures
        render(seq![c] + rest, args) == seq![c] + render(rest, args),
{
    let text = seq![c] + rest;
    lemma_bound_close_range(text, args, 0, 1);
    lemma_render_from_shift(text, args, 1, 0);
    assert(text.subrange(1, text.len() as int) =~= rest);
}

/// A character other than an opening brace is copied, and the rest is
/// rendered by itself.
pub proof fn render_copies_plain_character(
    c: char,
    rest: Seq<char>,
    args: Map<Seq<char>, Seq<char>>,
)
    requires
        c != '{',
    ensures
        render(seq![c] + rest, args) == seq![c] + render(rest, args),
{
    render_copies_character_outside_placeholder(c, rest, args);
}

/// A placeholder whose key is bound is replaced by the value as it stands,
/// whatever the value holds, and the rest is rendered by itself.
pub proof fn render_replaces_bound_placeholder(
    key: Seq<char>,
    rest: Seq<char>,
    args: Map<Seq<char>, Seq<char>>,
)
    requires
        args.dom().contains(key),
        forall|i: int| 0 <= i < key.len() ==> key[i] != '}',
    ensures
        render(seq!['{'] + key + seq!['}'] + rest, args) == args[key] + render(rest, args),
{
    let text = seq!['{'] + key + seq!['}'] + rest;
    let close: int = key.len() as int + 1;
    assert(text.subrange(1, close) =~= key);
    assert(is_bound_placeholder(text, args, 0, close));
    lemma_bound_close_range(text, args, 0, 1);
    let found = bound_close(text, args, 0, 1);
    if found < close {
        assert(text[found] == key[found - 1]);
    }
    assert(found == close);
    lemma_render_from_shift(text, args, close + 1, 0);
    assert(text.subrange(close + 1, text.len() as int) =~= rest);
}

} // verus!
