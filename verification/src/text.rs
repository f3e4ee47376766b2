//! Operations on texts, stated over their sequences of characters.

use vstd::prelude::*;

verus! {

/// The predicate that holds of every character but `c`.
pub open spec fn differs_from(c: char) -> spec_fn(char) -> bool {
    |x: char| x != c
}

/// `text` with every occurrence of `c` taken out.
pub open spec fn without_char(text: Seq<char>, c: char) -> Seq<char> {
    text.filter(differs_from(c))
}

/// `text` with the last occurrence of `c` taken out; `text` itself where `c`
/// does not occur.
pub open spec fn without_last(text: Seq<char>, c: char) -> Seq<char> {
    match text.index_of_last(c) {
        Some(i) => text.remove(i),
        None => text,
    }
}

/// The pieces of `text` between the occurrences of `sep`, in order. A text
/// with `k` separators has `k + 1` pieces; the empty text has one empty piece.
pub open spec fn split_on(text: Seq<char>, sep: char) -> Seq<Seq<char>>
    decreases text.len(),
{
    match text.index_of_first(sep) {
        Some(i) if 0 <= i < text.len() => seq![text.subrange(0, i)] + split_on(
            text.subrange(i + 1, text.len() as int),
            sep,
        ),
        _ => seq![text],
    }
}

/// `parts` with `sep` between each two neighbours.
pub open spec fn joined(parts: Seq<Seq<char>>, sep: Seq<char>) -> Seq<char>
    decreases parts.len(),
{
    if parts.len() == 0 {
        Seq::empty()
    } else if parts.len() == 1 {
        parts[0]
    } else {
        joined(parts.drop_last(), sep) + sep + parts.last()
    }
}

/// The character sequences of a sequence of strings.
pub open spec fn texts_of(strings: Seq<String>) -> Seq<Seq<char>> {
    strings.map_values(|s: String| s@)
}

/// Filtering a sequence extended by one element.
pub proof fn filter_push<A>(prefix: Seq<A>, last: A, pred: spec_fn(A) -> bool)
    ensures
        prefix.push(last).filter(pred) == if pred(last) {
            prefix.filter(pred).push(last)
        } else {
            prefix.filter(pred)
        },
{
    reveal_with_fuel(Seq::filter, 2);
    assert(prefix.push(last).drop_last() =~= prefix);
}

/// The first occurrence is the one that nothing equal precedes.
pub proof fn first_index_unique(text: Seq<char>, c: char, i: int)
    requires
        0 <= i < text.len(),
        text[i] == c,
        forall|j: int| 0 <= j < i ==> text[j] != c,
    ensures
        text.index_of_first(c) == Some(i),
{
    text.index_of_first_ensures(c);
    assert(text.contains(c));
}

/// The last occurrence is the one that nothing equal follows.
pub proof fn last_index_unique(text: Seq<char>, c: char, i: int)
    requires
        0 <= i < text.len(),
        text[i] == c,
        forall|j: int| i < j < text.len() ==> text[j] != c,
    ensures
        text.index_of_last(c) == Some(i),
{
    text.index_of_last_ensures(c);
    assert(text.contains(c));
}

/// A character that occurs nowhere has no first and no last occurrence.
pub proof fn absent_has_no_index(text: Seq<char>, c: char)
    requires
        forall|j: int| 0 <= j < text.len() ==> text[j] != c,
    ensures
        text.index_of_first(c).is_none(),
        text.index_of_last(c).is_none(),
{
    text.index_of_first_ensures(c);
    text.index_of_last_ensures(c);
}

/// The position of the first `needle` in `text`, counted in characters.
pub fn find_first(text: &str, needle: char) -> (found: Option<usize>)
    ensures
        match found {
            Some(i) => text@.index_of_first(needle) == Some(i as int) && i < text@.len(),
            None => text@.index_of_first(needle).is_none(),
        },
{
    let n: usize = text.unicode_len();
    let mut i: usize = 0;
    while i < n
        invariant
            n == text@.len(),
            i <= n,
            forall|j: int| 0 <= j < i ==> text@[j] != needle,
        decreases n - i,
    {
        if text.get_char(i) == needle {
            proof {
                first_index_unique(text@, needle, i as int);
            }
            return Some(i);
        }
        i = i + 1;
    }
    proof {
        absent_has_no_index(text@, needle);
    }
    None
}

/// Copies `text` without the occurrences of `c`.
pub fn strip_char(text: &str, c: char) -> (stripped: String)
    ensures
        stripped@ == without_char(text@, c),
{
    let n: usize = text.unicode_len();
    let mut stripped = String::new();
    let mut i: usize = 0;
    proof {
        reveal_with_fuel(Seq::filter, 1);
        assert(text@.subrange(0, 0) =~= Seq::<char>::empty());
        assert(stripped@ =~= without_char(text@.subrange(0, 0), c));
    }
    while i < n
        invariant
            n == text@.len(),
            i <= n,
            stripped@ == without_char(text@.subrange(0, i as int), c),
        decreases n - i,
    {
        let here: char = text.get_char(i);
        proof {
            filter_push(text@.subrange(0, i as int), here, differs_from(c));
            assert(text@.subrange(0, i as int).push(here) =~= text@.subrange(0, i + 1));
        }
        if here != c {
            let piece = text.substring_char(i, i + 1);
            proof {
                assert(piece@ =~= seq![here]);
                assert(stripped@ + piece@ =~= stripped@.push(here));
            }
            stripped.append(piece);
        }
        i = i + 1;
    }
    proof {
        assert(text@.subrange(0, n as int) =~= text@);
    }
    stripped
}

/// Copies `text` without its last occurrence of `c`.
pub fn remove_last(text: &str, c: char) -> (shortened: String)
    ensures
        shortened@ == without_last(text@, c),
{
    let n: usize = text.unicode_len();
    let mut last: Option<usize> = None;
    let mut i: usize = 0;
    while i < n
        invariant
            n == text@.len(),
            i <= n,
            match last {
                Some(k) => k < i && text@[k as int] == c && forall|j: int|
                    k < j < i ==> text@[j] != c,
                None => forall|j: int| 0 <= j < i ==> text@[j] != c,
            },
        decreases n - i,
    {
        if text.get_char(i) == c {
            last = Some(i);
        }
        i = i + 1;
    }
    match last {
        Some(k) => {
            proof {
                last_index_unique(text@, c, k as int);
            }
            let head = String::from_str(text.substring_char(0, k));
            head.concat(text.substring_char(k + 1, n))
        },
        None => {
            proof {
                absent_has_no_index(text@, c);
            }
            String::from_str(text)
        },
    }
}

/// Splits `text` at every occurrence of `sep`.
pub fn split_text(text: &str, sep: char) -> (pieces: Vec<String>)
    ensures
        texts_of(pieces@) == split_on(text@, sep),
        pieces@.len() >= 1,
{
    let n: usize = text.unicode_len();
    let mut pieces: Vec<String> = Vec::new();
    let mut start: usize = 0;
    let mut i: usize = 0;
    proof {
        assert(text@.subrange(0, n as int) =~= text@);
        assert(texts_of(pieces@) + split_on(text@, sep) =~= split_on(text@, sep));
    }
    while i < n
        invariant
            n == text@.len(),
            start <= i <= n,
            forall|j: int| start <= j < i ==> text@[j] != sep,
            split_on(text@, sep) == texts_of(pieces@) + split_on(
                text@.subrange(start as int, n as int),
                sep,
            ),
        decreases n - i,
    {
        if text.get_char(i) == sep {
            let piece = String::from_str(text.substring_char(start, i));
            proof {
                let rest = text@.subrange(start as int, n as int);
                first_index_unique(rest, sep, i - start);
                assert(rest.subrange(0, i - start) =~= piece@);
                assert(rest.subrange(i - start + 1, rest.len() as int) =~= text@.subrange(
                    i + 1,
                    n as int,
                ));
                assert(texts_of(pieces@.push(piece)) =~= texts_of(pieces@).push(piece@));
                assert(texts_of(pieces@).push(piece@) + split_on(
                    text@.subrange(i + 1, n as int),
                    sep,
                ) =~= texts_of(pieces@) + (seq![piece@] + split_on(
                    text@.subrange(i + 1, n as int),
                    sep,
                )));
            }
            pieces.push(piece);
            start = i + 1;
        }
        i = i + 1;
    }
    let piece = String::from_str(text.substring_char(start, n));
    proof {
        let rest = text@.subrange(start as int, n as int);
        absent_has_no_index(rest, sep);
        assert(texts_of(pieces@.push(piece)) =~= texts_of(pieces@).push(piece@));
        assert(texts_of(pieces@).push(piece@) =~= texts_of(pieces@) + seq![rest]);
    }
    pieces.push(piece);
    pieces
}

/// Joins `parts` with `sep` between them.
pub fn join(parts: &Vec<String>, sep: &str) -> (text: String)
    ensures
        text@ == joined(texts_of(parts@), sep@),
{
    let mut text = String::new();
    let mut i: usize = 0;
    proof {
        assert(texts_of(parts@).subrange(0, 0) =~= Seq::<Seq<char>>::empty());
        assert(text@ =~= Seq::<char>::empty());
    }
    while i < parts.len()
        invariant
            i <= parts.len(),
            text@ == joined(texts_of(parts@).subrange(0, i as int), sep@),
        decreases parts.len() - i,
    {
        proof {
            let upto = texts_of(parts@).subrange(0, i + 1);
            assert(upto.drop_last() =~= texts_of(parts@).subrange(0, i as int));
            assert(upto.last() == parts@[i as int]@);
            if i == 0 {
                assert(text@ + parts@[0]@ =~= parts@[0]@);
            }
        }
        if i > 0 {
            text.append(sep);
        }
        text.append(parts[i].as_str());
        i = i + 1;
    }
    proof {
        assert(texts_of(parts@).subrange(0, parts.len() as int) =~= texts_of(parts@));
    }
    text
}

/// A split has at least one piece.
pub proof fn split_has_a_piece(text: Seq<char>, sep: char)
    ensures
        split_on(text, sep).len() >= 1,
{
}

/// Joining a piece in front of others puts one separator behind it.
proof fn joined_after_first(first: Seq<char>, others: Seq<Seq<char>>, sep: Seq<char>)
    requires
        others.len() >= 1,
    ensures
        joined(seq![first] + others, sep) == first + sep + joined(others, sep),
    decreases others.len(),
{
    let all = seq![first] + others;
    assert(all.last() == others.last());
    if others.len() == 1 {
        assert(all.drop_last() =~= seq![first]);
        assert(joined(seq![first], sep) == first);
    } else {
        assert(all.drop_last() =~= seq![first] + others.drop_last());
        joined_after_first(first, others.drop_last(), sep);
        assert(joined(all, sep) =~= first + sep + joined(others, sep));
    }
}

/// Splitting loses nothing: the pieces of a text, joined again with the
/// separator between them, are the text.
pub proof fn split_then_join(text: Seq<char>, sep: char)
    ensures
        joined(split_on(text, sep), seq![sep]) == text,
    decreases text.len(),
{
    text.index_of_first_ensures(sep);
    match text.index_of_first(sep) {
        Some(i) => {
            let head = text.subrange(0, i);
            let tail = text.subrange(i + 1, text.len() as int);
            split_then_join(tail, sep);
            split_has_a_piece(tail, sep);
            joined_after_first(head, split_on(tail, sep), seq![sep]);
            assert(head + seq![sep] + tail =~= text);
        },
        None => {},
    }
}

/// No piece of a split holds the separator.
pub proof fn pieces_hold_no_separator(text: Seq<char>, sep: char, k: int)
    requires
        0 <= k < split_on(text, sep).len(),
    ensures
        !split_on(text, sep)[k].contains(sep),
    decreases text.len(),
{
    text.index_of_first_ensures(sep);
    match text.index_of_first(sep) {
        Some(i) => {
            let head = text.subrange(0, i);
            let tail = text.subrange(i + 1, text.len() as int);
            if k == 0 {
                assert(split_on(text, sep)[0] == head);
                if head.contains(sep) {
                    let j = choose|j: int| 0 <= j < head.len() && head[j] == sep;
                    assert(text[j] == sep);
                }
            } else {
                assert(split_on(text, sep)[k] == split_on(tail, sep)[k - 1]);
                pieces_hold_no_separator(tail, sep, k - 1);
            }
        },
        None => {},
    }
}

} // verus!
