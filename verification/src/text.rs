//! Small helpers on text values and their views.

use vstd::prelude::*;
use vstd::string::*;

verus! {

/// The characters of an optional text.
pub open spec fn opt_text(text: Option<String>) -> Option<Seq<char>> {
    match text {
        Some(s) => Some(s@),
        None => None,
    }
}

/// The characters of each text of a list.
pub open spec fn texts(list: Seq<String>) -> Seq<Seq<char>> {
    Seq::new(list.len(), |i: int| list[i]@)
}

/// Tells whether two texts hold the same characters.
pub fn same_text(a: &str, b: &str) -> (same: bool)
    ensures
        same == (a@ == b@),
{
    let left: String = a.to_owned();
    let right: String = b.to_owned();
    left == right
}

/// Copies an optional text.
pub fn copy_opt_text(text: &Option<String>) -> (copy: Option<String>)
    ensures
        copy == *text,
{
    match text {
        Some(s) => Some(s.clone()),
        None => None,
    }
}

/// The pieces of `text` between occurrences of `separator`. A text without
/// the separator is one piece; a separator at either end gives an empty
/// piece there.
pub open spec fn split_on(text: Seq<char>, separator: char) -> Seq<Seq<char>>
    decreases text.len(),
{
    if text.len() == 0 {
        seq![Seq::empty()]
    } else {
        let before = split_on(text.drop_last(), separator);
        if text.last() == separator {
            before.push(Seq::empty())
        } else {
            before.drop_last().push(before.last().push(text.last()))
        }
    }
}

/// `text` with every occurrence of `from` replaced by `to`, found from left
/// to right without overlap. An empty `from` occurs nowhere.
pub open spec fn replace_all(text: Seq<char>, from: Seq<char>, to: Seq<char>) -> Seq<char>
    decreases text.len(),
{
    if from.len() == 0 || text.len() < from.len() {
        text
    } else if text.take(from.len() as int) == from {
        to + replace_all(text.skip(from.len() as int), from, to)
    } else {
        seq![text[0]] + replace_all(text.skip(1), from, to)
    }
}

/// Computes [`split_on`].
pub fn split_text(text: &str, separator: char) -> (pieces: Vec<String>)
    ensures
        texts(pieces@) == split_on(text@, separator),
{
    let length: usize = text.unicode_len();
    let mut pieces: Vec<String> = Vec::new();
    let mut start: usize = 0;
    let mut i: usize = 0;
    proof {
        assert(text@.take(0) =~= Seq::<char>::empty());
        assert(texts(pieces@).push(text@.subrange(0, 0)) =~= seq![Seq::<char>::empty()]);
    }
    while i < length
        invariant
            i <= length,
            start <= i,
            length == text@.len(),
            split_on(text@.take(i as int), separator) == texts(pieces@).push(
                text@.subrange(start as int, i as int),
            ),
        decreases length - i,
    {
        let ghost done = texts(pieces@);
        let ghost current = text@.subrange(start as int, i as int);
        proof {
            assert(text@.take(i + 1).drop_last() =~= text@.take(i as int));
            assert(text@.take(i + 1).last() == text@[i as int]);
            assert(done.push(current).drop_last() =~= done);
        }
        if text.get_char(i) == separator {
            pieces.push(text.substring_char(start, i).to_owned());
            start = i + 1;
            proof {
                assert(texts(pieces@) =~= done.push(current));
                assert(text@.subrange(start as int, i + 1) =~= Seq::<char>::empty());
            }
        } else {
            proof {
                assert(text@.subrange(start as int, i + 1) =~= current.push(text@[i as int]));
            }
        }
        i += 1;
    }
    let ghost done = texts(pieces@);
    pieces.push(text.substring_char(start, length).to_owned());
    proof {
        assert(text@.take(length as int) =~= text@);
        assert(texts(pieces@) =~= done.push(text@.subrange(start as int, length as int)));
    }
    pieces
}

/// Computes [`replace_all`].
pub fn replace_text(text: &str, from: &str, to: &str) -> (replaced: String)
    ensures
        replaced@ == replace_all(text@, from@, to@),
{
    let length: usize = text.unicode_len();
    let width: usize = from.unicode_len();
    if width == 0 {
        return text.to_owned();
    }
    let mut replaced: String = String::new();
    let mut i: usize = 0;
    proof {
        assert(text@.skip(0) =~= text@);
        assert(replaced@ + replace_all(text@, from@, to@) =~= replace_all(text@, from@, to@));
    }
    while i < length
        invariant
            i <= length,
            length == text@.len(),
            width == from@.len(),
            width > 0,
            replaced@ + replace_all(text@.skip(i as int), from@, to@) == replace_all(
                text@,
                from@,
                to@,
            ),
        decreases length - i,
    {
        let ghost rest = text@.skip(i as int);
        let ghost so_far = replaced@;
        if length - i < width {
            replaced.append(text.substring_char(i, length));
            proof {
                assert(text@.subrange(i as int, length as int) =~= rest);
                assert(text@.skip(length as int) =~= Seq::<char>::empty());
                assert(replaced@ + replace_all(text@.skip(length as int), from@, to@) =~= so_far
                    + rest);
            }
            i = length;
        } else if same_text(text.substring_char(i, i + width), from) {
            replaced.append(to);
            proof {
                assert(text@.subrange(i as int, i + width) =~= rest.take(width as int));
                assert(rest.skip(width as int) =~= text@.skip(i + width));
                assert(replaced@ + replace_all(text@.skip(i + width), from@, to@) =~= so_far + (to@
                    + replace_all(rest.skip(width as int), from@, to@)));
            }
            i = i + width;
        } else {
            replaced.append(text.substring_char(i, i + 1));
            proof {
                assert(text@.subrange(i as int, i + width) =~= rest.take(width as int));
                assert(text@.subrange(i as int, i + 1) =~= seq![rest[0]]);
                assert(rest.skip(1) =~= text@.skip(i + 1));
                assert(replaced@ + replace_all(text@.skip(i + 1), from@, to@) =~= so_far + (
                seq![rest[0]] + replace_all(rest.skip(1), from@, to@)));
            }
            i = i + 1;
        }
    }
    proof {
        assert(text@.skip(length as int) =~= Seq::<char>::empty());
        assert(replaced@ + Seq::<char>::empty() =~= replaced@);
    }
    replaced
}

} // verus!
