//! Lists of entries between commas, and the replacing of one text by another.

use vstd::prelude::*;
use crate::text::{
    append, find_break, first_break, first_gap_end, has_at, skip_spaces, slice, trim, trimmed,
    views, Delimiter,
};

verus! {

/// Whether a macro parameter carries the prefix that marks it: `%`.
pub open spec fn has_prefix(entry: Seq<char>) -> bool {
    entry.len() > 0 && entry[0] == '%'
}

/// The entries of a list: its parts between commas, each trimmed. There is
/// always at least one entry; an entry may be empty.
pub open spec fn entries(list: Seq<char>) -> Seq<Seq<char>>
    decreases list.len(),
{
    let at = first_break(list, Delimiter::Char(','));
    if 0 <= at < list.len() {
        seq![trimmed(list.take(at))] + entries(list.skip(at + 1))
    } else {
        seq![trimmed(list)]
    }
}

/// The column of the first entry of `list` that lacks the prefix of a
/// parameter, where `offset` is the column of the list's first character;
/// `None` where every entry has it. An entry's column is that of its first
/// character once trimmed.
pub open spec fn first_unprefixed(list: Seq<char>, offset: int) -> Option<int>
    decreases list.len(),
{
    let at = first_break(list, Delimiter::Char(','));
    if 0 <= at < list.len() {
        if has_prefix(trimmed(list.take(at))) {
            first_unprefixed(list.skip(at + 1), offset + at + 1)
        } else {
            Some(offset + first_gap_end(list.take(at)))
        }
    } else {
        if has_prefix(trimmed(list)) {
            None
        } else {
            Some(offset + first_gap_end(list))
        }
    }
}

/// Where no entry lacks the prefix, every entry has it.
pub proof fn lemma_all_prefixed(list: Seq<char>, offset: int)
    requires
        first_unprefixed(list, offset) is None,
    ensures
        forall|i: int| 0 <= i < entries(list).len() ==> has_prefix(#[trigger] entries(list)[i]),
    decreases list.len(),
{
    let at = first_break(list, Delimiter::Char(','));
    if 0 <= at < list.len() {
        let rest = entries(list.skip(at + 1));
        lemma_all_prefixed(list.skip(at + 1), offset + at + 1);
        assert forall|i: int| 0 <= i < entries(list).len() implies has_prefix(
            #[trigger] entries(list)[i],
        ) by {
            if i > 0 {
                assert(entries(list)[i] == rest[i - 1]);
            }
        }
    }
}

/// `text` with every occurrence of `from` replaced by `to`: occurrences are
/// taken from the left and do not overlap. An empty `from` occurs before
/// every character and at the end.
pub open spec fn replaced(text: Seq<char>, from: Seq<char>, to: Seq<char>) -> Seq<char>
    decreases text.len(),
{
    if from.len() == 0 {
        if text.len() == 0 {
            to
        } else {
            to + seq![text[0]] + replaced(text.skip(1), from, to)
        }
    } else if from.is_prefix_of(text) {
        to + replaced(text.skip(from.len() as int), from, to)
    } else if text.len() == 0 {
        text
    } else {
        seq![text[0]] + replaced(text.skip(1), from, to)
    }
}

/// `text` after the first `count` parameters have been replaced, one after
/// the other and in their order, by the arguments at the same positions.
pub open spec fn substituted_through(
    text: Seq<char>,
    parameters: Seq<Seq<char>>,
    arguments: Seq<Seq<char>>,
    count: nat,
) -> Seq<char>
    decreases count,
{
    if count == 0 {
        text
    } else {
        replaced(
            substituted_through(text, parameters, arguments, (count - 1) as nat),
            parameters[count - 1],
            arguments[count - 1],
        )
    }
}

/// `text` after every parameter has been replaced by its argument.
pub open spec fn substituted(
    text: Seq<char>,
    parameters: Seq<Seq<char>>,
    arguments: Seq<Seq<char>>,
) -> Seq<char> {
    substituted_through(text, parameters, arguments, parameters.len())
}

/// The entries of a list: its parts between commas, each trimmed.
pub fn split_entries(list: &Vec<char>) -> (parts: Vec<Vec<char>>)
    ensures
        views(parts@) == entries(list@),
{
    let mut parts: Vec<Vec<char>> = Vec::new();
    let mut from: usize = 0;
    proof {
        assert(list@.skip(0) =~= list@);
        assert(views(parts@) + entries(list@) =~= entries(list@));
    }
    loop
        invariant_except_break
            from <= list.len(),
            entries(list@) == views(parts@) + entries(list@.skip(from as int)),
        ensures
            views(parts@) == entries(list@),
        decreases list.len() - from,
    {
        let at = find_break(list, from, Delimiter::Char(','));
        let part = trim(&slice(list, from, at));
        let ghost before = parts@;
        let ghost rest = list@.skip(from as int);
        parts.push(part);
        proof {
            assert(rest.take(at - from) =~= list@.subrange(from as int, at as int));
            assert(views(parts@) =~= views(before) + seq![trimmed(rest.take(at - from))]);
        }
        if at < list.len() {
            proof {
                assert(rest.skip(at - from + 1) =~= list@.skip(at + 1));
                assert(entries(list@) =~= views(parts@) + entries(list@.skip(at + 1)));
            }
            from = at + 1;
        } else {
            proof {
                assert(rest.take(at - from) =~= rest);
                assert(entries(list@) =~= views(parts@));
            }
            break ;
        }
    }
    parts
}

/// The parameters that a list declares, or the column of the first entry
/// that lacks the prefix of a parameter. `offset` is the column of the
/// list's first character.
pub fn parse_parameters(list: &Vec<char>, offset: usize) -> (r: Result<Vec<Vec<char>>, usize>)
    requires
        offset + list.len() <= usize::MAX,
    ensures
        match r {
            Ok(parts) => first_unprefixed(list@, offset as int) is None && views(parts@)
                == entries(list@),
            Err(column) => first_unprefixed(list@, offset as int) == Some(column as int),
        },
{
    let mut parts: Vec<Vec<char>> = Vec::new();
    let mut from: usize = 0;
    proof {
        assert(list@.skip(0) =~= list@);
        assert(views(parts@) + entries(list@) =~= entries(list@));
    }
    loop
        invariant
            from <= list.len(),
            offset + list.len() <= usize::MAX,
            entries(list@) == views(parts@) + entries(list@.skip(from as int)),
            first_unprefixed(list@, offset as int) == first_unprefixed(
                list@.skip(from as int),
                offset + from,
            ),
        decreases list.len() - from,
    {
        let at = find_break(list, from, Delimiter::Char(','));
        let piece = slice(list, from, at);
        let part = trim(&piece);
        let ghost before = parts@;
        let ghost rest = list@.skip(from as int);
        proof {
            assert(rest.take(at - from) =~= list@.subrange(from as int, at as int));
            if at == list.len() {
                assert(rest.take(at - from) =~= rest);
            }
        }
        if part.len() == 0 || part[0] != '%' {
            let gap = skip_spaces(&piece, 0);
            proof {
                assert(piece@.skip(0) =~= piece@);
            }
            return Err(offset + from + gap);
        }
        parts.push(part);
        proof {
            assert(views(parts@) =~= views(before) + seq![trimmed(rest.take(at - from))]);
        }
        if at < list.len() {
            proof {
                assert(rest.skip(at - from + 1) =~= list@.skip(at + 1));
                assert(entries(list@) =~= views(parts@) + entries(list@.skip(at + 1)));
            }
            from = at + 1;
        } else {
            proof {
                assert(entries(list@) =~= views(parts@));
            }
            return Ok(parts);
        }
    }
}

/// Replaces every occurrence of `from` in `text` by `to`.
pub fn replace(text: &Vec<char>, from: &Vec<char>, to: &Vec<char>) -> (r: Vec<char>)
    ensures
        r@ == replaced(text@, from@, to@),
{
    let mut out: Vec<char> = Vec::new();
    let mut at: usize = 0;
    assert(text@.skip(0) =~= text@);
    while at < text.len()
        invariant
            at <= text.len(),
            replaced(text@, from@, to@) == out@ + replaced(text@.skip(at as int), from@, to@),
        decreases text.len() - at,
    {
        let ghost rest = text@.skip(at as int);
        let ghost before = out@;
        if from.len() == 0 {
            append(&mut out, to);
            out.push(text[at]);
            proof {
                assert(rest.skip(1) =~= text@.skip(at + 1));
                assert(out@ + replaced(rest.skip(1), from@, to@) =~= before + (to@ + seq![rest[0]]
                    + replaced(rest.skip(1), from@, to@)));
            }
            at += 1;
        } else if has_at(text, at, from) {
            append(&mut out, to);
            proof {
                assert(rest.skip(from@.len() as int) =~= text@.skip(at + from@.len()));
                assert(out@ + replaced(rest.skip(from@.len() as int), from@, to@) =~= before + (to@
                    + replaced(rest.skip(from@.len() as int), from@, to@)));
            }
            at += from.len();
        } else {
            out.push(text[at]);
            proof {
                assert(rest.skip(1) =~= text@.skip(at + 1));
                assert(out@ + replaced(rest.skip(1), from@, to@) =~= before + (seq![rest[0]]
                    + replaced(rest.skip(1), from@, to@)));
            }
            at += 1;
        }
    }
    let ghost done = out@;
    if from.len() == 0 {
        append(&mut out, to);
    }
    proof {
        assert(text@.skip(at as int) =~= Seq::<char>::empty());
        assert(out@ =~= done + replaced(Seq::<char>::empty(), from@, to@));
    }
    out
}

/// Replaces each parameter in turn by the argument at the same position.
pub fn substitute(text: &Vec<char>, parameters: &Vec<Vec<char>>, arguments: &Vec<Vec<char>>) -> (r:
    Vec<char>)
    requires
        parameters.len() == arguments.len(),
    ensures
        r@ == substituted(text@, views(parameters@), views(arguments@)),
{
    let mut current: Vec<char> = slice(text, 0, text.len());
    assert(current@ =~= text@);
    let mut i: usize = 0;
    while i < parameters.len()
        invariant
            i <= parameters.len(),
            parameters.len() == arguments.len(),
            current@ == substituted_through(
                text@,
                views(parameters@),
                views(arguments@),
                i as nat,
            ),
        decreases parameters.len() - i,
    {
        current = replace(&current, &parameters[i], &arguments[i]);
        i += 1;
    }
    current
}

} // verus!
