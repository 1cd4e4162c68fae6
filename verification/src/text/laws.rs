//! What the rest of the library can rely on when it works with text.

use vstd::prelude::*;

use crate::text::{
    bare_line, is_blank, is_white, joined, lemma_line_end, lemma_line_ends_at, line_end, line_texts,
    lowered, nonblank, pieces, pieces_from, trimmed, trimmed_end, trimmed_start, without_prefix,
};

verus! {

proof fn lemma_trimmed_start_parts(s: Seq<char>) -> (front: Seq<char>)
    ensures
        s == front + trimmed_start(s),
        forall|i: int| 0 <= i < front.len() ==> is_white(#[trigger] front[i]),
        trimmed_start(s).len() > 0 ==> !is_white(trimmed_start(s)[0]),
    decreases s.len(),
{
    if s.len() > 0 && is_white(s[0]) {
        let rest = lemma_trimmed_start_parts(s.skip(1));
        let front = seq![s[0]] + rest;
        assert(s =~= seq![s[0]] + s.skip(1));
        assert(seq![s[0]] + (rest + trimmed_start(s)) =~= front + trimmed_start(s));
        front
    } else {
        assert(s =~= Seq::<char>::empty() + s);
        Seq::empty()
    }
}

proof fn lemma_trimmed_end_parts(s: Seq<char>) -> (back: Seq<char>)
    ensures
        s == trimmed_end(s) + back,
        forall|i: int| 0 <= i < back.len() ==> is_white(#[trigger] back[i]),
        trimmed_end(s).len() > 0 ==> !is_white(trimmed_end(s).last()),
    decreases s.len(),
{
    if s.len() > 0 && is_white(s.last()) {
        let rest = lemma_trimmed_end_parts(s.drop_last());
        let back = rest.push(s.last());
        assert(s =~= s.drop_last().push(s.last()));
        assert((trimmed_end(s) + rest).push(s.last()) =~= trimmed_end(s) + back);
        back
    } else {
        assert(s =~= s + Seq::<char>::empty());
        Seq::empty()
    }
}

/// A trimmed text is the text without white space at both ends: it begins and ends with something
/// else, and only white space stands around it.
pub proof fn law_only_white_space_is_trimmed(s: Seq<char>) -> (parts: (Seq<char>, Seq<char>))
    ensures
        s == parts.0 + trimmed(s) + parts.1,
        forall|i: int| 0 <= i < parts.0.len() ==> is_white(#[trigger] parts.0[i]),
        forall|i: int| 0 <= i < parts.1.len() ==> is_white(#[trigger] parts.1[i]),
        trimmed(s).len() > 0 ==> !is_white(trimmed(s)[0]) && !is_white(trimmed(s).last()),
{
    let front = lemma_trimmed_start_parts(s);
    let back = lemma_trimmed_end_parts(trimmed_start(s));
    assert(s =~= front + trimmed(s) + back);
    if trimmed(s).len() > 0 {
        assert(trimmed_start(s)[0] == trimmed(s)[0]);
    }
    (front, back)
}

/// A text is blank if it holds nothing but white space: tabs, line breaks, spaces and the like.
pub proof fn law_blank_texts(s: Seq<char>)
    ensures
        is_blank(s) <==> forall|i: int| 0 <= i < s.len() ==> is_white(#[trigger] s[i]),
        is_white(' '),
        is_white('\t'),
        is_white('\n'),
        is_white('\r'),
        forall|c: char| '!' <= c <= '~' ==> !#[trigger] is_white(c),
        is_blank(s) ==> nonblank(s) is None,
        !is_blank(s) ==> nonblank(s) == Some(trimmed(s)),
{
    let parts = law_only_white_space_is_trimmed(s);
    let whole = parts.0 + trimmed(s) + parts.1;
    if is_blank(s) {
        assert forall|i: int| 0 <= i < s.len() implies is_white(#[trigger] s[i]) by {
            assert(whole[i] == s[i]);
            if i < parts.0.len() {
                assert(whole[i] == parts.0[i]);
            } else {
                assert(whole[i] == parts.1[i - parts.0.len()]);
            }
        }
    } else {
        assert(s[parts.0.len() as int] == trimmed(s)[0]);
    }
}

/// A text that holds one that is not blank is not blank.
pub proof fn law_longer_texts_are_not_blank(before: Seq<char>, s: Seq<char>, after: Seq<char>)
    requires
        !is_blank(s),
    ensures
        !is_blank(before + s + after),
{
    law_blank_texts(s);
    law_blank_texts(before + s + after);
    let i = choose|i: int| 0 <= i < s.len() && !is_white(#[trigger] s[i]);
    assert((before + s + after)[before.len() + i] == s[i]);
}

/// Joined texts stand one behind the other, in their order, with the separator between each two of
/// them.
pub proof fn law_joined_texts_stand_in_order(
    before: Seq<Seq<char>>,
    after: Seq<Seq<char>>,
    sep: Seq<char>,
)
    ensures
        joined(seq![], sep) == Seq::<char>::empty(),
        before.len() > 0 && after.len() > 0 ==> joined(before + after, sep) == joined(before, sep)
            + sep + joined(after, sep),
        before.len() == 1 ==> joined(before, sep) == before[0],
    decreases after.len(),
{
    if before.len() > 0 && after.len() > 0 {
        let all = before + after;
        assert(all.drop_last() =~= before + after.drop_last());
        if after.len() == 1 {
            assert(after.drop_last().len() == 0);
            assert(all.drop_last() =~= before);
        } else {
            law_joined_texts_stand_in_order(before, after.drop_last(), sep);
            assert(joined(before, sep) + sep + joined(after.drop_last(), sep) + sep + after.last()
                =~= joined(before, sep) + sep + (joined(after.drop_last(), sep) + sep
                + after.last()));
        }
    }
}

/// Each of the joined texts stands in the whole.
pub proof fn law_joined_texts_are_held(parts: Seq<Seq<char>>, at: int, sep: Seq<char>) -> (around: (
    Seq<char>,
    Seq<char>,
))
    requires
        0 <= at < parts.len(),
    ensures
        joined(parts, sep) == around.0 + parts[at] + around.1,
{
    let before = parts.take(at);
    let after = parts.skip(at + 1);
    let one = seq![parts[at]];
    assert(parts =~= before + (one + after));
    assert(joined(one, sep) == parts[at]);
    law_joined_texts_stand_in_order(one, after, sep);
    law_joined_texts_stand_in_order(before, one + after, sep);
    let front = if before.len() > 0 {
        joined(before, sep) + sep
    } else {
        seq![]
    };
    let back = if after.len() > 0 {
        sep + joined(after, sep)
    } else {
        seq![]
    };
    if before.len() == 0 {
        assert(before + (one + after) =~= one + after);
    }
    if after.len() == 0 {
        assert(one + after =~= one);
    }
    assert(joined(parts, sep) =~= front + parts[at] + back);
    (front, back)
}

/// Small letters and all that is no letter of the alphabet stay; large letters become the small
/// ones. Lowering twice changes nothing more.
pub proof fn law_lower_case(s: Seq<char>, i: int)
    requires
        0 <= i < s.len(),
    ensures
        lowered(s).len() == s.len(),
        'A' <= s[i] <= 'Z' ==> lowered(s)[i] as int == s[i] as int - ('A' as int) + ('a' as int),
        !('A' <= s[i] <= 'Z') ==> lowered(s)[i] == s[i],
        lowered(lowered(s)) == lowered(s),
{
    assert(lowered(lowered(s)) =~= lowered(s));
}

/// A line is what stands before a line break, whether or not a carriage return stands there too,
/// and what follows it are the other lines.
pub proof fn law_lines(line: Seq<char>, rest: Seq<char>)
    requires
        !line.contains('\n'),
    ensures
        line.len() == 0 || line.last() != '\r' ==> line_texts(line.push('\n') + rest) == seq![line]
            + line_texts(rest),
        line_texts(line.push('\r').push('\n') + rest) == seq![line] + line_texts(rest),
        line.len() > 0 ==> line_texts(line) == seq![line],
        line_texts(seq![]).len() == 0,
{
    lemma_first_line(line, rest);
    assert(!line.push('\r').contains('\n')) by {
        if line.push('\r').contains('\n') {
            let i = line.push('\r').index_of('\n');
            assert(i < line.len());
            assert(line[i] == '\n');
        }
    }
    lemma_first_line(line.push('\r'), rest);
    assert(line.push('\r').push('\n').drop_last() =~= line.push('\r'));
    assert(line.push('\r').drop_last() =~= line);
    assert(line.push('\n').drop_last() =~= line);
    if line.len() > 0 {
        lemma_no_line_end(line, 0);
        assert(line.subrange(0, line.len() as int) =~= line);
        assert(pieces(line) =~= seq![line]) by {
            reveal_with_fuel(pieces_from, 2);
        }
        assert(line.last() != '\n') by {
            assert(line.contains(line.last()));
        }
        assert(line_texts(line) =~= seq![line]);
    }
}

proof fn lemma_no_line_end(s: Seq<char>, from: int)
    requires
        0 <= from <= s.len(),
        !s.contains('\n'),
    ensures
        line_end(s, from) == s.len(),
    decreases s.len() - from,
{
    if from < s.len() {
        assert(s.contains(s[from]));
        lemma_no_line_end(s, from + 1);
    }
}

proof fn lemma_first_line(line: Seq<char>, rest: Seq<char>)
    requires
        !line.contains('\n'),
    ensures
        line_texts(line.push('\n') + rest) == seq![bare_line(line.push('\n'))] + line_texts(rest),
{
    let s = line.push('\n') + rest;
    assert forall|i: int| 0 <= i < line.len() implies s[i] != '\n' by {
        assert(line.contains(line[i]));
    }
    assert(s[line.len() as int] == '\n');
    lemma_line_ends_at(s, 0, line.len() as int);
    assert(s.subrange(0, line.len() as int + 1) =~= line.push('\n'));
    lemma_pieces_behind(line.push('\n'), rest, 0);
    assert(pieces(s) =~= seq![line.push('\n')] + pieces(rest));
    assert(line_texts(s) =~= seq![bare_line(line.push('\n'))] + line_texts(rest));
}

proof fn lemma_pieces_behind(front: Seq<char>, s: Seq<char>, from: int)
    requires
        0 <= from <= s.len(),
    ensures
        pieces_from(front + s, front.len() + from) == pieces_from(s, from),
    decreases s.len() - from,
{
    if from < s.len() {
        lemma_line_end(s, from);
        lemma_line_end_behind(front, s, from);
        lemma_pieces_behind(front, s, line_end(s, from));
        assert((front + s).subrange(front.len() + from, front.len() + line_end(s, from))
            =~= s.subrange(from, line_end(s, from)));
    }
}

proof fn lemma_line_end_behind(front: Seq<char>, s: Seq<char>, from: int)
    requires
        0 <= from <= s.len(),
    ensures
        line_end(front + s, front.len() + from) == front.len() + line_end(s, from),
    decreases s.len() - from,
{
    if from < s.len() && s[from] != '\n' {
        lemma_line_end_behind(front, s, from + 1);
    }
}

/// What begins with a prefix is that prefix and the rest.
pub proof fn law_prefixes(prefix: Seq<char>, rest: Seq<char>)
    ensures
        without_prefix(prefix + rest, prefix) == Some(rest),
{
    assert((prefix + rest).take(prefix.len() as int) =~= prefix);
    assert((prefix + rest).skip(prefix.len() as int) =~= rest);
}

} // verus!
