//! What the operations on texts amount to.

use vstd::prelude::*;

use crate::strings;

verus! {

/// Flattening from the end.
pub proof fn lemma_flatten_push<A>(parts: Seq<Seq<A>>, last: Seq<A>)
    ensures
        parts.push(last).flatten() == parts.flatten() + last,
{
    parts.lemma_flatten_and_flatten_alt_are_equivalent();
    parts.push(last).lemma_flatten_and_flatten_alt_are_equivalent();
    assert(parts.push(last).drop_last() =~= parts);
}

/// The texts one after the other are all of their characters, in order.
pub proof fn law_concat(parts: Seq<Seq<char>>)
    ensures
        strings::concat(parts) == parts.flatten(),
    decreases parts.len(),
{
    if parts.len() > 0 {
        law_concat(parts.drop_last());
        lemma_flatten_push(parts.drop_last(), parts.last());
        assert(parts.drop_last().push(parts.last()) =~= parts);
    }
}

/// Ended lines are each line and a line feed, one after the other.
pub proof fn law_terminated(lines: Seq<Seq<char>>)
    ensures
        strings::terminated(lines) == lines.map_values(
            |line: Seq<char>| line.push('\n'),
        ).flatten(),
    decreases lines.len(),
{
    let ended = lines.map_values(|line: Seq<char>| line.push('\n'));
    if lines.len() > 0 {
        law_terminated(lines.drop_last());
        let before = lines.drop_last().map_values(|line: Seq<char>| line.push('\n'));
        lemma_flatten_push(before, lines.last().push('\n'));
        assert(before.push(lines.last().push('\n')) =~= ended);
    } else {
        assert(ended =~= Seq::empty());
    }
}

/// Joined texts are each text but the last with the separator behind it, and then the last one.
pub proof fn law_join(parts: Seq<Seq<char>>, sep: char)
    requires
        parts.len() > 0,
    ensures
        strings::join(parts, sep) == parts.drop_last().map_values(
            |part: Seq<char>| part.push(sep),
        ).flatten() + parts.last(),
    decreases parts.len(),
{
    let before = parts.drop_last();
    let ended = before.map_values(|part: Seq<char>| part.push(sep));
    if parts.len() == 1 {
        assert(ended =~= Seq::empty());
        assert(ended.flatten() + parts.last() =~= parts[0]);
    } else {
        law_join(before, sep);
        let inner = before.drop_last().map_values(|part: Seq<char>| part.push(sep));
        lemma_flatten_push(inner, before.last().push(sep));
        assert(inner.push(before.last().push(sep)) =~= ended);
        assert(strings::join(parts, sep) =~= ended.flatten() + parts.last());
    }
}

/// A text is split into the pieces between its separators: joined by them the pieces are the text, and
/// no piece holds one. Nothing else is.
pub proof fn law_split_is_unique(s: Seq<char>, sep: char, parts: Seq<Seq<char>>)
    requires
        parts.len() > 0,
        forall|i: int| 0 <= i < parts.len() ==> !(#[trigger] parts[i]).contains(sep),
        parts.drop_last().map_values(|part: Seq<char>| part.push(sep)).flatten() + parts.last()
            == s,
    ensures
        strings::split(s, sep) == parts,
{
    law_join(parts, sep);
    strings::law_join_split(parts, sep);
}

/// The end of a line: none, a line feed, or a carriage return and a line feed.
pub open spec fn line_end(kind: int) -> Seq<char> {
    if kind == 0 {
        Seq::empty()
    } else if kind == 1 {
        seq!['\n']
    } else {
        seq!['\r', '\n']
    }
}

/// A text is made up of its lines and their ends: every line but the last is ended, the last one may be
/// left open if it is not empty, no line holds a line feed, and a line that is ended by a line feed alone
/// does not end in a carriage return.
pub open spec fn made_of_lines(s: Seq<char>, lines: Seq<Seq<char>>, kinds: Seq<int>) -> bool {
    &&& kinds.len() == lines.len()
    &&& s == Seq::new(lines.len(), |i: int| lines[i] + line_end(kinds[i])).flatten()
    &&& forall|i: int|
        0 <= i < lines.len() ==> {
            &&& !(#[trigger] lines[i]).contains('\n')
            &&& 0 <= kinds[i] <= 2
            &&& kinds[i] == 0 ==> i == lines.len() - 1 && lines[i].len() > 0
            &&& kinds[i] == 1 && lines[i].len() > 0 ==> lines[i].last() != '\r'
        }
}

/// The lines of a text and their ends are the text.
pub proof fn law_text_is_its_lines(s: Seq<char>)
    ensures
        exists|kinds: Seq<int>| made_of_lines(s, strings::text_lines(s), kinds),
{
    let parts = strings::split(s, '\n');
    let lines = strings::text_lines(s);
    strings::law_split_join(s, '\n');
    law_join(parts, '\n');
    let kinds = Seq::new(
        lines.len(),
        |i: int|
            if i == parts.len() - 1 {
                0int
            } else if parts[i].len() > 0 && parts[i].last() == '\r' {
                2int
            } else {
                1int
            },
    );
    let whole = Seq::new(lines.len(), |i: int| lines[i] + line_end(kinds[i]));
    let ended = parts.drop_last().map_values(|part: Seq<char>| part.push('\n'));
    assert forall|i: int| 0 <= i < parts.len() - 1 implies #[trigger] ended[i] == lines[i]
        + line_end(kinds[i]) by {
        assert(lines[i] == strings::without_cr(parts[i]));
        assert(ended[i] =~= lines[i] + line_end(kinds[i]));
    }
    if parts.last().len() == 0 {
        assert(lines.len() == parts.len() - 1);
        assert(whole =~= ended);
        assert(s =~= whole.flatten());
    } else {
        assert(lines.len() == parts.len());
        assert(lines.last() + line_end(0) =~= parts.last());
        assert(whole =~= ended.push(parts.last()));
        lemma_flatten_push(ended, parts.last());
    }
    assert forall|i: int| 0 <= i < lines.len() implies !(#[trigger] lines[i]).contains('\n') by {
        assert(!parts[i].contains('\n'));
        if lines[i].contains('\n') {
            let k = choose|k: int| 0 <= k < lines[i].len() && lines[i][k] == '\n';
            assert(parts[i][k] == '\n');
        }
    }
    assert(made_of_lines(s, lines, kinds));
}

/// What trimming takes away is a run of the one character, and all of it.
pub proof fn law_trim_end(s: Seq<char>, c: char)
    ensures
        strings::trim_end(s, c).len() <= s.len(),
        s == strings::trim_end(s, c) + Seq::new(
            (s.len() - strings::trim_end(s, c).len()) as nat,
            |i: int| c,
        ),
        strings::trim_end(s, c).len() > 0 ==> strings::trim_end(s, c).last() != c,
    decreases s.len(),
{
    if s.len() > 0 && s.last() == c {
        law_trim_end(s.drop_last(), c);
        assert(s =~= s.drop_last().push(c));
    }
    assert(s =~= strings::trim_end(s, c) + Seq::new(
        (s.len() - strings::trim_end(s, c).len()) as nat,
        |i: int| c,
    ));
}

/// The number that decimal digits say.
pub open spec fn number_said(s: Seq<char>) -> int
    decreases s.len(),
{
    if s.len() == 0 {
        0
    } else {
        10 * number_said(s.drop_last()) + (s.last() as int - '0' as int)
    }
}

/// A number in decimal says that number, in digits, and without a zero before them.
pub proof fn law_decimal_says_the_number(n: nat)
    ensures
        number_said(strings::decimal(n)) == n,
        strings::decimal(n).len() > 0,
        forall|i: int|
            0 <= i < strings::decimal(n).len() ==> '0' as int <= (#[trigger] strings::decimal(
                n,
            )[i]) as int <= '9' as int,
        n > 0 ==> strings::decimal(n)[0] != '0',
        n == 0 ==> strings::decimal(n).len() == 1,
    decreases n,
{
    let digits = strings::decimal(n);
    if n < 10 {
        assert(digits.drop_last() =~= Seq::empty());
        assert(number_said(digits.drop_last()) == 0);
    } else {
        law_decimal_says_the_number(n / 10);
        assert(digits.drop_last() =~= strings::decimal(n / 10));
    }
}

/// A text aligned at the right is the text behind blanks, as many as it is short of the width.
pub proof fn law_right_aligned(s: Seq<char>, width: nat)
    ensures
        strings::right_aligned(s, width) == Seq::new(
            if width > s.len() {
                (width - s.len()) as nat
            } else {
                0
            },
            |i: int| ' ',
        ) + s,
{
    if width > s.len() {
        law_repeated(seq![' '], (width - s.len()) as nat);
        assert(strings::repeated(seq![' '], (width - s.len()) as nat) =~= Seq::new(
            (width - s.len()) as nat,
            |i: int| ' ',
        ));
    } else {
        assert(Seq::new(0, |i: int| ' ') + s =~= s);
    }
}

/// Copies hold the characters of the unit over and over.
pub proof fn law_repeated(unit: Seq<char>, count: nat)
    requires
        unit.len() > 0,
    ensures
        strings::repeated(unit, count).len() == count * unit.len(),
        forall|i: int|
            0 <= i < count * unit.len() ==> #[trigger] strings::repeated(unit, count)[i] == unit[i
                % (unit.len() as int)],
    decreases count,
{
    strings::lemma_repeated_len(unit, count);
    if count > 0 {
        let before = strings::repeated(unit, (count - 1) as nat);
        strings::lemma_repeated_len(unit, (count - 1) as nat);
        law_repeated(unit, (count - 1) as nat);
        let n = unit.len() as int;
        assert((count - 1) * n + n == count * n) by (nonlinear_arith)
            requires
                count > 0,
        ;
        assert forall|i: int| 0 <= i < count * unit.len() implies #[trigger] strings::repeated(
            unit,
            count,
        )[i] == unit[i % n] by {
            if i >= before.len() {
                let k = i - (count - 1) * n;
                assert(i % n == k) by (nonlinear_arith)
                    requires
                        i == (count - 1) * n + k,
                        0 <= k < n,
                ;
            }
        }
    }
}

/// A text that is found stands where it is found, and nowhere before; one that is not found stands
/// nowhere.
pub proof fn law_find_is_first(s: Seq<char>, pattern: Seq<char>)
    ensures
        match strings::find_from(s, pattern, 0) {
            Some(at) => {
                &&& at + pattern.len() <= s.len()
                &&& s == s.take(at as int) + pattern + s.skip((at + pattern.len()) as int)
                &&& forall|k: int|
                    0 <= k < at ==> #[trigger] s.subrange(k, k + pattern.len()) != pattern
            },
            None => forall|k: int|
                0 <= k <= s.len() - pattern.len() ==> #[trigger] s.subrange(
                    k,
                    k + pattern.len(),
                ) != pattern,
        },
{
    strings::lemma_find_from(s, pattern, 0);
    match strings::find_from(s, pattern, 0) {
        Some(at) => {
            assert(s =~= s.take(at as int) + s.subrange(at as int, at as int + pattern.len()) + s.skip(
                (at + pattern.len()) as int,
            ));
            assert forall|k: int| 0 <= k < at implies #[trigger] s.subrange(k, k + pattern.len())
                != pattern by {
                assert(!strings::matches_at(s, pattern, k));
            }
        },
        None => {
            assert forall|k: int| 0 <= k <= s.len() - pattern.len() implies #[trigger] s.subrange(
                k,
                k + pattern.len(),
            ) != pattern by {
                assert(!strings::matches_at(s, pattern, k));
            }
        },
    }
}

/// A pattern stands in a text at no position.
pub open spec fn stands_nowhere(pattern: Seq<char>, s: Seq<char>) -> bool {
    forall|k: int|
        0 <= k <= s.len() - pattern.len() ==> #[trigger] s.subrange(k, k + pattern.len())
            != pattern
}

/// The pieces of a text around a pattern, from the left: in none of them does the pattern stand, nor
/// anywhere across the end of a piece and the pattern behind it but there.
pub open spec fn pieces_around(pieces: Seq<Seq<char>>, pattern: Seq<char>) -> bool {
    &&& pieces.len() > 0
    &&& stands_nowhere(pattern, pieces.last())
    &&& forall|i: int, k: int|
        0 <= i < pieces.len() - 1 && 0 <= k < pieces[i].len() ==> #[trigger] (pieces[i]
            + pattern).subrange(k, k + pattern.len()) != pattern
}

/// The pieces with a text between each two.
pub open spec fn with_between(pieces: Seq<Seq<char>>, between: Seq<char>) -> Seq<char> {
    pieces.drop_last().map_values(|piece: Seq<char>| piece + between).flatten() + pieces.last()
}

/// The pieces of a text from a position on around the matches of a pattern.
spec fn pieces_from(s: Seq<char>, pattern: Seq<char>, from: nat) -> Seq<Seq<char>>
    decreases s.len() - from,
{
    match strings::find_from(s, pattern, from) {
        Some(at) => if pattern.len() > 0 && from <= at && at + pattern.len() <= s.len() {
            seq![s.subrange(from as int, at as int)] + pieces_from(
                s,
                pattern,
                at + pattern.len(),
            )
        } else {
            seq![s.skip(from as int)]
        },
        None => seq![s.skip(from as int)],
    }
}

/// Pieces after one more piece.
proof fn lemma_with_between_first(first: Seq<char>, rest: Seq<Seq<char>>, between: Seq<char>)
    requires
        rest.len() > 0,
    ensures
        with_between(seq![first] + rest, between) == first + between + with_between(rest, between),
{
    let all = seq![first] + rest;
    let mapped = all.drop_last().map_values(|piece: Seq<char>| piece + between);
    let inner = rest.drop_last().map_values(|piece: Seq<char>| piece + between);
    assert(mapped.drop_first() =~= inner);
    assert(mapped.first() == first + between);
    assert(with_between(all, between) =~= first + between + with_between(rest, between));
}

/// What the pieces from a position on are.
proof fn lemma_pieces_from(s: Seq<char>, pattern: Seq<char>, with: Seq<char>, from: nat)
    requires
        pattern.len() > 0,
        from <= s.len(),
    ensures
        pieces_from(s, pattern, from).len() == strings::count_from(s, pattern, from) + 1,
        pieces_around(pieces_from(s, pattern, from), pattern),
        with_between(pieces_from(s, pattern, from), pattern) == s.skip(from as int),
        with_between(pieces_from(s, pattern, from), with) == strings::replace_from(
            s,
            pattern,
            with,
            from,
        ),
    decreases s.len() - from,
{
    let pieces = pieces_from(s, pattern, from);
    strings::lemma_find_from(s, pattern, from);
    match strings::find_from(s, pattern, from) {
        Some(at) => {
            let end = at + pattern.len();
            let first = s.subrange(from as int, at as int);
            let rest = pieces_from(s, pattern, end);
            lemma_pieces_from(s, pattern, with, end);
            lemma_with_between_first(first, rest, pattern);
            lemma_with_between_first(first, rest, with);
            assert(first + pattern + s.skip(end as int) =~= s.skip(from as int)) by {
                assert(s.subrange(at as int, end as int) =~= pattern);
            }
            assert(pieces.last() == rest.last());
            assert forall|i: int, k: int|
                0 <= i < pieces.len() - 1 && 0 <= k < pieces[i].len() implies #[trigger] (pieces[i]
                + pattern).subrange(k, k + pattern.len()) != pattern by {
                if i == 0 {
                    assert(!strings::matches_at(s, pattern, from + k));
                    assert((first + pattern).subrange(k, k + pattern.len()) =~= s.subrange(
                        from + k,
                        from + k + pattern.len(),
                    )) by {
                        assert(s.subrange(at as int, end as int) =~= pattern);
                        assert(first + pattern =~= s.subrange(from as int, end as int));
                    }
                } else {
                    assert(pieces[i] == rest[i - 1]);
                    assert((rest[i - 1] + pattern).subrange(k, k + pattern.len()) != pattern);
                }
            }
        },
        None => {
            let rest = s.skip(from as int);
            assert(pieces.drop_last().map_values(|piece: Seq<char>| piece + pattern)
                =~= Seq::empty());
            assert(pieces.drop_last().map_values(|piece: Seq<char>| piece + with)
                =~= Seq::empty());
            assert(with_between(pieces, pattern) =~= rest);
            assert(with_between(pieces, with) =~= rest);
            assert forall|k: int| 0 <= k <= rest.len() - pattern.len() implies #[trigger] rest.subrange(
                k,
                k + pattern.len(),
            ) != pattern by {
                assert(!strings::matches_at(s, pattern, from + k));
                assert(rest.subrange(k, k + pattern.len()) =~= s.subrange(
                    from + k,
                    from + k + pattern.len(),
                ));
            }
        },
    }
}

/// A text is cut at the matches of a pattern, as many as are counted; with the new text in their place
/// the pieces are what a replacement gives.
pub proof fn law_replacement_of_all(s: Seq<char>, pattern: Seq<char>, with: Seq<char>)
    requires
        pattern.len() > 0,
    ensures
        exists|pieces: Seq<Seq<char>>|
            {
                &&& #[trigger] pieces_around(pieces, pattern)
                &&& pieces.len() == strings::count_from(s, pattern, 0) + 1
                &&& with_between(pieces, pattern) == s
                &&& with_between(pieces, with) == strings::replace_all(s, pattern, with)
            },
{
    lemma_pieces_from(s, pattern, with, 0);
    assert(s.skip(0) =~= s);
    assert(pieces_around(pieces_from(s, pattern, 0), pattern));
}

/// There is one way only to cut a text at the matches of a pattern from the left.
pub proof fn law_pieces_are_unique(
    a: Seq<Seq<char>>,
    b: Seq<Seq<char>>,
    pattern: Seq<char>,
)
    requires
        pattern.len() > 0,
        pieces_around(a, pattern),
        pieces_around(b, pattern),
        with_between(a, pattern) == with_between(b, pattern),
    ensures
        a == b,
    decreases a.len(),
{
    let s = with_between(a, pattern);
    if a.len() == 1 && b.len() == 1 {
        lemma_one_piece(a[0], pattern);
        lemma_one_piece(b[0], pattern);
        assert(a =~= seq![a[0]]);
        assert(b =~= seq![b[0]]);
    } else if a.len() == 1 {
        lemma_one_piece(a[0], pattern);
        assert(a =~= seq![a[0]]);
        lemma_first_piece(b, pattern);
        assert(s.subrange(b[0].len() as int, b[0].len() as int + pattern.len()) == pattern);
    } else if b.len() == 1 {
        lemma_one_piece(b[0], pattern);
        assert(b =~= seq![b[0]]);
        lemma_first_piece(a, pattern);
        assert(s.subrange(a[0].len() as int, a[0].len() as int + pattern.len()) == pattern);
    } else {
        lemma_first_piece(a, pattern);
        lemma_first_piece(b, pattern);
        if a[0].len() < b[0].len() {
            assert((b[0] + pattern).subrange(a[0].len() as int, a[0].len() as int + pattern.len())
                =~= s.subrange(a[0].len() as int, a[0].len() as int + pattern.len()));
        }
        if b[0].len() < a[0].len() {
            assert((a[0] + pattern).subrange(b[0].len() as int, b[0].len() as int + pattern.len())
                =~= s.subrange(b[0].len() as int, b[0].len() as int + pattern.len()));
        }
        assert(a[0].len() == b[0].len());
        assert(a[0] =~= s.take(a[0].len() as int));
        assert(b[0] =~= s.take(b[0].len() as int));
        let rest_a = a.drop_first();
        let rest_b = b.drop_first();
        let skipped = a[0].len() + pattern.len();
        assert(with_between(rest_a, pattern) =~= s.skip(skipped as int));
        assert(with_between(rest_b, pattern) =~= s.skip(skipped as int));
        lemma_rest_around(a, pattern);
        lemma_rest_around(b, pattern);
        law_pieces_are_unique(rest_a, rest_b, pattern);
        assert(a =~= seq![a[0]] + rest_a);
        assert(b =~= seq![b[0]] + rest_b);
    }
}

proof fn lemma_one_piece(piece: Seq<char>, between: Seq<char>)
    ensures
        with_between(seq![piece], between) == piece,
{
    assert(seq![piece].drop_last().map_values(|p: Seq<char>| p + between) =~= Seq::empty());
    assert(with_between(seq![piece], between) =~= piece);
}

proof fn lemma_first_piece(pieces: Seq<Seq<char>>, pattern: Seq<char>)
    requires
        pieces.len() > 1,
    ensures
        ({
            let s = with_between(pieces, pattern);
            &&& s == pieces[0] + pattern + with_between(pieces.drop_first(), pattern)
            &&& s.len() >= pieces[0].len() + pattern.len()
            &&& s.subrange(0, (pieces[0].len() + pattern.len()) as int) == pieces[0] + pattern
            &&& s.subrange(pieces[0].len() as int, (pieces[0].len() + pattern.len()) as int)
                == pattern
        }),
{
    lemma_with_between_first(pieces[0], pieces.drop_first(), pattern);
    assert(seq![pieces[0]] + pieces.drop_first() =~= pieces);
    let s = with_between(pieces, pattern);
    assert(s.subrange(0, (pieces[0].len() + pattern.len()) as int) =~= pieces[0] + pattern);
    assert(s.subrange(pieces[0].len() as int, (pieces[0].len() + pattern.len()) as int)
        =~= pattern);
}

proof fn lemma_rest_around(pieces: Seq<Seq<char>>, pattern: Seq<char>)
    requires
        pieces.len() > 1,
        pieces_around(pieces, pattern),
    ensures
        pieces_around(pieces.drop_first(), pattern),
{
    let rest = pieces.drop_first();
    assert forall|i: int, k: int|
        0 <= i < rest.len() - 1 && 0 <= k < rest[i].len() implies #[trigger] (rest[i]
        + pattern).subrange(k, k + pattern.len()) != pattern by {
        assert((pieces[i + 1] + pattern).subrange(k, k + pattern.len()) != pattern);
    }
}

/// A replacement of the first match keeps what stands before and behind it.
pub proof fn law_replacement_of_first(
    before: Seq<char>,
    pattern: Seq<char>,
    after: Seq<char>,
    with: Seq<char>,
)
    requires
        forall|k: int|
            0 <= k < before.len() ==> #[trigger] (before + pattern).subrange(
                k,
                k + pattern.len(),
            ) != pattern,
    ensures
        strings::replace_first(before + pattern + after, pattern, with) == before + with + after,
{
    let s = before + pattern + after;
    strings::lemma_find_from(s, pattern, 0);
    assert(s.subrange(before.len() as int, before.len() as int + pattern.len()) =~= pattern);
    assert(strings::matches_at(s, pattern, before.len() as int));
    let at = strings::find_from(s, pattern, 0)->0;
    if at < before.len() {
        assert((before + pattern).subrange(at as int, at as int + pattern.len()) =~= s.subrange(
            at as int,
            at as int + pattern.len(),
        ));
    }
    assert(s.take(at as int) =~= before);
    assert(s.skip((at + pattern.len()) as int) =~= after);
}

/// Of two texts one comes first if it is a proper beginning of the other, or has the smaller character
/// where they first differ; and only then.
pub proof fn law_precedes_is_by_first_difference(a: Seq<char>, b: Seq<char>)
    ensures
        strings::precedes(a, b) <==> {
            ||| a.len() < b.len() && b.take(a.len() as int) == a
            ||| exists|k: int|
                {
                    &&& 0 <= k < a.len()
                    &&& k < b.len()
                    &&& #[trigger] a.take(k) == b.take(k)
                    &&& (a[k] as int) < (b[k] as int)
                }
        },
    decreases a.len(),
{
    if a.len() > 0 && b.len() > 0 {
        let x = a.drop_first();
        let y = b.drop_first();
        if a[0] == b[0] {
            law_precedes_is_by_first_difference(x, y);
            if x.len() < y.len() && y.take(x.len() as int) == x {
                assert(b.take(a.len() as int) =~= a) by {
                    assert forall|i: int| 0 <= i < a.len() implies b[i] == a[i] by {
                        if i > 0 {
                            assert(y.take(x.len() as int)[i - 1] == x[i - 1]);
                        }
                    }
                }
            }
            if a.len() < b.len() && b.take(a.len() as int) == a {
                assert(y.take(x.len() as int) =~= x) by {
                    assert forall|i: int| 0 <= i < x.len() implies y[i] == x[i] by {
                        assert(b.take(a.len() as int)[i + 1] == a[i + 1]);
                    }
                }
            }
            if exists|k: int|
                0 <= k < x.len() && k < y.len() && #[trigger] x.take(k) == y.take(k) && (x[k] as int)
                    < (y[k] as int) {
                let k = choose|k: int|
                    0 <= k < x.len() && k < y.len() && #[trigger] x.take(k) == y.take(k) && (
                    x[k] as int) < (y[k] as int);
                assert(a.take(k + 1) =~= b.take(k + 1)) by {
                    assert forall|i: int| 0 <= i < k + 1 implies a[i] == b[i] by {
                        if i > 0 {
                            assert(x.take(k)[i - 1] == y.take(k)[i - 1]);
                        }
                    }
                }
            }
            if exists|k: int|
                0 <= k < a.len() && k < b.len() && #[trigger] a.take(k) == b.take(k) && (a[k] as int)
                    < (b[k] as int) {
                let k = choose|k: int|
                    0 <= k < a.len() && k < b.len() && #[trigger] a.take(k) == b.take(k) && (
                    a[k] as int) < (b[k] as int);
                assert(k > 0);
                assert(x.take(k - 1) =~= y.take(k - 1)) by {
                    assert forall|i: int| 0 <= i < k - 1 implies x[i] == y[i] by {
                        assert(a.take(k)[i + 1] == b.take(k)[i + 1]);
                    }
                }
            }
        } else {
            assert(a.take(0) =~= b.take(0));
            if a.len() < b.len() && b.take(a.len() as int) == a {
                assert(b.take(a.len() as int)[0] == a[0]);
            }
            assert forall|k: int|
                0 <= k < a.len() && k < b.len() && #[trigger] a.take(k) == b.take(k) implies k
                == 0 by {
                if k > 0 {
                    assert(a.take(k)[0] == b.take(k)[0]);
                }
            }
        }
    } else if a.len() == 0 && b.len() > 0 {
        assert(b.take(0) =~= a);
    }
}

/// The white space characters: the control characters from tab to carriage return, the blank, the next
/// line, and the spaces and separators of Unicode; twenty-five in all.
pub proof fn law_white_space(c: char)
    ensures
        strings::white_space(c) <==> seq![
            0x09int, 0x0a, 0x0b, 0x0c, 0x0d, 0x20, 0x85, 0xa0, 0x1680, 0x2000, 0x2001, 0x2002, 0x2003,
            0x2004, 0x2005, 0x2006, 0x2007, 0x2008, 0x2009, 0x200a, 0x2028, 0x2029, 0x202f, 0x205f,
            0x3000,
        ].contains(c as int),
{
    let all = seq![
        0x09int, 0x0a, 0x0b, 0x0c, 0x0d, 0x20, 0x85, 0xa0, 0x1680, 0x2000, 0x2001, 0x2002, 0x2003,
        0x2004, 0x2005, 0x2006, 0x2007, 0x2008, 0x2009, 0x200a, 0x2028, 0x2029, 0x202f, 0x205f,
        0x3000,
    ];
    let code = c as int;
    if strings::white_space(c) {
        let i = if code <= 0x0d {
            code - 0x09
        } else if code == 0x20 {
            5
        } else if code == 0x85 {
            6
        } else if code == 0xa0 {
            7
        } else if code == 0x1680 {
            8
        } else if code <= 0x200a {
            code - 0x2000 + 9
        } else if code == 0x2028 {
            20
        } else if code == 0x2029 {
            21
        } else if code == 0x202f {
            22
        } else if code == 0x205f {
            23
        } else {
            24
        };
        assert(all[i] == code);
    }
}

/// A text is blank if and only if each of its characters is white space.
pub proof fn law_blank(a: Seq<char>, b: Seq<char>)
    ensures
        strings::blank(a + b) <==> strings::blank(a) && strings::blank(b),
        strings::blank(Seq::empty()),
        a.len() == 1 ==> (strings::blank(a) <==> strings::white_space(a[0])),
{
    if strings::blank(a + b) {
        assert forall|i: int| 0 <= i < a.len() implies strings::white_space(#[trigger] a[i]) by {
            assert((a + b)[i] == a[i]);
        }
        assert forall|i: int| 0 <= i < b.len() implies strings::white_space(#[trigger] b[i]) by {
            assert((a + b)[a.len() + i] == b[i]);
        }
    }
}


/// What is said of texts is what they hold.
pub proof fn law_texts_as_held(texts: Seq<String>, i: int, s: Option<String>, r: Option<&str>)
    ensures
        strings::texts(texts).len() == texts.len(),
        0 <= i < texts.len() ==> strings::texts(texts)[i] == texts[i]@,
        strings::opt_text(s) is Some <==> s is Some,
        s is Some ==> strings::opt_text(s) == Some(s->0@),
        strings::opt_str(r) is Some <==> r is Some,
        r is Some ==> strings::opt_str(r) == Some(r->0@),
{
}

} // verus!
