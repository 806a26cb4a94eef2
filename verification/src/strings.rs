//! Plain-text helpers: splitting, line breaking, decimal numbers, search and replacement.
//!
//! Every function works on characters; the specifications are over `Seq<char>`.

use vstd::prelude::*;

verus! {

/// `String::push` appends the given character to the end of the string.
pub assume_specification[ String::push ](s: &mut String, ch: char)
    ensures
        final(s)@ == old(s)@.push(ch),
;

/// `String::push_str` appends the given string slice to the end of the string.
pub assume_specification[ String::push_str ](s: &mut String, string: &str)
    ensures
        final(s)@ == old(s)@ + string@,
;

/// The texts of a sequence of strings.
pub open spec fn texts(strings: Seq<String>) -> Seq<Seq<char>> {
    strings.map_values(|s: String| s@)
}

/// The text of an optional string.
pub open spec fn opt_text(s: Option<String>) -> Option<Seq<char>> {
    match s {
        Some(s) => Some(s@),
        None => None,
    }
}

/// A copy of an optional string.
pub fn copy_optional(s: &Option<String>) -> (copy: Option<String>)
    ensures
        opt_text(copy) == opt_text(*s),
{
    match s {
        Some(s) => Some(s.clone()),
        None => None,
    }
}

/// The text of an optional string slice.
pub open spec fn opt_str(s: Option<&str>) -> Option<Seq<char>> {
    match s {
        Some(s) => Some(s@),
        None => None,
    }
}

/// All texts, one after the other.
pub open spec fn concat(parts: Seq<Seq<char>>) -> Seq<char>
    decreases parts.len(),
{
    if parts.len() == 0 {
        Seq::empty()
    } else {
        concat(parts.drop_last()) + parts.last()
    }
}

/// The pieces of `s` between the separators: one more piece than there are separators.
pub open spec fn split(s: Seq<char>, sep: char) -> Seq<Seq<char>>
    decreases s.len(),
{
    if s.len() == 0 {
        seq![Seq::<char>::empty()]
    } else {
        let before = split(s.drop_last(), sep);
        if s.last() == sep {
            before.push(Seq::empty())
        } else {
            before.drop_last().push(before.last().push(s.last()))
        }
    }
}

/// The pieces with a separator between each two.
pub open spec fn join(parts: Seq<Seq<char>>, sep: char) -> Seq<char>
    decreases parts.len(),
{
    if parts.len() == 0 {
        Seq::empty()
    } else if parts.len() == 1 {
        parts[0]
    } else {
        join(parts.drop_last(), sep).push(sep) + parts.last()
    }
}

/// `parts` without a trailing empty piece.
pub open spec fn without_trailing_empty(parts: Seq<Seq<char>>) -> Seq<Seq<char>> {
    if parts.len() > 0 && parts.last().len() == 0 {
        parts.drop_last()
    } else {
        parts
    }
}

/// `line` without the one carriage return that ends it, if any.
pub open spec fn without_cr(line: Seq<char>) -> Seq<char> {
    if line.len() > 0 && line.last() == '\r' {
        line.drop_last()
    } else {
        line
    }
}

/// The lines of a text: each line ends at a line feed or at a carriage return followed by one; the
/// last line need not be ended, and keeps a carriage return of its own.
pub open spec fn text_lines(s: Seq<char>) -> Seq<Seq<char>> {
    let parts = split(s, '\n');
    without_trailing_empty(
        Seq::new(
            parts.len(),
            |i: int|
                if i < parts.len() - 1 {
                    without_cr(parts[i])
                } else {
                    parts[i]
                },
        ),
    )
}

/// `s` without the run of `c` at its end.
pub open spec fn trim_end(s: Seq<char>, c: char) -> Seq<char>
    decreases s.len(),
{
    if s.len() > 0 && s.last() == c {
        trim_end(s.drop_last(), c)
    } else {
        s
    }
}

/// `count` copies of `unit`, one after the other.
pub open spec fn repeated(unit: Seq<char>, count: nat) -> Seq<char>
    decreases count,
{
    if count == 0 {
        Seq::empty()
    } else {
        repeated(unit, (count - 1) as nat) + unit
    }
}

/// Copies are as long as their number says.
pub proof fn lemma_repeated_len(unit: Seq<char>, count: nat)
    ensures
        repeated(unit, count).len() == count * unit.len(),
    decreases count,
{
    if count > 0 {
        lemma_repeated_len(unit, (count - 1) as nat);
        assert((count - 1) * unit.len() + unit.len() == count * unit.len()) by (nonlinear_arith)
            requires
                count > 0,
        ;
    } else {
        assert(count * unit.len() == 0) by (nonlinear_arith)
            requires
                count == 0,
        ;
    }
}

/// The decimal digit `d`.
pub open spec fn digit(d: nat) -> char {
    if d == 0 {
        '0'
    } else if d == 1 {
        '1'
    } else if d == 2 {
        '2'
    } else if d == 3 {
        '3'
    } else if d == 4 {
        '4'
    } else if d == 5 {
        '5'
    } else if d == 6 {
        '6'
    } else if d == 7 {
        '7'
    } else if d == 8 {
        '8'
    } else {
        '9'
    }
}

/// `n` in decimal, without leading zeros.
pub open spec fn decimal(n: nat) -> Seq<char>
    decreases n,
{
    if n < 10 {
        seq![digit(n)]
    } else {
        decimal(n / 10).push(digit(n % 10))
    }
}

/// `s` with spaces before it, at least `width` characters in all.
pub open spec fn right_aligned(s: Seq<char>, width: nat) -> Seq<char> {
    if s.len() >= width {
        s
    } else {
        repeated(seq![' '], (width - s.len()) as nat) + s
    }
}

/// `pattern` stands in `s` at position `at`.
pub open spec fn matches_at(s: Seq<char>, pattern: Seq<char>, at: int) -> bool {
    &&& 0 <= at
    &&& at + pattern.len() <= s.len()
    &&& s.subrange(at, at + pattern.len()) == pattern
}

/// The first position from `from` on at which `pattern` stands in `s`.
pub open spec fn find_from(s: Seq<char>, pattern: Seq<char>, from: nat) -> Option<nat>
    decreases s.len() - from,
{
    if from + pattern.len() > s.len() {
        None
    } else if matches_at(s, pattern, from as int) {
        Some(from)
    } else if from >= s.len() {
        None
    } else {
        find_from(s, pattern, from + 1)
    }
}

/// How often `pattern` stands in `s` from `from` on, counted from left to right without overlap.
pub open spec fn count_from(s: Seq<char>, pattern: Seq<char>, from: nat) -> nat
    decreases s.len() - from,
{
    match find_from(s, pattern, from) {
        Some(at) => if pattern.len() > 0 && from <= at && at + pattern.len() <= s.len() {
            1 + count_from(s, pattern, at + pattern.len())
        } else {
            0
        },
        None => 0,
    }
}

/// `s` from `from` on, with each match of `pattern` that `count_from` counts replaced.
pub open spec fn replace_from(
    s: Seq<char>,
    pattern: Seq<char>,
    with: Seq<char>,
    from: nat,
) -> Seq<char>
    decreases s.len() - from,
{
    match find_from(s, pattern, from) {
        Some(at) => if pattern.len() > 0 && from <= at && at + pattern.len() <= s.len() {
            s.subrange(from as int, at as int) + with + replace_from(
                s,
                pattern,
                with,
                at + pattern.len(),
            )
        } else {
            s.skip(from as int)
        },
        None => s.skip(from as int),
    }
}

/// `s` with every match of `pattern` replaced.
pub open spec fn replace_all(s: Seq<char>, pattern: Seq<char>, with: Seq<char>) -> Seq<char> {
    replace_from(s, pattern, with, 0)
}

/// `s` with the first match of `pattern` replaced.
pub open spec fn replace_first(s: Seq<char>, pattern: Seq<char>, with: Seq<char>) -> Seq<char> {
    match find_from(s, pattern, 0) {
        Some(at) => s.take(at as int) + with + s.skip((at + pattern.len()) as int),
        None => s,
    }
}

/// The characters of a string.
pub fn chars_of(s: &str) -> (chars: Vec<char>)
    ensures
        chars@ == s@,
{
    let mut chars: Vec<char> = Vec::new();
    for c in it: s.chars()
        invariant
            it.seq() == s@,
            chars@ == s@.take(it.index() as int),
    {
        chars.push(c);
    }
    assert(s@.take(s@.len() as int) == s@);
    chars
}

/// The string of the characters from `from` up to `to`.
pub fn string_of(chars: &Vec<char>, from: usize, to: usize) -> (s: String)
    requires
        from <= to <= chars.len(),
    ensures
        s@ == chars@.subrange(from as int, to as int),
{
    let mut s = String::new();
    let mut i: usize = from;
    while i < to
        invariant
            from <= i <= to <= chars.len(),
            s@ == chars@.subrange(from as int, i as int),
        decreases to - i,
    {
        s.push(chars[i]);
        i += 1;
        assert(chars@.subrange(from as int, i as int) == chars@.subrange(
            from as int,
            i - 1,
        ).push(chars@[i - 1]));
    }
    s
}

/// Splits a string at each `sep`.
pub fn split_at_char(s: &str, sep: char) -> (parts: Vec<String>)
    ensures
        texts(parts@) == split(s@, sep),
        parts.len() > 0,
{
    let chars = chars_of(s);
    let mut parts: Vec<String> = Vec::new();
    let mut current = String::new();
    let mut i: usize = 0;
    assert(texts(parts@).push(current@) =~= split(s@.take(0), sep));
    while i < chars.len()
        invariant
            chars@ == s@,
            i <= chars.len(),
            texts(parts@).push(current@) == split(s@.take(i as int), sep),
        decreases chars.len() - i,
    {
        let c = chars[i];
        let ghost taken = s@.take(i as int + 1);
        assert(taken.drop_last() == s@.take(i as int));
        let ghost before = texts(parts@).push(current@);
        if c == sep {
            parts.push(current);
            current = String::new();
            assert(texts(parts@) =~= before);
        } else {
            current.push(c);
            assert(before.drop_last() =~= texts(parts@));
        }
        i += 1;
    }
    assert(s@.take(i as int) == s@);
    let ghost before = texts(parts@).push(current@);
    parts.push(current);
    assert(texts(parts@) =~= before);
    parts
}

/// The lines of a text, without their line endings.
pub fn lines_of(s: &str) -> (lines: Vec<String>)
    ensures
        texts(lines@) == text_lines(s@),
{
    let parts = split_at_char(s, '\n');
    let ghost pieces = split(s@, '\n');
    let n: usize = parts.len();
    let mut lines: Vec<String> = Vec::new();
    let mut i: usize = 0;
    while i < n
        invariant
            n == parts.len(),
            texts(parts@) == pieces,
            i <= n,
            lines.len() == i,
            forall|j: int|
                0 <= j < i ==> (#[trigger] lines@[j])@ == if j < n - 1 {
                    without_cr(pieces[j])
                } else {
                    pieces[j]
                },
        decreases n - i,
    {
        assert(parts@[i as int]@ == pieces[i as int]);
        if i < n - 1 {
            let chars = chars_of(parts[i].as_str());
            let len: usize = chars.len();
            if len > 0 && chars[len - 1] == '\r' {
                let line = string_of(&chars, 0, len - 1);
                assert(line@ =~= without_cr(pieces[i as int]));
                lines.push(line);
            } else {
                lines.push(parts[i].clone());
            }
        } else {
            lines.push(parts[i].clone());
        }
        i += 1;
    }
    let ghost stripped = Seq::new(
        pieces.len(),
        |i: int|
            if i < pieces.len() - 1 {
                without_cr(pieces[i])
            } else {
                pieces[i]
            },
    );
    assert(texts(lines@) =~= stripped);
    assert(texts(lines@).last() == lines@.last()@);
    if lines[n - 1].as_str().is_empty() {
        lines.pop();
        assert(texts(lines@) =~= stripped.drop_last());
    }
    lines
}

/// The string without the run of `c` at its end.
pub fn trimmed_end(s: &str, c: char) -> (r: String)
    ensures
        r@ == trim_end(s@, c),
{
    let chars = chars_of(s);
    let mut end: usize = chars.len();
    assert(s@.take(end as int) == s@);
    while end > 0 && chars[end - 1] == c
        invariant
            chars@ == s@,
            end <= chars.len(),
            trim_end(s@.take(end as int), c) == trim_end(s@, c),
        decreases end,
    {
        assert(s@.take(end as int).drop_last() == s@.take(end - 1));
        end -= 1;
    }
    assert(s@.take(end as int) == s@.subrange(0, end as int));
    string_of(&chars, 0, end)
}

/// Appends `count` copies of `unit`.
pub fn push_repeated(out: &mut String, unit: &str, count: usize)
    ensures
        final(out)@ == old(out)@ + repeated(unit@, count as nat),
{
    let mut i: usize = 0;
    while i < count
        invariant
            i <= count,
            out@ == old(out)@ + repeated(unit@, i as nat),
        decreases count - i,
    {
        out.push_str(unit);
        i += 1;
    }
}

/// The decimal digit `d`.
fn digit_char(d: usize) -> (c: char)
    requires
        d < 10,
    ensures
        c == digit(d as nat),
{
    match d {
        0 => '0',
        1 => '1',
        2 => '2',
        3 => '3',
        4 => '4',
        5 => '5',
        6 => '6',
        7 => '7',
        8 => '8',
        _ => '9',
    }
}

/// Appends `n` in decimal.
pub fn push_decimal(out: &mut String, n: usize)
    ensures
        final(out)@ == old(out)@ + decimal(n as nat),
    decreases n,
{
    if n >= 10 {
        push_decimal(out, n / 10);
    }
    out.push(digit_char(n % 10));
    assert(out@ =~= old(out)@ + decimal(n as nat));
}

/// `n` in decimal.
pub fn decimal_string(n: usize) -> (s: String)
    ensures
        s@ == decimal(n as nat),
{
    let mut s = String::new();
    push_decimal(&mut s, n);
    assert(Seq::<char>::empty() + decimal(n as nat) =~= decimal(n as nat));
    s
}

/// Appends `n` in decimal, with spaces before it up to `width` characters.
pub fn push_right_aligned(out: &mut String, n: usize, width: usize)
    ensures
        final(out)@ == old(out)@ + right_aligned(decimal(n as nat), width as nat),
{
    let number = decimal_string(n);
    let len: usize = chars_of(number.as_str()).len();
    if len < width {
        push_repeated(out, " ", width - len);
        proof {
            reveal_strlit(" ");
            assert(" "@ =~= seq![' ']);
        }
    }
    out.push_str(number.as_str());
    assert(out@ =~= old(out)@ + right_aligned(decimal(n as nat), width as nat));
}

/// The position of the first match of `pattern` from `from` on.
fn find_chars(s: &Vec<char>, pattern: &Vec<char>, from: usize) -> (at: Option<usize>)
    ensures
        match at {
            Some(i) => find_from(s@, pattern@, from as nat) == Some(i as nat),
            None => find_from(s@, pattern@, from as nat) is None,
        },
{
    let mut at: usize = from;
    while at <= s.len() && pattern.len() <= s.len() - at
        invariant
            find_from(s@, pattern@, from as nat) == find_from(s@, pattern@, at as nat),
        decreases s.len() + 1 - at,
    {
        let mut k: usize = 0;
        while k < pattern.len() && s[at + k] == pattern[k]
            invariant
                k <= pattern.len(),
                at + pattern.len() <= s.len(),
                forall|j: int| 0 <= j < k ==> s@[at + j] == pattern@[j],
            decreases pattern.len() - k,
        {
            k += 1;
        }
        if k == pattern.len() {
            assert(s@.subrange(at as int, at + pattern.len()) =~= pattern@);
            return Some(at);
        }
        assert(s@.subrange(at as int, at + pattern.len())[k as int] != pattern@[k as int]);
        at += 1;
    }
    None
}

/// Where a found match lies.
pub proof fn lemma_find_from(s: Seq<char>, pattern: Seq<char>, from: nat)
    ensures
        match find_from(s, pattern, from) {
            Some(at) => from <= at && matches_at(s, pattern, at as int) && forall|k: int|
                from <= k < at ==> !matches_at(s, pattern, k),
            None => forall|k: int| from <= k ==> !matches_at(s, pattern, k),
        },
    decreases s.len() - from,
{
    if from + pattern.len() <= s.len() && !matches_at(s, pattern, from as int) && from < s.len() {
        lemma_find_from(s, pattern, from + 1);
    }
}

/// How often `pattern` stands in `s`, counted from left to right without overlap.
pub fn count_matches(s: &str, pattern: &str) -> (count: usize)
    requires
        pattern@.len() > 0,
    ensures
        count == count_from(s@, pattern@, 0),
{
    let chars = chars_of(s);
    let wanted = chars_of(pattern);
    let mut count: usize = 0;
    let mut from: usize = 0;
    loop
        invariant
            chars@ == s@,
            wanted@ == pattern@,
            wanted.len() > 0,
            count <= from <= chars.len(),
            count + count_from(s@, pattern@, from as nat) == count_from(s@, pattern@, 0),
        decreases chars.len() - from,
    {
        proof {
            lemma_find_from(s@, pattern@, from as nat);
        }
        match find_chars(&chars, &wanted, from) {
            Some(at) => {
                count += 1;
                from = at + wanted.len();
            },
            None => {
                return count;
            },
        }
    }
}

/// The string with every match of `pattern` replaced.
pub fn replaced_all(s: &str, pattern: &str, with: &str) -> (r: String)
    requires
        pattern@.len() > 0,
    ensures
        r@ == replace_all(s@, pattern@, with@),
{
    let chars = chars_of(s);
    let wanted = chars_of(pattern);
    let mut out = String::new();
    let mut from: usize = 0;
    assert(out@ + replace_from(s@, pattern@, with@, 0) =~= replace_all(s@, pattern@, with@));
    loop
        invariant
            chars@ == s@,
            wanted@ == pattern@,
            wanted.len() > 0,
            from <= chars.len(),
            out@ + replace_from(s@, pattern@, with@, from as nat) == replace_all(
                s@,
                pattern@,
                with@,
            ),
        decreases chars.len() - from,
    {
        proof {
            lemma_find_from(s@, pattern@, from as nat);
        }
        let ghost before = out@;
        match find_chars(&chars, &wanted, from) {
            Some(at) => {
                let kept = string_of(&chars, from, at);
                out.push_str(kept.as_str());
                out.push_str(with);
                from = at + wanted.len();
                assert(out@ + replace_from(s@, pattern@, with@, from as nat) =~= before + (kept@
                    + with@ + replace_from(s@, pattern@, with@, from as nat)));
            },
            None => {
                let rest = string_of(&chars, from, chars.len());
                out.push_str(rest.as_str());
                assert(rest@ =~= s@.skip(from as int));
                return out;
            },
        }
    }
}

/// The string with the first match of `pattern` replaced.
pub fn replaced_first(s: &str, pattern: &str, with: &str) -> (r: String)
    ensures
        r@ == replace_first(s@, pattern@, with@),
{
    let chars = chars_of(s);
    let wanted = chars_of(pattern);
    proof {
        lemma_find_from(s@, pattern@, 0);
    }
    match find_chars(&chars, &wanted, 0) {
        Some(at) => {
            assert(at + wanted.len() <= chars.len());
            let mut out = string_of(&chars, 0, at);
            out.push_str(with);
            let rest = string_of(&chars, at + wanted.len(), chars.len());
            out.push_str(rest.as_str());
            assert(out@ =~= replace_first(s@, pattern@, with@));
            out
        },
        None => string_of(&chars, 0, chars.len()),
    }
}

/// The position of the first match of `pattern`.
pub fn find(s: &str, pattern: &str) -> (at: Option<usize>)
    ensures
        match at {
            Some(i) => find_from(s@, pattern@, 0) == Some(i as nat),
            None => find_from(s@, pattern@, 0) is None,
        },
{
    let chars = chars_of(s);
    let wanted = chars_of(pattern);
    find_chars(&chars, &wanted, 0)
}

/// The first `count` characters of a string.
pub fn prefix(s: &str, count: usize) -> (r: String)
    requires
        count <= s@.len(),
    ensures
        r@ == s@.take(count as int),
{
    let chars = chars_of(s);
    assert(s@.take(count as int) == s@.subrange(0, count as int));
    string_of(&chars, 0, count)
}

/// Whether two strings hold the same text.
pub fn same_text(a: &str, b: &str) -> (same: bool)
    ensures
        same == (a@ == b@),
{
    let left = chars_of(a);
    let right = chars_of(b);
    if left.len() != right.len() {
        return false;
    }
    let mut i: usize = 0;
    while i < left.len()
        invariant
            left@ == a@,
            right@ == b@,
            left.len() == right.len(),
            i <= left.len(),
            forall|j: int| 0 <= j < i ==> a@[j] == b@[j],
        decreases left.len() - i,
    {
        if left[i] != right[i] {
            return false;
        }
        i += 1;
    }
    assert(a@ =~= b@);
    true
}

/// Whether a string begins with a prefix.
pub fn begins_with(s: &str, start: &str) -> (r: bool)
    ensures
        r == start@.is_prefix_of(s@),
{
    let chars = chars_of(s);
    let wanted = chars_of(start);
    if wanted.len() > chars.len() {
        return false;
    }
    let mut i: usize = 0;
    while i < wanted.len()
        invariant
            chars@ == s@,
            wanted@ == start@,
            i <= wanted.len() <= chars.len(),
            forall|j: int| 0 <= j < i ==> s@[j] == start@[j],
        decreases wanted.len() - i,
    {
        if chars[i] != wanted[i] {
            assert(s@.subrange(0, start@.len() as int)[i as int] != start@[i as int]);
            return false;
        }
        i += 1;
    }
    assert(s@.subrange(0, start@.len() as int) =~= start@);
    true
}

/// Whether a string holds a character.
pub fn has_char(s: &str, c: char) -> (r: bool)
    ensures
        r == s@.contains(c),
{
    let chars = chars_of(s);
    let mut i: usize = 0;
    while i < chars.len()
        invariant
            chars@ == s@,
            i <= chars.len(),
            forall|j: int| 0 <= j < i ==> s@[j] != c,
        decreases chars.len() - i,
    {
        if chars[i] == c {
            assert(s@[i as int] == c);
            return true;
        }
        i += 1;
    }
    false
}

/// Joining the pieces of a split gives the text back, and no piece holds the separator.
pub proof fn law_split_join(s: Seq<char>, sep: char)
    ensures
        split(s, sep).len() > 0,
        join(split(s, sep), sep) == s,
        forall|i: int| 0 <= i < split(s, sep).len() ==> !(#[trigger] split(s, sep)[i]).contains(sep),
    decreases s.len(),
{
    let parts = split(s, sep);
    if s.len() > 0 {
        let before = split(s.drop_last(), sep);
        law_split_join(s.drop_last(), sep);
        if s.last() == sep {
            assert(parts.drop_last() =~= before);
            assert(join(parts, sep) =~= s);
        } else {
            assert(parts.drop_last() =~= before.drop_last());
            let last = before.last();
            assert(!last.contains(sep));
            assert(!last.push(s.last()).contains(sep)) by {
                if last.push(s.last()).contains(sep) {
                    let k = choose|k: int|
                        0 <= k < last.len() + 1 && last.push(s.last())[k] == sep;
                    assert(last[k] == sep);
                }
            }
            if before.len() > 1 {
                assert(join(parts, sep) =~= join(before, sep).push(s.last()));
            }
            assert(join(parts, sep) =~= s);
        }
    }
}

/// Splitting a text that ends in pieces free of the separator: one piece is added at a time.
pub proof fn lemma_split_append(s: Seq<char>, piece: Seq<char>, sep: char)
    requires
        !piece.contains(sep),
    ensures
        split(s.push(sep) + piece, sep) == split(s, sep).push(piece),
    decreases piece.len(),
{
    let whole = s.push(sep) + piece;
    if piece.len() == 0 {
        assert(piece =~= Seq::empty());
        assert(whole =~= s.push(sep));
        assert(whole.drop_last() =~= s);
    } else {
        assert(piece.last() == piece[piece.len() - 1]);
        assert(forall|k: int| 0 <= k < piece.len() - 1 ==> piece.drop_last()[k] == piece[k]);
        lemma_split_append(s, piece.drop_last(), sep);
        assert(whole.drop_last() =~= s.push(sep) + piece.drop_last());
        assert(piece.drop_last().push(piece.last()) =~= piece);
        assert(split(whole, sep) =~= split(s, sep).push(piece));
    }
}

/// A text without the separator is one piece.
pub proof fn lemma_split_single(s: Seq<char>, sep: char)
    requires
        !s.contains(sep),
    ensures
        split(s, sep) == seq![s],
    decreases s.len(),
{
    if s.len() > 0 {
        assert(s.last() == s[s.len() - 1]);
        assert(forall|k: int| 0 <= k < s.len() - 1 ==> s.drop_last()[k] == s[k]);
        lemma_split_single(s.drop_last(), sep);
        assert(s.drop_last().push(s.last()) =~= s);
        assert(split(s, sep) =~= seq![s]);
    } else {
        assert(s =~= Seq::<char>::empty());
        assert(split(s, sep) =~= seq![s]);
    }
}

/// Splitting undoes joining of pieces that do not hold the separator.
pub proof fn law_join_split(parts: Seq<Seq<char>>, sep: char)
    requires
        parts.len() > 0,
        forall|i: int| 0 <= i < parts.len() ==> !(#[trigger] parts[i]).contains(sep),
    ensures
        split(join(parts, sep), sep) == parts,
    decreases parts.len(),
{
    if parts.len() == 1 {
        lemma_split_single(parts[0], sep);
        assert(parts =~= seq![parts[0]]);
    } else {
        let init = parts.drop_last();
        assert(forall|i: int| 0 <= i < init.len() ==> init[i] == parts[i]);
        law_join_split(init, sep);
        assert(!parts[parts.len() - 1].contains(sep));
        lemma_split_append(join(init, sep), parts.last(), sep);
        assert(parts =~= init.push(parts.last()));
    }
}

/// A text with exactly one match reads the same with that match replaced first or everywhere.
pub proof fn law_single_match_replacement(s: Seq<char>, pattern: Seq<char>, with: Seq<char>)
    requires
        count_from(s, pattern, 0) == 1,
    ensures
        replace_all(s, pattern, with) == replace_first(s, pattern, with),
{
    lemma_find_from(s, pattern, 0);
    let at = find_from(s, pattern, 0)->0;
    assert(count_from(s, pattern, at + pattern.len()) == 0);
    assert(s.subrange(0, at as int) =~= s.take(at as int));
    lemma_find_from(s, pattern, at + pattern.len());
    let end = at + pattern.len();
    assert(find_from(s, pattern, end) is None);
    assert(replace_from(s, pattern, with, end) == s.skip(end as int));
}

/// A text without a match is left as it is.
pub proof fn law_no_match_replacement(s: Seq<char>, pattern: Seq<char>, with: Seq<char>)
    requires
        pattern.len() > 0,
        count_from(s, pattern, 0) == 0,
    ensures
        replace_all(s, pattern, with) == s,
        replace_first(s, pattern, with) == s,
{
    lemma_find_from(s, pattern, 0);
    assert(s.skip(0) =~= s);
}

/// Replacing each match by the pattern itself changes nothing.
pub proof fn law_identity_replacement(s: Seq<char>, pattern: Seq<char>)
    ensures
        replace_all(s, pattern, pattern) == s,
        replace_first(s, pattern, pattern) == s,
{
    lemma_identity_from(s, pattern, 0);
    lemma_find_from(s, pattern, 0);
    assert(s.skip(0) =~= s);
    assert(replace_first(s, pattern, pattern) =~= s);
}

proof fn lemma_identity_from(s: Seq<char>, pattern: Seq<char>, from: nat)
    requires
        from <= s.len(),
    ensures
        replace_from(s, pattern, pattern, from) == s.skip(from as int),
    decreases s.len() - from,
{
    lemma_find_from(s, pattern, from);
    if let Some(at) = find_from(s, pattern, from) {
        if pattern.len() > 0 {
            lemma_identity_from(s, pattern, at + pattern.len());
            assert(replace_from(s, pattern, pattern, from) =~= s.skip(from as int));
        }
    }
}


/// The lines with a line feed after each.
pub open spec fn terminated(lines: Seq<Seq<char>>) -> Seq<char>
    decreases lines.len(),
{
    if lines.len() == 0 {
        Seq::empty()
    } else {
        terminated(lines.drop_last()) + lines.last().push('\n')
    }
}

/// Joined lines are the same as lines with a line feed after each but the last.
pub proof fn lemma_join_terminated(lines: Seq<Seq<char>>, last: Seq<char>)
    ensures
        join(lines.push(last), '\n') == terminated(lines) + last,
    decreases lines.len(),
{
    assert(lines.push(last).drop_last() =~= lines);
    if lines.len() == 0 {
        assert(terminated(lines) + last =~= last);
    } else {
        lemma_join_terminated(lines.drop_last(), lines.last());
        assert(lines.drop_last().push(lines.last()) =~= lines);
        assert(join(lines.push(last), '\n') =~= terminated(lines) + last);
    }
}

/// One text comes before another in the order of strings: a proper beginning first, and else by the
/// first character in which they differ.
pub open spec fn precedes(a: Seq<char>, b: Seq<char>) -> bool
    decreases a.len(),
{
    if b.len() == 0 {
        false
    } else if a.len() == 0 {
        true
    } else if a[0] != b[0] {
        (a[0] as int) < (b[0] as int)
    } else {
        precedes(a.drop_first(), b.drop_first())
    }
}

/// The order of strings is total: of two texts exactly one comes first, or they are the same.
pub proof fn law_precedes_total(a: Seq<char>, b: Seq<char>)
    ensures
        a == b ==> !precedes(a, b),
        a != b ==> precedes(a, b) != precedes(b, a),
    decreases a.len(),
{
    if a.len() == 0 || b.len() == 0 {
        if a.len() == b.len() {
            assert(a =~= b);
        }
    } else if a[0] == b[0] {
        law_precedes_total(a.drop_first(), b.drop_first());
        if a.drop_first() == b.drop_first() {
            assert(a =~= seq![a[0]] + a.drop_first());
            assert(b =~= seq![b[0]] + b.drop_first());
        }
    }
}

/// The order of strings is transitive.
pub proof fn law_precedes_transitive(a: Seq<char>, b: Seq<char>, c: Seq<char>)
    requires
        precedes(a, b),
        precedes(b, c),
    ensures
        precedes(a, c),
    decreases a.len(),
{
    if a.len() > 0 && a[0] == b[0] && b[0] == c[0] {
        law_precedes_transitive(a.drop_first(), b.drop_first(), c.drop_first());
    }
}

/// Texts that begin alike are ordered by what follows.
proof fn lemma_precedes_after(a: Seq<char>, b: Seq<char>, common: nat)
    requires
        common <= a.len(),
        common <= b.len(),
        a.take(common as int) == b.take(common as int),
    ensures
        precedes(a, b) == precedes(a.skip(common as int), b.skip(common as int)),
    decreases common,
{
    if common == 0 {
        assert(a.skip(0) =~= a);
        assert(b.skip(0) =~= b);
    } else {
        assert(a.take(common as int)[0] == a[0]);
        assert(b.take(common as int)[0] == b[0]);
        assert forall|i: int| 0 <= i < common - 1 implies a.drop_first()[i] == b.drop_first()[i] by {
            assert(a.take(common as int)[i + 1] == b.take(common as int)[i + 1]);
            assert(a.take(common as int)[i + 1] == a[i + 1]);
            assert(b.take(common as int)[i + 1] == b[i + 1]);
        }
        assert(a.drop_first().take(common - 1) =~= b.drop_first().take(common - 1));
        lemma_precedes_after(a.drop_first(), b.drop_first(), (common - 1) as nat);
        assert(a.drop_first().skip(common - 1) =~= a.skip(common as int));
        assert(b.drop_first().skip(common - 1) =~= b.skip(common as int));
    }
}

/// Whether one string comes before another in the order of strings.
pub fn comes_before(a: &str, b: &str) -> (r: bool)
    ensures
        r == precedes(a@, b@),
{
    let left = chars_of(a);
    let right = chars_of(b);
    let mut i: usize = 0;
    while i < left.len() && i < right.len() && left[i] == right[i]
        invariant
            left@ == a@,
            right@ == b@,
            i <= left.len(),
            i <= right.len(),
            forall|j: int| 0 <= j < i ==> a@[j] == b@[j],
        decreases left.len() - i,
    {
        i += 1;
    }
    proof {
        assert(a@.take(i as int) =~= b@.take(i as int));
        lemma_precedes_after(a@, b@, i as nat);
    }
    if i >= right.len() {
        false
    } else if i >= left.len() {
        true
    } else {
        assert(a@.skip(i as int)[0] == a@[i as int]);
        assert(b@.skip(i as int)[0] == b@[i as int]);
        left[i] < right[i]
    }
}


/// A character has the Unicode property `White_Space`.
pub open spec fn white_space(c: char) -> bool {
    let code = c as int;
    ||| 0x09 <= code <= 0x0d
    ||| code == 0x20
    ||| code == 0x85
    ||| code == 0xa0
    ||| code == 0x1680
    ||| 0x2000 <= code <= 0x200a
    ||| code == 0x2028
    ||| code == 0x2029
    ||| code == 0x202f
    ||| code == 0x205f
    ||| code == 0x3000
}

/// Whether a character has the Unicode property `White_Space`.
pub fn is_white_space(c: char) -> (r: bool)
    ensures
        r == white_space(c),
{
    let code: u32 = c as u32;
    (0x09 <= code && code <= 0x0d) || code == 0x20 || code == 0x85 || code == 0xa0 || code == 0x1680
        || (0x2000 <= code && code <= 0x200a) || code == 0x2028 || code == 0x2029 || code == 0x202f
        || code == 0x205f || code == 0x3000
}

/// A text holds nothing but white space.
pub open spec fn blank(s: Seq<char>) -> bool {
    forall|i: int| 0 <= i < s.len() ==> white_space(#[trigger] s[i])
}

/// Whether a string holds nothing but white space.
pub fn is_blank(s: &str) -> (r: bool)
    ensures
        r == blank(s@),
{
    let chars = chars_of(s);
    let mut i: usize = 0;
    while i < chars.len()
        invariant
            chars@ == s@,
            i <= chars.len(),
            forall|j: int| 0 <= j < i ==> white_space(#[trigger] s@[j]),
        decreases chars.len() - i,
    {
        if !is_white_space(chars[i]) {
            assert(!white_space(s@[i as int]));
            return false;
        }
        i += 1;
    }
    true
}


/// What the removal of carriage returns before line feeds leaves of a text from a position on.
spec fn unreturned(s: Seq<char>, from: nat) -> Seq<char>
    decreases s.len() - from,
{
    if from >= s.len() {
        Seq::empty()
    } else if s[from as int] == '\r' && from + 1 < s.len() && s[from as int + 1] == '\n' {
        seq!['\n'] + unreturned(s, from + 2)
    } else {
        seq![s[from as int]] + unreturned(s, from + 1)
    }
}

/// A carriage return and a line feed.
pub open spec fn crlf() -> Seq<char> {
    seq!['\r', '\n']
}

/// Replacing line ends of two characters can be done one character at a time.
proof fn lemma_replace_line_ends(s: Seq<char>, from: nat)
    requires
        from <= s.len(),
    ensures
        replace_from(s, crlf(), seq!['\n'], from) == unreturned(s, from),
    decreases s.len() - from,
{
    let with = seq!['\n'];
    let replaced = replace_from(s, crlf(), with, from);
    lemma_find_from(s, crlf(), from);
    if from == s.len() {
        assert(replaced =~= Seq::empty());
    } else if matches_at(s, crlf(), from as int) {
        assert(s.subrange(from as int, from as int + 2)[0] == '\r');
        assert(s.subrange(from as int, from as int + 2)[1] == '\n');
        lemma_replace_line_ends(s, from + 2);
        assert(s.subrange(from as int, from as int) + with =~= with);
    } else {
        if s[from as int] == '\r' && from + 1 < s.len() && s[from as int + 1] == '\n' {
            assert(s.subrange(from as int, from as int + 2) =~= crlf());
        }
        lemma_find_from(s, crlf(), from + 1);
        lemma_replace_line_ends(s, from + 1);
        if from + 2 > s.len() {
            assert(replaced =~= s.skip(from as int));
            assert(unreturned(s, from + 1) =~= Seq::empty());
            assert(replaced =~= seq![s[from as int]]);
            assert(unreturned(s, from) =~= seq![s[from as int]]);
        } else {
            match find_from(s, crlf(), from + 1) {
                Some(at) => {
                    assert(s.subrange(from as int, at as int) =~= seq![s[from as int]]
                        + s.subrange(from as int + 1, at as int));
                    assert(replaced =~= seq![s[from as int]] + replace_from(
                        s,
                        crlf(),
                        with,
                        from + 1,
                    ));
                },
                None => {
                    assert(replaced =~= seq![s[from as int]] + s.skip(from as int + 1));
                },
            }
        }
    }
}

/// What follows some text is treated on its own from the end of that text on.
proof fn lemma_unreturned_skip(s: Seq<char>, t: Seq<char>, from: nat)
    ensures
        unreturned(s + t, s.len() + from) == unreturned(t, from),
    decreases t.len() - from,
{
    if from < t.len() {
        lemma_unreturned_skip(s, t, from + 1);
        if from + 1 < t.len() {
            lemma_unreturned_skip(s, t, from + 2);
        }
    }
}

/// A text that ends in a line feed and what follows it are treated apart.
proof fn lemma_unreturned_append(s: Seq<char>, t: Seq<char>, from: nat)
    requires
        s.len() > 0,
        s.last() == '\n',
        from <= s.len(),
    ensures
        unreturned(s + t, from) == unreturned(s, from) + unreturned(t, 0),
    decreases s.len() - from,
{
    if from == s.len() {
        lemma_unreturned_skip(s, t, 0);
        assert(unreturned(s, from) + unreturned(t, 0) =~= unreturned(t, 0));
    } else if s[from as int] == '\r' && from + 1 < s.len() && s[from as int + 1] == '\n' {
        lemma_unreturned_append(s, t, from + 2);
        assert(unreturned(s + t, from) =~= unreturned(s, from) + unreturned(t, 0));
    } else {
        lemma_unreturned_append(s, t, from + 1);
        assert(unreturned(s + t, from) =~= unreturned(s, from) + unreturned(t, 0));
    }
}

/// A line without line feeds stays as it is; with a line feed after it, it loses one carriage return.
proof fn lemma_unreturned_line(line: Seq<char>, from: nat)
    requires
        !line.contains('\n'),
        from <= line.len(),
    ensures
        unreturned(line, from) == line.skip(from as int),
        from < line.len() || line.len() == 0 ==> unreturned(line.push('\n'), from) == without_cr(
            line,
        ).push('\n').skip(from as int),
    decreases line.len() - from,
{
    let ended = line.push('\n');
    if from == line.len() {
        assert(unreturned(line, from) =~= line.skip(from as int));
        if line.len() == 0 {
            assert(unreturned(ended, 1) =~= Seq::empty());
            assert(unreturned(ended, 0) =~= seq!['\n']);
            assert(without_cr(line).push('\n').skip(0) =~= seq!['\n']);
        }
    } else {
        lemma_unreturned_line(line, from + 1);
        if from + 1 < line.len() {
            assert(line.contains(line[from as int + 1]));
        }
        assert(unreturned(line, from) =~= line.skip(from as int));
        if from + 1 == line.len() {
            assert(unreturned(ended, from + 2) =~= Seq::empty());
            assert(unreturned(ended, from + 1) =~= seq!['\n']);
            assert(unreturned(ended, from) =~= without_cr(line).push('\n').skip(from as int));
        } else {
            assert(unreturned(ended, from) =~= without_cr(line).push('\n').skip(from as int));
        }
    }
}

/// Lines with one carriage return less at their ends.
pub open spec fn all_without_cr(lines: Seq<Seq<char>>) -> Seq<Seq<char>> {
    lines.map_values(|line: Seq<char>| without_cr(line))
}

/// Ended lines lose one carriage return each.
proof fn lemma_unreturned_lines(lines: Seq<Seq<char>>)
    requires
        forall|i: int| 0 <= i < lines.len() ==> !(#[trigger] lines[i]).contains('\n'),
    ensures
        unreturned(terminated(lines), 0) == terminated(all_without_cr(lines)),
    decreases lines.len(),
{
    if lines.len() > 0 {
        let init = lines.drop_last();
        assert(forall|i: int| 0 <= i < init.len() ==> init[i] == lines[i]);
        lemma_unreturned_lines(init);
        let last = lines[lines.len() - 1];
        lemma_unreturned_line(last, 0);
        assert(unreturned(last.push('\n'), 0) =~= without_cr(last).push('\n'));
        assert(all_without_cr(lines).drop_last() =~= all_without_cr(init));
        if init.len() > 0 {
            assert(terminated(init).last() == '\n');
            lemma_unreturned_append(terminated(init), last.push('\n'), 0);
        } else {
            assert(terminated(lines) =~= last.push('\n'));
            assert(terminated(all_without_cr(lines)) =~= without_cr(last).push('\n'));
        }
    } else {
        assert(all_without_cr(lines) =~= Seq::empty());
    }
}

/// Replacing line ends of two characters by line feeds takes one carriage return from the end of each
/// piece between line feeds that has one, but for the last piece, which stays as it is.
pub proof fn law_line_ends_replaced(s: Seq<char>)
    ensures
        ({
            let parts = split(s, '\n');
            split(replace_all(s, crlf(), seq!['\n']), '\n') == all_without_cr(
                parts.drop_last(),
            ).push(parts.last())
        }),
{
    let parts = split(s, '\n');
    let init = parts.drop_last();
    let changed = all_without_cr(init).push(parts.last());
    law_split_join(s, '\n');
    assert(init.push(parts.last()) =~= parts);
    lemma_join_terminated(init, parts.last());
    lemma_join_terminated(all_without_cr(init), parts.last());
    lemma_replace_line_ends(s, 0);
    lemma_unreturned_lines(init);
    assert(!parts[parts.len() - 1].contains('\n'));
    lemma_unreturned_line(parts.last(), 0);
    assert(parts.last().skip(0) =~= parts.last());
    if init.len() > 0 {
        assert(terminated(init).last() == '\n');
        lemma_unreturned_append(terminated(init), parts.last(), 0);
    } else {
        assert(terminated(init) + parts.last() =~= parts.last());
        assert(all_without_cr(init) =~= Seq::empty());
        assert(terminated(all_without_cr(init)) + parts.last() =~= parts.last());
    }
    assert(replace_all(s, crlf(), seq!['\n']) == join(changed, '\n'));
    assert forall|i: int| 0 <= i < changed.len() implies !(#[trigger] changed[i]).contains('\n') by {
        assert(!parts[i].contains('\n'));
        if i < init.len() {
            if changed[i].contains('\n') {
                let k = choose|k: int| 0 <= k < changed[i].len() && changed[i][k] == '\n';
                assert(parts[i][k] == '\n');
            }
        }
    }
    law_join_split(changed, '\n');
}

} // verus!
