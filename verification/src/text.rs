//! Text as sequences of characters: fields between separators, and numbers
//! written in a radix.

use vstd::prelude::*;

verus! {

/// The fields of `s` that the separator `sep` delimits, in order. A text
/// without a separator is one field; `n` separators give `n + 1` fields,
/// some of which may be empty.
pub open spec fn split(s: Seq<char>, sep: char) -> Seq<Seq<char>>
    decreases s.len(),
{
    if s.len() == 0 {
        seq![Seq::<char>::empty()]
    } else {
        let before = split(s.drop_last(), sep);
        if s.last() == sep {
            before.push(Seq::<char>::empty())
        } else {
            before.drop_last().push(before.last().push(s.last()))
        }
    }
}

/// The fields joined again, with one separator between neighbours.
pub open spec fn join(fields: Seq<Seq<char>>, sep: char) -> Seq<char>
    decreases fields.len(),
{
    if fields.len() == 0 {
        Seq::<char>::empty()
    } else if fields.len() == 1 {
        fields[0]
    } else {
        join(fields.drop_last(), sep).push(sep) + fields.last()
    }
}

/// Whether `c` occurs nowhere in `s`.
pub open spec fn free_of(s: Seq<char>, c: char) -> bool {
    forall|i: int| 0 <= i < s.len() ==> s[i] != c
}

/// A text always has at least one field.
pub proof fn lemma_split_nonempty(s: Seq<char>, sep: char)
    ensures
        split(s, sep).len() >= 1,
    decreases s.len(),
{
    if s.len() > 0 {
        lemma_split_nonempty(s.drop_last(), sep);
    }
}

/// Splitting loses nothing: no field holds the separator, and joining the
/// fields gives the text back.
pub proof fn lemma_split_join(s: Seq<char>, sep: char)
    ensures
        join(split(s, sep), sep) == s,
        forall|i: int| 0 <= i < split(s, sep).len() ==> free_of(#[trigger] split(s, sep)[i], sep),
    decreases s.len(),
{
    if s.len() == 0 {
        assert(join(split(s, sep), sep) =~= s);
    } else {
        let shorter = s.drop_last();
        let before = split(shorter, sep);
        lemma_split_nonempty(shorter, sep);
        lemma_split_join(shorter, sep);
        let now = split(s, sep);
        if s.last() == sep {
            assert(now.drop_last() =~= before);
            assert(join(now, sep) =~= s);
        } else {
            let grown = before.last().push(s.last());
            assert(free_of(before[before.len() - 1], sep));
            assert(free_of(grown, sep));
            if before.len() == 1 {
                assert(join(before, sep) == before[0]);
                assert(join(now, sep) =~= s);
            } else {
                let front = join(before.drop_last(), sep).push(sep);
                assert(now.drop_last() =~= before.drop_last());
                assert(now.last() == grown);
                assert(join(before, sep) == front + before.last());
                assert(join(now, sep) == front + grown);
                assert(front + grown =~= (front + before.last()).push(s.last()));
                assert(shorter.push(s.last()) =~= s);
            }
        }
    }
}

/// A text that holds no separator is its own single field.
pub proof fn lemma_split_without_separator(s: Seq<char>, sep: char)
    requires
        free_of(s, sep),
    ensures
        split(s, sep) == seq![s],
    decreases s.len(),
{
    if s.len() == 0 {
        assert(s =~= Seq::<char>::empty());
    } else {
        lemma_split_without_separator(s.drop_last(), sep);
        assert(split(s, sep) =~= seq![s]) by {
            assert(seq![s.drop_last()].last().push(s.last()) =~= s);
        }
    }
}

/// The fields of a text are the only pieces without a separator that join
/// to it: splitting what was joined gives the pieces back.
pub proof fn lemma_split_unique(fields: Seq<Seq<char>>, sep: char)
    requires
        fields.len() >= 1,
        forall|i: int| 0 <= i < fields.len() ==> free_of(#[trigger] fields[i], sep),
    ensures
        split(join(fields, sep), sep) == fields,
    decreases join(fields, sep).len(),
{
    let s = join(fields, sep);
    let last = fields.last();
    let front = fields.drop_last();
    if fields.len() == 1 {
        assert(free_of(fields[0], sep));
        lemma_split_without_separator(s, sep);
        assert(seq![s] =~= fields);
    } else {
        assert(s == join(front, sep).push(sep) + last);
        assert forall|i: int| 0 <= i < front.len() implies free_of(#[trigger] front[i], sep) by {
            assert(front[i] == fields[i]);
        }
        if last.len() == 0 {
            assert(s =~= join(front, sep).push(sep));
            assert(s.drop_last() =~= join(front, sep));
            lemma_split_unique(front, sep);
            assert(last =~= Seq::<char>::empty());
            assert(front.push(last) =~= fields);
        } else {
            let shorter = front.push(last.drop_last());
            assert(free_of(fields[fields.len() - 1], sep));
            assert forall|i: int| 0 <= i < shorter.len() implies free_of(
                #[trigger] shorter[i],
                sep,
            ) by {
                if i < front.len() {
                    assert(shorter[i] == fields[i]);
                }
            }
            assert(shorter.drop_last() =~= front);
            assert(join(shorter, sep) == join(front, sep).push(sep) + last.drop_last());
            assert(join(shorter, sep) =~= s.drop_last());
            assert(s.last() == last.last());
            lemma_split_unique(shorter, sep);
            assert(last.drop_last().push(last.last()) =~= last);
            assert(shorter.drop_last().push(shorter.last().push(s.last())) =~= fields);
        }
    }
}

/// The characters of `text`, in order.
pub fn chars_of(text: &str) -> (chars: Vec<char>)
    ensures
        chars@ == text@,
{
    let mut chars: Vec<char> = Vec::new();
    for c in it: text.chars()
        invariant
            chars@ == it.seq().take(it.index() as int),
            it.seq() == text@,
    {
        chars.push(c);
    }
    chars
}

/// The pieces of `chars` that `bounds` delimits, each from its first
/// position up to, not including, its second.
pub open spec fn fields_of(chars: Seq<char>, bounds: Seq<(usize, usize)>) -> Seq<Seq<char>> {
    Seq::new(bounds.len(), |i: int| chars.subrange(bounds[i].0 as int, bounds[i].1 as int))
}

/// Whether every pair of `bounds` delimits a piece between `from` and `to`.
pub open spec fn bounds_within(bounds: Seq<(usize, usize)>, from: int, to: int) -> bool {
    forall|i: int| 0 <= i < bounds.len() ==> from <= (#[trigger] bounds[i]).0 <= bounds[i].1 <= to
}

/// Whether the pieces that `bounds` delimits fill the positions from `from`
/// to `to` with exactly one position, that of a separator, between neighbours.
pub open spec fn bounds_chain(bounds: Seq<(usize, usize)>, from: int, to: int) -> bool {
    &&& bounds.len() >= 1
    &&& bounds[0].0 == from
    &&& bounds.last().1 == to
    &&& forall|i: int| 0 <= i < bounds.len() - 1 ==> (#[trigger] bounds[i]).1 + 1 == bounds[i + 1].0
}

/// Where each field of `chars[from..to]` begins and ends, as positions in `chars`.
pub fn field_bounds(chars: &Vec<char>, from: usize, to: usize, sep: char) -> (bounds: Vec<
    (usize, usize),
>)
    requires
        from <= to <= chars.len(),
    ensures
        bounds_within(bounds@, from as int, to as int),
        bounds_chain(bounds@, from as int, to as int),
        fields_of(chars@, bounds@) == split(chars@.subrange(from as int, to as int), sep),
{
    let mut bounds: Vec<(usize, usize)> = Vec::new();
    let mut start: usize = from;
    let mut i: usize = from;
    proof {
        assert(chars@.subrange(from as int, from as int) =~= Seq::<char>::empty());
    }
    while i < to
        invariant
            from <= start <= i <= to <= chars.len(),
            bounds_within(bounds@, from as int, to as int),
            bounds.len() == 0 ==> start == from,
            bounds.len() > 0 ==> bounds[0].0 == from && bounds[bounds.len() - 1].1 + 1 == start,
            forall|j: int|
                0 <= j < bounds.len() - 1 ==> (#[trigger] bounds[j]).1 + 1 == bounds[j + 1].0,
            fields_of(chars@, bounds@) == split(
                chars@.subrange(from as int, i as int),
                sep,
            ).drop_last(),
            split(chars@.subrange(from as int, i as int), sep).len() >= 1,
            split(chars@.subrange(from as int, i as int), sep).last() == chars@.subrange(
                start as int,
                i as int,
            ),
        decreases to - i,
    {
        let c = chars[i];
        let ghost seen = chars@.subrange(from as int, i as int);
        let ghost next = chars@.subrange(from as int, i + 1);
        let ghost before = bounds@;
        proof {
            assert(next.drop_last() =~= seen);
            assert(next.last() == c);
            lemma_split_nonempty(next, sep);
        }
        if c == sep {
            bounds.push((start, i));
            proof {
                assert(chars@.subrange(i + 1, i + 1) =~= Seq::<char>::empty());
                assert(split(next, sep).drop_last() =~= split(seen, sep));
                assert(fields_of(chars@, bounds@) =~= fields_of(chars@, before).push(
                    chars@.subrange(start as int, i as int),
                ));
                assert(split(seen, sep) =~= split(seen, sep).drop_last().push(
                    split(seen, sep).last(),
                ));
            }
            start = i + 1;
        } else {
            proof {
                assert(chars@.subrange(start as int, i as int).push(c) =~= chars@.subrange(
                    start as int,
                    i + 1,
                ));
                assert(split(next, sep).drop_last() =~= split(seen, sep).drop_last());
            }
        }
        i = i + 1;
    }
    let ghost before = bounds@;
    let ghost all = split(chars@.subrange(from as int, to as int), sep);
    bounds.push((start, to));
    proof {
        assert(fields_of(chars@, bounds@) =~= fields_of(chars@, before).push(
            chars@.subrange(start as int, to as int),
        ));
        assert(all =~= all.drop_last().push(all.last()));
    }
    bounds
}

/// What `c` counts as a digit in `radix`, if it is one. Letters count from
/// ten in either case.
pub open spec fn digit(c: char, radix: nat) -> Option<nat> {
    let value: int = if '0' <= c && c <= '9' {
        c as int - '0' as int
    } else if 'a' <= c && c <= 'z' {
        c as int - 'a' as int + 10
    } else if 'A' <= c && c <= 'Z' {
        c as int - 'A' as int + 10
    } else {
        radix as int
    };
    if value < radix {
        Some(value as nat)
    } else {
        None
    }
}

/// Whether every character of `s` is a digit in `radix`.
pub open spec fn all_digits(s: Seq<char>, radix: nat) -> bool {
    forall|i: int| 0 <= i < s.len() ==> (#[trigger] digit(s[i], radix)) is Some
}

/// Whether `s` is a number in `radix`: one digit or more, and nothing else.
pub open spec fn is_number(s: Seq<char>, radix: nat) -> bool {
    s.len() > 0 && all_digits(s, radix)
}

/// The number that the digits of `s` write in `radix`, most significant first.
pub open spec fn number_value(s: Seq<char>, radix: nat) -> nat
    decreases s.len(),
{
    if s.len() == 0 {
        0
    } else {
        let last: nat = match digit(s.last(), radix) {
            Some(d) => d,
            None => 0,
        };
        number_value(s.drop_last(), radix) * radix + last
    }
}

/// The text of an unsigned number with an optional plus sign taken off.
pub open spec fn without_plus(s: Seq<char>) -> Seq<char> {
    if s.len() > 0 && s[0] == '+' {
        s.drop_first()
    } else {
        s
    }
}

/// A number is at least what any of its leading parts writes.
pub proof fn lemma_number_value_prefix(s: Seq<char>, radix: nat, n: int)
    requires
        0 <= n <= s.len(),
        radix >= 1,
    ensures
        number_value(s.take(n), radix) <= number_value(s, radix),
    decreases s.len(),
{
    if n == s.len() {
        assert(s.take(n) =~= s);
    } else {
        lemma_number_value_prefix(s.drop_last(), radix, n);
        assert(s.drop_last().take(n) =~= s.take(n));
        assert(number_value(s.drop_last(), radix) <= number_value(s.drop_last(), radix) * radix)
            by (nonlinear_arith)
            requires
                radix >= 1,
        ;
    }
}

/// The largest number that `digits` digits can write in `radix`.
pub open spec fn max_with_digits(digits: nat, radix: nat) -> nat
    decreases digits,
{
    if digits == 0 {
        0
    } else {
        (max_with_digits((digits - 1) as nat, radix) * radix + radix - 1) as nat
    }
}

/// A number of `n` digits is at most `max_with_digits(n, radix)`.
pub proof fn lemma_number_value_bound(s: Seq<char>, radix: nat)
    requires
        radix >= 1,
    ensures
        number_value(s, radix) <= max_with_digits(s.len(), radix),
    decreases s.len(),
{
    if s.len() > 0 {
        lemma_number_value_bound(s.drop_last(), radix);
        let a = number_value(s.drop_last(), radix);
        let b = max_with_digits((s.len() - 1) as nat, radix);
        assert(a * radix <= b * radix) by (nonlinear_arith)
            requires
                a <= b,
        ;
    }
}

/// The value of `c` as a digit in `radix`, if it is one.
pub fn digit_of(c: char, radix: u32) -> (d: Option<u32>)
    ensures
        d is Some <==> digit(c, radix as nat) is Some,
        d matches Some(v) ==> digit(c, radix as nat) == Some(v as nat),
{
    let code: u32 = c as u32;
    let value: u32 = if '0' <= c && c <= '9' {
        code - ('0' as u32)
    } else if 'a' <= c && c <= 'z' {
        code - ('a' as u32) + 10
    } else if 'A' <= c && c <= 'Z' {
        code - ('A' as u32) + 10
    } else {
        radix
    };
    if value < radix {
        Some(value)
    } else {
        None
    }
}

/// Reads `chars[from..to]` as a number in `radix` that is at most `max`.
pub fn number_between(chars: &Vec<char>, from: usize, to: usize, radix: u32, max: u64) -> (value:
    Option<u64>)
    requires
        from <= to <= chars.len(),
        radix >= 2,
    ensures
        value is Some <==> is_number(chars@.subrange(from as int, to as int), radix as nat)
            && number_value(chars@.subrange(from as int, to as int), radix as nat) <= max,
        value matches Some(v) ==> v == number_value(
            chars@.subrange(from as int, to as int),
            radix as nat,
        ),
{
    let ghost whole = chars@.subrange(from as int, to as int);
    let ghost r = radix as nat;
    if from == to {
        return None;
    }
    let mut acc: u64 = 0;
    let mut i: usize = from;
    proof {
        assert(whole.take(0) =~= Seq::<char>::empty());
    }
    while i < to
        invariant
            from <= i <= to <= chars.len(),
            radix >= 2,
            r == radix as nat,
            whole == chars@.subrange(from as int, to as int),
            all_digits(whole.take(i - from), r),
            acc == number_value(whole.take(i - from), r),
            acc <= max,
        decreases to - i,
    {
        let c = chars[i];
        let ghost seen = whole.take(i - from);
        let ghost next = whole.take(i + 1 - from);
        proof {
            assert(next.drop_last() =~= seen);
            assert(next.last() == c);
            assert(whole[i - from] == c);
            lemma_number_value_prefix(whole, r, i + 1 - from);
        }
        match digit_of(c, radix) {
            None => {
                return None;
            },
            Some(d) => {
                let wide: u64 = radix as u64;
                if acc > max / wide {
                    proof {
                        assert(acc * wide > max) by (nonlinear_arith)
                            requires
                                acc > max / wide,
                                wide >= 2,
                        ;
                    }
                    return None;
                }
                proof {
                    assert(acc * wide <= max) by (nonlinear_arith)
                        requires
                            acc <= max / wide,
                            wide >= 2,
                    ;
                }
                let shifted: u64 = acc * wide;
                if d as u64 > max - shifted {
                    return None;
                }
                acc = shifted + d as u64;
                proof {
                    assert forall|j: int| 0 <= j < next.len() implies (#[trigger] digit(
                        next[j],
                        r,
                    )) is Some by {
                        if j < seen.len() {
                            assert(next[j] == seen[j]);
                        }
                    }
                }
            },
        }
        i = i + 1;
    }
    proof {
        assert(whole.take(to - from) =~= whole);
    }
    Some(acc)
}

/// Reads `text` as an unsigned decimal number that is at most `max`. One plus
/// sign may stand before the digits; nothing else may, and nothing may follow.
pub fn parse_unsigned(text: &str, max: u64) -> (value: Option<u64>)
    ensures
        value is Some <==> is_number(without_plus(text@), 10) && number_value(
            without_plus(text@),
            10,
        ) <= max,
        value matches Some(v) ==> v == number_value(without_plus(text@), 10),
{
    let chars = chars_of(text);
    let from: usize = if chars.len() > 0 && chars[0] == '+' {
        1
    } else {
        0
    };
    proof {
        assert(chars@.subrange(from as int, chars.len() as int) =~= without_plus(text@));
    }
    number_between(&chars, from, chars.len(), 10, max)
}

} // verus!
