//! Splitting a line into comma-separated fields and reading a decimal
//! number: the two text operations the command grammar is built on.

use vstd::prelude::*;

verus! {

/// The fields of `s`, cut at every comma. A line without a comma is one
/// field, and two commas in a row enclose an empty field.
pub open spec fn split_fields(s: Seq<char>) -> Seq<Seq<char>>
    decreases s.len(),
{
    if s.len() == 0 {
        seq![Seq::<char>::empty()]
    } else {
        let before = split_fields(s.drop_last());
        if s.last() == ',' {
            before.push(Seq::<char>::empty())
        } else {
            before.update(before.len() - 1, before.last().push(s.last()))
        }
    }
}

/// The fields written out again, with a comma between each two.
pub open spec fn join_fields(fields: Seq<Seq<char>>) -> Seq<char>
    decreases fields.len(),
{
    if fields.len() == 0 {
        Seq::<char>::empty()
    } else if fields.len() == 1 {
        fields[0]
    } else {
        join_fields(fields.drop_last()).push(',') + fields.last()
    }
}

/// No field holds a comma.
pub open spec fn comma_free(fields: Seq<Seq<char>>) -> bool {
    forall|i: int| 0 <= i < fields.len() ==> !(#[trigger] fields[i]).contains(',')
}

/// How many commas `s` holds.
pub open spec fn commas(s: Seq<char>) -> nat
    decreases s.len(),
{
    if s.len() == 0 {
        0
    } else if s.last() == ',' {
        commas(s.drop_last()) + 1
    } else {
        commas(s.drop_last())
    }
}

/// The views of a list of fields.
pub open spec fn views(fields: Seq<Vec<char>>) -> Seq<Seq<char>> {
    Seq::new(fields.len(), |i: int| fields[i]@)
}

/// `c` is one of `0` to `9`.
pub open spec fn is_decimal(c: char) -> bool {
    48 <= c as u32 <= 57
}

/// Every character of `s` is a decimal digit.
pub open spec fn all_decimal(s: Seq<char>) -> bool {
    forall|i: int| 0 <= i < s.len() ==> is_decimal(#[trigger] s[i])
}

/// The number that a string of decimal digits spells; 0 for the empty string.
pub open spec fn decimal_value(s: Seq<char>) -> nat
    decreases s.len(),
{
    if s.len() == 0 {
        0
    } else {
        (decimal_value(s.drop_last()) * 10 + (s.last() as u32 - 48)) as nat
    }
}

/// `s` without a leading plus sign.
pub open spec fn unsigned_part(s: Seq<char>) -> Seq<char> {
    if s.len() > 0 && s[0] == '+' {
        s.drop_first()
    } else {
        s
    }
}

/// The unsigned 32-bit number that `s` spells: an optional `+`, then one or
/// more decimal digits, leading zeros allowed. Nothing else is a number, and
/// neither is one that does not fit in 32 bits.
pub open spec fn parse_u32(s: Seq<char>) -> Option<u32> {
    let digits = unsigned_part(s);
    if digits.len() > 0 && all_decimal(digits) && decimal_value(digits) <= u32::MAX {
        Some(decimal_value(digits) as u32)
    } else {
        None
    }
}

/// Cutting at commas gives one field more than there are commas.
pub proof fn lemma_field_count(s: Seq<char>)
    ensures
        split_fields(s).len() == commas(s) + 1,
    decreases s.len(),
{
    if s.len() > 0 {
        lemma_field_count(s.drop_last());
    }
}

/// The commas of two strings put together are those of both.
pub proof fn lemma_commas_concat(s: Seq<char>, t: Seq<char>)
    ensures
        commas(s + t) == commas(s) + commas(t),
    decreases t.len(),
{
    if t.len() == 0 {
        assert(s + t =~= s);
    } else {
        assert((s + t).drop_last() =~= s + t.drop_last());
        lemma_commas_concat(s, t.drop_last());
    }
}

/// A string holds a comma exactly if its comma count is not zero.
pub proof fn lemma_commas_zero(s: Seq<char>)
    ensures
        commas(s) == 0 <==> !s.contains(','),
    decreases s.len(),
{
    if s.len() > 0 {
        let init = s.drop_last();
        lemma_commas_zero(init);
        if s.last() == ',' {
            assert(s[s.len() - 1] == ',');
        } else if s.contains(',') {
            let i = choose|i: int| 0 <= i < s.len() && s[i] == ',';
            assert(init[i] == ',');
        } else if init.contains(',') {
            let i = choose|i: int| 0 <= i < init.len() && init[i] == ',';
            assert(s[i] == ',');
        }
    }
}

/// Text without a comma, put behind `s`, only lengthens the last field.
pub proof fn lemma_split_append(s: Seq<char>, t: Seq<char>)
    requires
        !t.contains(','),
    ensures
        split_fields(s + t) == split_fields(s).update(
            split_fields(s).len() - 1,
            split_fields(s).last() + t,
        ),
    decreases t.len(),
{
    lemma_field_count(s);
    let fields = split_fields(s);
    if t.len() == 0 {
        assert(s + t =~= s);
        assert(fields.last() + t =~= fields.last());
        assert(fields.update(fields.len() - 1, fields.last()) =~= fields);
    } else {
        let init = t.drop_last();
        assert(t[t.len() - 1] != ',');
        assert(!init.contains(',')) by {
            if init.contains(',') {
                let i = choose|i: int| 0 <= i < init.len() && init[i] == ',';
                assert(t[i] == ',');
            }
        }
        lemma_split_append(s, init);
        assert((s + t).drop_last() =~= s + init);
        assert((fields.last() + init).push(t.last()) =~= fields.last() + t);
        assert(split_fields(s + t) =~= fields.update(fields.len() - 1, fields.last() + t));
    }
}

/// A comma put behind `s` opens a new, empty field.
pub proof fn lemma_split_comma(s: Seq<char>)
    ensures
        split_fields(s.push(',')) == split_fields(s).push(Seq::<char>::empty()),
{
    assert(s.push(',').drop_last() =~= s);
}

/// Cutting loses nothing and leaves no comma: the fields of a line hold no
/// comma, and joined by commas they are the line again.
pub proof fn lemma_split_join(s: Seq<char>)
    ensures
        split_fields(s).len() >= 1,
        comma_free(split_fields(s)),
        join_fields(split_fields(s)) == s,
    decreases s.len(),
{
    let none = Seq::<char>::empty();
    if s.len() == 0 {
        assert(join_fields(seq![none]) =~= s);
    } else {
        let init = s.drop_last();
        let before = split_fields(init);
        let fields = split_fields(s);
        lemma_split_join(init);
        if s.last() == ',' {
            assert(fields.drop_last() =~= before);
            assert(join_fields(fields) =~= s);
            assert forall|i: int| 0 <= i < fields.len() implies !(#[trigger] fields[i]).contains(
                ',',
            ) by {
                if i < before.len() {
                    assert(fields[i] == before[i]);
                }
            }
        } else {
            let last = before.last().push(s.last());
            assert(!last.contains(',')) by {
                if last.contains(',') {
                    let k = choose|k: int| 0 <= k < last.len() && last[k] == ',';
                    assert(before.last()[k] == ',');
                }
            }
            assert forall|i: int| 0 <= i < fields.len() implies !(#[trigger] fields[i]).contains(
                ',',
            ) by {
                if i < before.len() - 1 {
                    assert(fields[i] == before[i]);
                }
            }
            if before.len() > 1 {
                assert(fields.drop_last() =~= before.drop_last());
                assert(join_fields(before.drop_last()).push(',') + last =~= (join_fields(
                    before.drop_last(),
                ).push(',') + before.last()).push(s.last()));
            }
            assert(join_fields(fields) =~= s);
        }
    }
}

/// Cutting undoes joining: fields without a comma, joined by commas, are
/// cut apart again as they were.
pub proof fn lemma_join_split(fields: Seq<Seq<char>>)
    requires
        fields.len() >= 1,
        comma_free(fields),
    ensures
        split_fields(join_fields(fields)) == fields,
    decreases fields.len(),
{
    let none = Seq::<char>::empty();
    assert(split_fields(none) =~= seq![none]);
    if fields.len() == 1 {
        lemma_split_append(none, fields[0]);
        assert(none + fields[0] =~= fields[0]);
        assert(split_fields(fields[0]) =~= fields);
    } else {
        let init = fields.drop_last();
        assert(comma_free(init)) by {
            assert forall|i: int| 0 <= i < init.len() implies !(#[trigger] init[i]).contains(
                ',',
            ) by {
                assert(init[i] == fields[i]);
            }
        }
        lemma_join_split(init);
        lemma_split_comma(join_fields(init));
        lemma_split_append(join_fields(init).push(','), fields.last());
        assert(none + fields.last() =~= fields.last());
        assert(split_fields(join_fields(fields)) =~= fields);
    }
}

/// No number holds a comma.
pub proof fn lemma_number_has_no_comma(token: Seq<char>)
    requires
        parse_u32(token) is Some,
    ensures
        !token.contains(','),
{
    if token.contains(',') {
        let i = choose|i: int| 0 <= i < token.len() && token[i] == ',';
        let digits = unsigned_part(token);
        if token[0] == '+' {
            assert(digits[i - 1] == ',');
            assert(!is_decimal(digits[i - 1]));
        } else {
            assert(digits[i] == ',');
            assert(!is_decimal(digits[i]));
        }
    }
}

/// The digits read so far never spell more than the whole string does.
pub proof fn lemma_decimal_prefix(s: Seq<char>, n: int)
    requires
        0 <= n <= s.len(),
        all_decimal(s),
    ensures
        decimal_value(s.subrange(0, n)) <= decimal_value(s),
    decreases s.len() - n,
{
    if n == s.len() {
        assert(s.subrange(0, n) =~= s);
    } else {
        let init = s.drop_last();
        assert(is_decimal(s[s.len() - 1]));
        assert(init.subrange(0, n) =~= s.subrange(0, n));
        assert(all_decimal(init)) by {
            assert forall|i: int| 0 <= i < init.len() implies is_decimal(#[trigger] init[i]) by {
                assert(init[i] == s[i]);
            }
        }
        lemma_decimal_prefix(init, n);
    }
}

/// Cuts `line`, from `start` on, at every comma.
pub fn split(line: &[char], start: usize) -> (fields: Vec<Vec<char>>)
    requires
        start <= line@.len(),
    ensures
        views(fields@) == split_fields(line@.subrange(start as int, line@.len() as int)),
{
    let mut fields: Vec<Vec<char>> = Vec::new();
    let mut current: Vec<char> = Vec::new();
    let mut i: usize = start;
    assert(line@.subrange(start as int, start as int) =~= Seq::<char>::empty());
    assert(views(fields@).push(current@) =~= seq![Seq::<char>::empty()]);
    while i < line.len()
        invariant
            start <= i <= line@.len(),
            views(fields@).push(current@) == split_fields(line@.subrange(start as int, i as int)),
        decreases line@.len() - i,
    {
        let c = line[i];
        let ghost seen = line@.subrange(start as int, i as int);
        let ghost next = line@.subrange(start as int, i + 1);
        let ghost done = views(fields@);
        let ghost open = current@;
        assert(next.drop_last() =~= seen);
        assert(next.last() == c);
        if c == ',' {
            fields.push(current);
            current = Vec::new();
            assert(views(fields@) =~= done.push(open));
            assert(views(fields@).push(current@) =~= split_fields(next));
        } else {
            current.push(c);
            assert(views(fields@).push(current@) =~= split_fields(next));
        }
        i += 1;
    }
    assert(line@.subrange(start as int, i as int) =~= line@.subrange(
        start as int,
        line@.len() as int,
    ));
    let ghost done = views(fields@);
    fields.push(current);
    assert(views(fields@) =~= done.push(current@));
    fields
}

/// Reads an unsigned 32-bit decimal number.
pub fn read_u32(token: &[char]) -> (number: Option<u32>)
    ensures
        number == parse_u32(token@),
{
    let start: usize = if token.len() > 0 && token[0] == '+' {
        1
    } else {
        0
    };
    let ghost digits = unsigned_part(token@);
    assert(digits =~= token@.subrange(start as int, token@.len() as int));
    if start == token.len() {
        return None;
    }
    let mut value: u32 = 0;
    let mut i: usize = start;
    assert(digits.subrange(0, 0) =~= Seq::<char>::empty());
    while i < token.len()
        invariant
            start <= i <= token@.len(),
            digits == unsigned_part(token@),
            digits == token@.subrange(start as int, token@.len() as int),
            all_decimal(digits.subrange(0, i - start)),
            value == decimal_value(digits.subrange(0, i - start)),
        decreases token@.len() - i,
    {
        let code: u32 = token[i] as u32;
        let ghost seen = digits.subrange(0, i - start);
        let ghost next = digits.subrange(0, i - start + 1);
        assert(next.drop_last() =~= seen);
        assert(next.last() == token@[i as int]);
        if code < 48 || code > 57 {
            assert(!is_decimal(digits[i - start]));
            return None;
        }
        assert(all_decimal(next)) by {
            assert forall|k: int| 0 <= k < next.len() implies is_decimal(#[trigger] next[k]) by {
                if k < seen.len() {
                    assert(next[k] == seen[k]);
                }
            }
        }
        let grown: u64 = value as u64 * 10 + (code - 48) as u64;
        assert(grown == decimal_value(next));
        if grown > u32::MAX as u64 {
            proof {
                if all_decimal(digits) {
                    lemma_decimal_prefix(digits, i - start + 1);
                }
            }
            return None;
        }
        value = grown as u32;
        i += 1;
    }
    assert(digits.subrange(0, i - start) =~= digits);
    Some(value)
}

} // verus!
