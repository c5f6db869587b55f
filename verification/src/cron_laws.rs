//! What cron expressions mean, told by how they are written.

use vstd::prelude::*;
use crate::clock::{civil_of, Stamp, Wall};
use crate::config::{
    cron_of, field_of, part_of, part_values, parts_of, range_of, step_of, CronErrorV, CronV,
    FieldV, Stepped,
};
use crate::text::{
    all_digits, decimal_of, digit_char, digits_of, digits_value, is_char, is_digit, is_space,
    lemma_first_where_is, split, split_first, u32_of, words, words_state,
};

verus! {

// ---------------------------------------------------------------------------
// Numbers and separators
// ---------------------------------------------------------------------------

/// A number that is written in decimal is read back.
pub proof fn law_decimal_is_read_back(n: nat)
    ensures
        decimal_of(n as int).len() > 0,
        forall|i: int|
            0 <= i < decimal_of(n as int).len() ==> '0' <= #[trigger] decimal_of(n as int)[i] <= '9',
        digits_value(decimal_of(n as int)) == n,
        n <= u32::MAX ==> u32_of(decimal_of(n as int)) == Some(n as u32),
    decreases n,
{
    let d = digits_of(n, 10);
    if n < 10 {
        assert(d =~= seq![digit_char(n)]);
        assert(d.drop_last() =~= Seq::<char>::empty());
        assert(digits_value(d.drop_last()) == 0);
    } else {
        law_decimal_is_read_back(n / 10);
        let h = digits_of(n / 10, 10);
        assert(d == h.push(digit_char(n % 10)));
        assert(d.drop_last() =~= h);
        assert(digits_value(d) == n);
        assert forall|i: int| 0 <= i < d.len() implies '0' <= #[trigger] d[i] <= '9' by {
            if i < h.len() {
                assert(d[i] == h[i]);
            }
        }
    }
    assert(all_digits(d)) by {
        assert forall|i: int| 0 <= i < d.len() implies is_digit(#[trigger] d[i]) by {}
    }
    assert('0' <= d[0] <= '9');
}

/// Whether a text is without a character.
pub open spec fn lacks(s: Seq<char>, c: char) -> bool {
    forall|i: int| 0 <= i < s.len() ==> #[trigger] s[i] != c
}

proof fn lemma_decimal_lacks(n: nat, c: char)
    requires
        !('0' <= c <= '9'),
    ensures
        lacks(decimal_of(n as int), c),
{
    law_decimal_is_read_back(n);
}

/// A text is cut at the first of a character: what stands before it and what behind it.
pub proof fn law_cut_at_the_first(a: Seq<char>, c: char, b: Seq<char>)
    requires
        lacks(a, c),
    ensures
        split_first(a + seq![c] + b, c) == Some((a, b)),
        split_first(a, c) is None,
{
    let s = a + seq![c] + b;
    let p = is_char(c);
    assert forall|j: int| 0 <= j < a.len() implies !p(#[trigger] s[j]) by {
        assert(s[j] == a[j]);
    }
    assert(s[a.len() as int] == c);
    lemma_first_where_is(s, p, a.len() as int);
    assert(s.take(a.len() as int) =~= a);
    assert(s.skip((a.len() + 1) as int) =~= b);
    assert forall|j: int| 0 <= j < a.len() implies !p(#[trigger] a[j]) by {}
    lemma_first_where_is(a, p, a.len() as int);
}

proof fn lemma_split_nonempty(s: Seq<char>, c: char)
    ensures
        split(s, c).len() > 0,
    decreases s.len(),
{
    if s.len() > 0 {
        lemma_split_nonempty(s.drop_last(), c);
    }
}

/// A text without the character is one piece, and the pieces of two texts with the
/// character between them are those of the first and those of the second.
pub proof fn law_pieces_of_a_list(a: Seq<char>, c: char, b: Seq<char>)
    ensures
        lacks(a, c) ==> split(a, c) == seq![a],
        split(a + seq![c] + b, c) == split(a, c) + split(b, c),
    decreases a.len() + b.len(),
{
    lemma_split_nonempty(a, c);
    lemma_split_nonempty(b, c);
    if lacks(a, c) {
        lemma_split_whole(a, c);
    }
    let s = a + seq![c] + b;
    if b.len() == 0 {
        assert(s.drop_last() =~= a);
        assert(s.last() == c);
        assert(split(b, c) == seq![Seq::<char>::empty()]);
        assert(split(s, c) =~= split(a, c) + split(b, c));
    } else {
        law_pieces_of_a_list(a, c, b.drop_last());
        lemma_split_nonempty(b.drop_last(), c);
        assert(s.drop_last() =~= a + seq![c] + b.drop_last());
        assert(s.last() == b.last());
        assert(split(s, c) =~= split(a, c) + split(b, c));
    }
}

proof fn lemma_split_whole(a: Seq<char>, c: char)
    requires
        lacks(a, c),
    ensures
        split(a, c) == seq![a],
    decreases a.len(),
{
    if a.len() == 0 {
        assert(a =~= Seq::<char>::empty());
    } else {
        let r = a.drop_last();
        assert forall|i: int| 0 <= i < r.len() implies #[trigger] r[i] != c by {
            assert(r[i] == a[i]);
        }
        lemma_split_whole(r, c);
        assert(a[a.len() - 1] != c);
        assert(r.push(a.last()) =~= a);
        assert(split(a, c) =~= seq![a]);
    }
}

/// Whether a text is a word: not empty, and without white space.
pub open spec fn is_word(s: Seq<char>) -> bool {
    s.len() > 0 && forall|i: int| 0 <= i < s.len() ==> !is_space(#[trigger] s[i])
}

proof fn lemma_words_grow(s: Seq<char>, b: Seq<char>)
    requires
        is_word(b),
        s.len() == 0 || is_space(s.last()),
    ensures
        words_state(s + b) == (words_state(s).0.push(b), true),
    decreases b.len(),
{
    let t = s + b;
    let r = b.drop_last();
    assert(t.drop_last() =~= s + r);
    assert(t.last() == b.last());
    assert(!is_space(b[b.len() - 1]));
    if r.len() == 0 {
        assert(s + r =~= s);
        assert(!words_state(s).1);
        assert(b =~= seq![b.last()]);
    } else {
        assert forall|i: int| 0 <= i < r.len() implies !is_space(#[trigger] r[i]) by {
            assert(r[i] == b[i]);
        }
        lemma_words_grow(s, r);
        let p = words_state(s).0;
        assert(r.push(b.last()) =~= b);
        assert(p.push(r).update(p.len() as int, b) =~= p.push(b));
    }
}

/// The words of a text to which a space and a word were added are those that it had, and
/// that word.
pub proof fn law_words_are_told_apart(s: Seq<char>, b: Seq<char>)
    requires
        is_word(b),
    ensures
        words(b) == seq![b],
        words(s + seq![' '] + b) == words(s).push(b),
{
    let e = Seq::<char>::empty();
    lemma_words_grow(e, b);
    assert(e + b =~= b);
    assert(words(b) =~= seq![b]);
    let t = s + seq![' '];
    assert(t.drop_last() =~= s);
    assert(is_space(' '));
    assert(words_state(t).0 == words_state(s).0);
    lemma_words_grow(t, b);
}

// ---------------------------------------------------------------------------
// Fields
// ---------------------------------------------------------------------------

/// Whether a field can be read and fires at a value.
pub open spec fn holds(f: Result<FieldV, CronErrorV>, v: u32) -> bool {
    f matches Ok(x) && x.admits(v)
}

proof fn lemma_one_part(t: Seq<char>, min: u32, max: u32)
    requires
        lacks(t, ','),
        t != "*"@,
    ensures
        field_of(t, min, max) == match part_of(t, min, max) {
            Err(e) => Err::<FieldV, CronErrorV>(e),
            Ok(p) => Ok(FieldV { any: false, allowed: part_values(p, min, max) }),
        },
{
    lemma_split_whole(t, ',');
    let one = seq![t];
    assert(one.drop_last() =~= Seq::<Seq<char>>::empty());
    assert(parts_of(one.drop_last(), min, max) == Ok::<Set<u32>, CronErrorV>(Set::empty()));
    if let Ok(p) = part_of(t, min, max) {
        assert(Set::<u32>::empty().union(part_values(p, min, max)) =~= part_values(p, min, max));
    }
}

/// A star fires at every value.
pub proof fn law_star_is_every_value(min: u32, max: u32, v: u32)
    ensures
        holds(field_of("*"@, min, max), v),
{
}

/// A number fires at that value, if the field has it.
pub proof fn law_number_is_one_value(n: u32, min: u32, max: u32, v: u32)
    ensures
        field_of(decimal_of(n as int), min, max) is Ok,
        holds(field_of(decimal_of(n as int), min, max), v) <==> v == n && min <= v <= max,
{
    let t = decimal_of(n as int);
    law_decimal_is_read_back(n as nat);
    lemma_decimal_lacks(n as nat, ',');
    lemma_decimal_lacks(n as nat, '/');
    lemma_decimal_lacks(n as nat, '-');
    reveal_strlit("*");
    assert(t[0] != '*');
    lemma_one_part(t, min, max);
    law_cut_at_the_first(t, '/', Seq::empty());
    law_cut_at_the_first(t, '-', Seq::empty());
    assert(part_of(t, min, max) == Ok::<Stepped, CronErrorV>((n, n, 1)));
    if v == n {
        vstd::arithmetic::div_mod::lemma_small_mod(0, 1);
    }
}

/// Two numbers with a hyphen between them fire at every value from the first to the
/// second that the field has.
pub proof fn law_hyphen_is_a_range(a: u32, b: u32, min: u32, max: u32, v: u32)
    ensures
        ({
            let t = decimal_of(a as int) + seq!['-'] + decimal_of(b as int);
            &&& field_of(t, min, max) is Ok
            &&& holds(field_of(t, min, max), v) <==> a <= v <= b && min <= v <= max
        }),
{
    let t = lemma_range(a, b, min, max);
    lemma_range_lacks(a, b, '/');
    lemma_range_lacks(a, b, ',');
    reveal_strlit("*");
    law_decimal_is_read_back(a as nat);
    assert(t[0] == decimal_of(a as int)[0]);
    lemma_one_part(t, min, max);
    law_cut_at_the_first(t, '/', Seq::empty());
    assert(part_of(t, min, max) == Ok::<Stepped, CronErrorV>((a, b, 1)));
    if a <= v {
        lemma_mod_one(v - a);
    }
}

proof fn lemma_mod_one(x: int)
    ensures
        x % 1 == 0,
{
}

proof fn lemma_range(a: u32, b: u32, min: u32, max: u32) -> (t: Seq<char>)
    ensures
        t == decimal_of(a as int) + seq!['-'] + decimal_of(b as int),
        range_of(t, min, max) == Ok::<(u32, u32), CronErrorV>((a, b)),
{
    let t = decimal_of(a as int) + seq!['-'] + decimal_of(b as int);
    law_decimal_is_read_back(a as nat);
    law_decimal_is_read_back(b as nat);
    lemma_decimal_lacks(a as nat, '-');
    law_cut_at_the_first(decimal_of(a as int), '-', decimal_of(b as int));
    reveal_strlit("*");
    assert(t[0] == decimal_of(a as int)[0]);
    t
}

proof fn lemma_range_lacks(a: u32, b: u32, c: char)
    requires
        !('0' <= c <= '9'),
        c != '-',
    ensures
        lacks(decimal_of(a as int) + seq!['-'] + decimal_of(b as int), c),
{
    let x = decimal_of(a as int);
    let y = decimal_of(b as int);
    lemma_decimal_lacks(a as nat, c);
    lemma_decimal_lacks(b as nat, c);
    let t = x + seq!['-'] + y;
    assert forall|i: int| 0 <= i < t.len() implies #[trigger] t[i] != c by {
        if i < x.len() {
            assert(t[i] == x[i]);
        } else if i > x.len() {
            assert(t[i] == y[i - x.len() - 1]);
        }
    }
}

proof fn lemma_stepped(r: Seq<char>, s: u32, min: u32, max: u32) -> (t: Seq<char>)
    requires
        lacks(r, '/'),
        lacks(r, ','),
    ensures
        t == r + seq!['/'] + decimal_of(s as int),
        step_of(t) == Ok::<(Seq<char>, u32), CronErrorV>((r, s)),
        field_of(t, min, max) == match part_of(t, min, max) {
            Err(e) => Err::<FieldV, CronErrorV>(e),
            Ok(p) => Ok(FieldV { any: false, allowed: part_values(p, min, max) }),
        },
{
    let d = decimal_of(s as int);
    let t = r + seq!['/'] + d;
    law_decimal_is_read_back(s as nat);
    law_cut_at_the_first(r, '/', d);
    lemma_decimal_lacks(s as nat, ',');
    assert forall|i: int| 0 <= i < t.len() implies #[trigger] t[i] != ',' by {
        if i < r.len() {
            assert(t[i] == r[i]);
        } else if i > r.len() {
            assert(t[i] == d[i - r.len() - 1]);
        }
    }
    reveal_strlit("*");
    assert(t[r.len() as int] == '/');
    assert(t != "*"@);
    lemma_one_part(t, min, max);
    t
}

/// A range with a step fires at every so many values of it, the first of them included. A
/// step of zero is refused.
pub proof fn law_slash_is_a_step(a: u32, b: u32, s: u32, min: u32, max: u32, v: u32)
    ensures
        ({
            let t = decimal_of(a as int) + seq!['-'] + decimal_of(b as int) + seq!['/'] + decimal_of(
                s as int,
            );
            &&& s == 0 ==> field_of(t, min, max) == Err::<FieldV, CronErrorV>(CronErrorV::ZeroStep)
            &&& s > 0 ==> field_of(t, min, max) is Ok
            &&& s > 0 ==> (holds(field_of(t, min, max), v) <==> a <= v <= b && min <= v <= max
                && (v - a) % (s as int) == 0)
        }),
{
    lemma_range_lacks(a, b, '/');
    lemma_range_lacks(a, b, ',');
    let r = lemma_range(a, b, min, max);
    let t = lemma_stepped(r, s, min, max);
}

/// A star with a step fires at every so many values of the field, the first of them
/// included. A step of zero is refused.
pub proof fn law_star_with_a_step(s: u32, min: u32, max: u32, v: u32)
    ensures
        ({
            let t = seq!['*', '/'] + decimal_of(s as int);
            &&& s == 0 ==> field_of(t, min, max) == Err::<FieldV, CronErrorV>(CronErrorV::ZeroStep)
            &&& s > 0 ==> field_of(t, min, max) is Ok
            &&& s > 0 ==> (holds(field_of(t, min, max), v) <==> min <= v <= max && (v - min)
                % (s as int) == 0)
        }),
{
    reveal_strlit("*");
    assert("*"@ =~= seq!['*']);
    let t = lemma_stepped("*"@, s, min, max);
    assert(t =~= seq!['*', '/'] + decimal_of(s as int));
}

/// A number with a step fires at that value alone.
pub proof fn law_number_with_a_step(n: u32, s: u32, min: u32, max: u32, v: u32)
    requires
        s > 0,
    ensures
        ({
            let t = decimal_of(n as int) + seq!['/'] + decimal_of(s as int);
            &&& field_of(t, min, max) is Ok
            &&& holds(field_of(t, min, max), v) <==> v == n && min <= v <= max
        }),
{
    let r = decimal_of(n as int);
    law_decimal_is_read_back(n as nat);
    lemma_decimal_lacks(n as nat, '/');
    lemma_decimal_lacks(n as nat, ',');
    lemma_decimal_lacks(n as nat, '-');
    law_cut_at_the_first(r, '-', Seq::empty());
    reveal_strlit("*");
    assert(r[0] != '*');
    let t = lemma_stepped(r, s, min, max);
    if v == n {
        vstd::arithmetic::div_mod::lemma_small_mod(0, s as nat);
    }
}

/// What is neither a star nor a number is refused, and told as it was written.
pub proof fn law_words_are_no_values(t: Seq<char>, min: u32, max: u32, i: int)
    requires
        lacks(t, ','),
        lacks(t, '/'),
        lacks(t, '-'),
        t != "*"@,
        0 <= i < t.len(),
        !('0' <= t[i] <= '9'),
        i == 0 ==> t[0] != '+',
    ensures
        field_of(t, min, max) == Err::<FieldV, CronErrorV>(CronErrorV::BadValue(t)),
{
    lemma_one_part(t, min, max);
    law_cut_at_the_first(t, '/', Seq::empty());
    law_cut_at_the_first(t, '-', Seq::empty());
    if t[0] == '+' {
        assert(t.skip(1)[i - 1] == t[i]);
        assert(!is_digit(t.skip(1)[i - 1]));
    } else {
        assert(!is_digit(t[i]));
    }
}

proof fn lemma_parts_join(x: Seq<Seq<char>>, y: Seq<Seq<char>>, min: u32, max: u32)
    ensures
        parts_of(x + y, min, max) is Ok <==> parts_of(x, min, max) is Ok && parts_of(
            y,
            min,
            max,
        ) is Ok,
        parts_of(x + y, min, max) matches Ok(s) ==> s == parts_of(x, min, max)->Ok_0.union(
            parts_of(y, min, max)->Ok_0,
        ),
    decreases y.len(),
{
    if y.len() == 0 {
        assert(x + y =~= x);
        if let Ok(s) = parts_of(x, min, max) {
            assert(s.union(Set::empty()) =~= s);
        }
    } else {
        lemma_parts_join(x, y.drop_last(), min, max);
        assert((x + y).drop_last() =~= x + y.drop_last());
        assert((x + y).last() == y.last());
        if parts_of(x + y, min, max) is Ok {
            let p = part_of(y.last(), min, max)->Ok_0;
            assert(parts_of(x + y, min, max)->Ok_0 =~= parts_of(x, min, max)->Ok_0.union(
                parts_of(y, min, max)->Ok_0,
            ));
        }
    }
}

proof fn lemma_list_of(t: Seq<char>, min: u32, max: u32, v: u32)
    ensures
        field_of(t, min, max) is Ok <==> parts_of(split(t, ','), min, max) is Ok,
        min <= v <= max ==> (holds(field_of(t, min, max), v) <==> (parts_of(
            split(t, ','),
            min,
            max,
        ) matches Ok(s) && s.contains(v))),
{
    if t == "*"@ {
        reveal_strlit("*");
        assert forall|i: int| 0 <= i < t.len() implies #[trigger] t[i] != ',' by {}
        lemma_split_whole(t, ',');
        assert forall|i: int| 0 <= i < t.len() implies #[trigger] t[i] != '/' by {}
        law_cut_at_the_first(t, '/', Seq::empty());
        let one = seq![t];
        assert(one.drop_last() =~= Seq::<Seq<char>>::empty());
        assert(parts_of(one.drop_last(), min, max) == Ok::<Set<u32>, CronErrorV>(Set::empty()));
        assert(part_of(t, min, max) == Ok::<Stepped, CronErrorV>((min, max, 1)));
        if min <= v {
            lemma_mod_one(v - min);
        }
    }
}

/// A list fires where one of its parts does: two fields with a comma between them can be
/// read if both can, and fire at the values of the one and at those of the other.
pub proof fn law_comma_is_either(a: Seq<char>, b: Seq<char>, min: u32, max: u32, v: u32)
    ensures
        ({
            let t = a + seq![','] + b;
            &&& field_of(t, min, max) is Ok <==> field_of(a, min, max) is Ok && field_of(
                b,
                min,
                max,
            ) is Ok
            &&& field_of(t, min, max) is Ok && min <= v <= max ==> (holds(
                field_of(t, min, max),
                v,
            ) <==> holds(field_of(a, min, max), v) || holds(field_of(b, min, max), v))
            &&& field_of(t, min, max) is Ok && !(min <= v <= max) ==> !holds(
                field_of(t, min, max),
                v,
            )
        }),
{
    let t = a + seq![','] + b;
    law_pieces_of_a_list(a, ',', b);
    lemma_parts_join(split(a, ','), split(b, ','), min, max);
    lemma_list_of(a, min, max, v);
    lemma_list_of(b, min, max, v);
    assert(t[a.len() as int] == ',');
    reveal_strlit("*");
    assert(t != "*"@);
    if let Ok(s) = parts_of(split(t, ','), min, max) {
        lemma_parts_bounded(split(t, ','), min, max, v);
    }
}

proof fn lemma_parts_bounded(x: Seq<Seq<char>>, min: u32, max: u32, v: u32)
    ensures
        parts_of(x, min, max) matches Ok(s) ==> (s.contains(v) ==> min <= v <= max),
    decreases x.len(),
{
    if x.len() > 0 {
        lemma_parts_bounded(x.drop_last(), min, max, v);
    }
}

// ---------------------------------------------------------------------------
// Expressions
// ---------------------------------------------------------------------------

/// Five texts with a space between each two.
pub open spec fn spaced(
    a: Seq<char>,
    b: Seq<char>,
    c: Seq<char>,
    d: Seq<char>,
    e: Seq<char>,
) -> Seq<char> {
    a + seq![' '] + b + seq![' '] + c + seq![' '] + d + seq![' '] + e
}

proof fn lemma_five_words(
    a: Seq<char>,
    b: Seq<char>,
    c: Seq<char>,
    d: Seq<char>,
    e: Seq<char>,
)
    requires
        is_word(a),
        is_word(b),
        is_word(c),
        is_word(d),
        is_word(e),
    ensures
        words(spaced(a, b, c, d, e)) == seq![a, b, c, d, e],
{
    law_words_are_told_apart(a, a);
    law_words_are_told_apart(a, b);
    law_words_are_told_apart(a + seq![' '] + b, c);
    law_words_are_told_apart(a + seq![' '] + b + seq![' '] + c, d);
    law_words_are_told_apart(a + seq![' '] + b + seq![' '] + c + seq![' '] + d, e);
    assert(words(spaced(a, b, c, d, e)) =~= seq![a, b, c, d, e]);
}

/// An expression is five fields: minutes from 0 to 59, hours from 0 to 23, days from 1 to
/// 31, months from 1 to 12, and days of the week from 0 to 7, where 0 and 7 are Sunday. It
/// can be read if each of them can, and fires where all of them do.
#[verifier::spinoff_prover]
pub proof fn law_expression_is_five_fields(
    a: Seq<char>,
    b: Seq<char>,
    c: Seq<char>,
    d: Seq<char>,
    e: Seq<char>,
    w: Wall,
)
    requires
        is_word(a),
        is_word(b),
        is_word(c),
        is_word(d),
        is_word(e),
    ensures
        cron_of(spaced(a, b, c, d, e)) is Ok <==> field_of(a, 0, 59) is Ok && field_of(b, 0, 23) is Ok
            && field_of(c, 1, 31) is Ok && field_of(d, 1, 12) is Ok && field_of(e, 0, 7) is Ok,
        cron_of(spaced(a, b, c, d, e)) matches Ok(x) ==> (x.fires(w) <==> holds(
            field_of(a, 0, 59),
            w.minute,
        ) && holds(field_of(b, 0, 23), w.hour) && holds(field_of(c, 1, 31), w.day) && holds(
            field_of(d, 1, 12),
            w.month,
        ) && (holds(field_of(e, 0, 7), w.weekday) || (w.weekday == 0 && holds(
            field_of(e, 0, 7),
            7,
        )))),
{
    lemma_five_words(a, b, c, d, e);
    let x = spaced(a, b, c, d, e);
    let ws = words(x);
    assert(ws.len() == 5 && ws[0] == a && ws[1] == b && ws[2] == c && ws[3] == d && ws[4] == e);
    let fields = (
        field_of(a, 0, 59),
        field_of(b, 0, 23),
        field_of(c, 1, 31),
        field_of(d, 1, 12),
        field_of(e, 0, 7),
    );
    lemma_read_fields(x, fields.0, fields.1, fields.2, fields.3, fields.4);
}

proof fn lemma_read_fields(
    x: Seq<char>,
    a: Result<FieldV, CronErrorV>,
    b: Result<FieldV, CronErrorV>,
    c: Result<FieldV, CronErrorV>,
    d: Result<FieldV, CronErrorV>,
    e: Result<FieldV, CronErrorV>,
)
    requires
        words(x).len() == 5,
        field_of(words(x)[0], 0, 59) == a,
        field_of(words(x)[1], 0, 23) == b,
        field_of(words(x)[2], 1, 31) == c,
        field_of(words(x)[3], 1, 12) == d,
        field_of(words(x)[4], 0, 7) == e,
    ensures
        cron_of(x) is Ok <==> a is Ok && b is Ok && c is Ok && d is Ok && e is Ok,
        cron_of(x) matches Ok(k) ==> k == (CronV {
            minute: a->Ok_0,
            hour: b->Ok_0,
            dom: c->Ok_0,
            month: d->Ok_0,
            dow: e->Ok_0,
        }),
{
}

/// An expression that is not five words is refused.
pub proof fn law_five_fields_are_asked_for(expr: Seq<char>)
    requires
        words(expr).len() != 5,
    ensures
        cron_of(expr) == Err::<CronV, CronErrorV>(
            CronErrorV::FieldCount { expr, got: words(expr).len() as int },
        ),
{
}

proof fn lemma_decimal_word(n: nat)
    ensures
        is_word(decimal_of(n as int)),
{
    law_decimal_is_read_back(n);
}

/// A minute, an hour and three stars fire at that time of every day, and at no other.
#[verifier::spinoff_prover]
pub proof fn law_time_of_day_fires_daily(m: u32, h: u32, w: Wall)
    requires
        m <= 59,
        h <= 23,
    ensures
        cron_of(
            spaced(decimal_of(m as int), decimal_of(h as int), "*"@, "*"@, "*"@),
        ) matches Ok(c) && (c.fires(w) <==> w.minute == m && w.hour == h),
{
    let a = decimal_of(m as int);
    let b = decimal_of(h as int);
    lemma_decimal_word(m as nat);
    lemma_decimal_word(h as nat);
    lemma_star_word();
    law_expression_is_five_fields(a, b, "*"@, "*"@, "*"@, w);
    law_number_is_one_value(m, 0, 59, w.minute);
    law_number_is_one_value(h, 0, 23, w.hour);
    law_star_is_every_value(1, 31, w.day);
    law_star_is_every_value(1, 12, w.month);
    law_star_is_every_value(0, 7, w.weekday);
}

proof fn lemma_star_word()
    ensures
        is_word("*"@),
{
    reveal_strlit("*");
    assert(!is_space('*'));
}

/// A minute, an hour and three stars fire when the local clock shows that time: so many
/// minutes and hours have passed of its day.
pub proof fn law_time_of_day_is_local(m: u32, h: u32, t: Stamp)
    requires
        m <= 59,
        h <= 23,
    ensures
        cron_of(
            spaced(decimal_of(m as int), decimal_of(h as int), "*"@, "*"@, "*"@),
        ) matches Ok(c) && (c.fires_at(t) <==> (t.secs + t.offset) / 60 % 60 == m && (t.secs
            + t.offset) / 3600 % 24 == h),
{
    law_time_of_day_fires_daily(m, h, civil_of(t.secs + t.offset));
}

/// A day of the month, a day of the week and a month fire on such days.
#[verifier::spinoff_prover]
pub proof fn law_days_are_those_of_the_calendar(d: u32, n: u32, k: u32, w: Wall)
    requires
        1 <= d <= 31,
        1 <= n <= 12,
        k <= 7,
        w.weekday <= 6,
    ensures
        cron_of(
            spaced("*"@, "*"@, decimal_of(d as int), decimal_of(n as int), decimal_of(k as int)),
        ) matches Ok(c) && (c.fires(w) <==> w.day == d && w.month == n && w.weekday == (if k == 7 {
            0
        } else {
            k
        })),
{
    lemma_decimal_word(d as nat);
    lemma_decimal_word(n as nat);
    lemma_decimal_word(k as nat);
    lemma_star_word();
    law_expression_is_five_fields(
        "*"@,
        "*"@,
        decimal_of(d as int),
        decimal_of(n as int),
        decimal_of(k as int),
        w,
    );
    law_star_is_every_value(0, 59, w.minute);
    law_star_is_every_value(0, 23, w.hour);
    law_number_is_one_value(d, 1, 31, w.day);
    law_number_is_one_value(n, 1, 12, w.month);
    law_number_is_one_value(k, 0, 7, w.weekday);
    law_number_is_one_value(k, 0, 7, 7);
}

/// A star with a step in the first field fires at every so many minutes of each hour.
#[verifier::spinoff_prover]
pub proof fn law_steps_fire_through_the_hour(s: u32, w: Wall)
    requires
        s > 0,
        w.minute <= 59,
    ensures
        cron_of(
            spaced(seq!['*', '/'] + decimal_of(s as int), "*"@, "*"@, "*"@, "*"@),
        ) matches Ok(c) && (c.fires(w) <==> w.minute as int % (s as int) == 0),
{
    let a = seq!['*', '/'] + decimal_of(s as int);
    lemma_step_word(s);
    lemma_star_word();
    law_expression_is_five_fields(a, "*"@, "*"@, "*"@, "*"@, w);
    law_star_with_a_step(s, 0, 59, w.minute);
    law_star_is_every_value(0, 23, w.hour);
    law_star_is_every_value(1, 31, w.day);
    law_star_is_every_value(1, 12, w.month);
    law_star_is_every_value(0, 7, w.weekday);
}

proof fn lemma_step_word(s: u32)
    ensures
        is_word(seq!['*', '/'] + decimal_of(s as int)),
{
    let a = seq!['*', '/'] + decimal_of(s as int);
    lemma_decimal_word(s as nat);
    assert(!is_space('*') && !is_space('/'));
    assert forall|i: int| 0 <= i < a.len() implies !is_space(#[trigger] a[i]) by {
        if i >= 2 {
            assert(a[i] == decimal_of(s as int)[i - 2]);
        }
    }
}

} // verus!
