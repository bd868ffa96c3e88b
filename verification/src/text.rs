//! Texts as sequences of characters: splitting at a separator, and
//! identifiers in decimal.

use vstd::prelude::*;

verus! {

/// `String::push` appends one character to the end of the string.
pub assume_specification[ String::push ](s: &mut String, c: char)
    ensures
        final(s)@ == old(s)@.push(c),
;

/// The fields of `s` between occurrences of `sep`, read left to right: a
/// separator opens a new, empty field; any other character extends the last
/// field. There is always at least one field.
pub open spec fn split_spec(s: Seq<char>, sep: char) -> Seq<Seq<char>>
    decreases s.len(),
{
    if s.len() == 0 {
        seq![Seq::empty()]
    } else {
        let before = split_spec(s.drop_last(), sep);
        if s.last() == sep {
            before.push(Seq::empty())
        } else {
            before.drop_last().push(before.last().push(s.last()))
        }
    }
}

/// The views of a vector of strings, in order.
pub open spec fn views(v: Seq<String>) -> Seq<Seq<char>> {
    Seq::new(v.len(), |i: int| v[i]@)
}

pub proof fn lemma_split_nonempty(s: Seq<char>, sep: char)
    ensures
        split_spec(s, sep).len() >= 1,
    decreases s.len(),
{
    if s.len() > 0 {
        lemma_split_nonempty(s.drop_last(), sep);
    }
}

/// A text without the separator is its own single field.
pub proof fn lemma_split_without_sep(s: Seq<char>, sep: char)
    requires
        !s.contains(sep),
    ensures
        split_spec(s, sep) == seq![s],
    decreases s.len(),
{
    if s.len() > 0 {
        let front = s.drop_last();
        assert forall|c: char| front.contains(c) implies s.contains(c) by {
            let i = choose|i: int| 0 <= i < front.len() && front[i] == c;
            assert(s[i] == c);
        }
        lemma_split_without_sep(front, sep);
        assert(s.last() != sep) by {
            assert(s[s.len() - 1] == s.last());
        }
        assert(seq![front].drop_last().push(front.push(s.last())) =~= seq![s]) by {
            assert(front.push(s.last()) =~= s);
        }
    } else {
        assert(s =~= Seq::<char>::empty());
    }
}

/// A field without the separator, put after a separator, is the last field of
/// the whole.
pub proof fn lemma_split_append_field(head: Seq<char>, field: Seq<char>, sep: char)
    requires
        !field.contains(sep),
    ensures
        split_spec(head.push(sep) + field, sep) == split_spec(head, sep).push(field),
    decreases field.len(),
{
    let whole = head.push(sep) + field;
    if field.len() == 0 {
        assert(whole =~= head.push(sep));
        assert(whole.drop_last() =~= head);
        assert(field =~= Seq::<char>::empty());
    } else {
        let front = field.drop_last();
        assert forall|c: char| front.contains(c) implies field.contains(c) by {
            let i = choose|i: int| 0 <= i < front.len() && front[i] == c;
            assert(field[i] == c);
        }
        lemma_split_append_field(head, front, sep);
        assert(whole.drop_last() =~= head.push(sep) + front);
        assert(whole.last() == field.last());
        assert(field.last() != sep) by {
            assert(field[field.len() - 1] == field.last());
        }
        let before = split_spec(head, sep).push(front);
        assert(before.drop_last() =~= split_spec(head, sep));
        assert(front.push(field.last()) =~= field);
    }
}

/// Splits `s` at every occurrence of `sep`.
pub fn split(s: &str, sep: char) -> (fields: Vec<String>)
    ensures
        views(fields@) == split_spec(s@, sep),
{
    let mut done: Vec<String> = Vec::new();
    let mut current = String::new();
    for c in it: s.chars()
        invariant
            it.seq() == s@,
            views(done@).push(current@) == split_spec(s@.take(it.index()), sep),
    {
        let ghost read = s@.take(it.index());
        let ghost next = s@.take(it.index() + 1);
        proof {
            assert(next.drop_last() =~= read);
            assert(next.last() == c);
        }
        if c == sep {
            let ghost before = views(done@);
            let ghost field = current@;
            done.push(current);
            current = String::new();
            assert(views(done@) =~= before.push(field));
        } else {
            current.push(c);
            assert(views(done@).push(current@) =~= split_spec(next, sep));
        }
    }
    assert(s@.take(s@.len() as int) =~= s@);
    let ghost before = views(done@);
    done.push(current);
    assert(views(done@) =~= before.push(current@));
    done
}

/// The character that stands for the digit `d`.
pub open spec fn digit_char(d: int) -> char {
    (d + 48) as char
}

pub open spec fn is_digit(c: char) -> bool {
    '0' <= c <= '9'
}

/// The digit that `c` stands for.
pub open spec fn digit_value(c: char) -> int {
    c as int - 48
}

pub open spec fn all_digits(s: Seq<char>) -> bool {
    forall|i: int| 0 <= i < s.len() ==> is_digit(#[trigger] s[i])
}

/// The number that a run of decimal digits denotes; leading zeros count for
/// nothing.
pub open spec fn digits_value(s: Seq<char>) -> nat
    decreases s.len(),
{
    if s.len() == 0 {
        0
    } else {
        (digits_value(s.drop_last()) * 10 + digit_value(s.last())) as nat
    }
}

/// `n` in decimal, without sign or leading zeros.
pub open spec fn decimal_spec(n: nat) -> Seq<char>
    decreases n,
{
    if n < 10 {
        seq![digit_char(n as int)]
    } else {
        decimal_spec(n / 10).push(digit_char((n % 10) as int))
    }
}

/// `s` without one leading plus sign.
pub open spec fn unsigned(s: Seq<char>) -> Seq<char> {
    if s.len() > 0 && s[0] == '+' {
        s.drop_first()
    } else {
        s
    }
}

/// The identifier that `s` denotes: an optional plus sign, then one or more
/// decimal digits whose value fits the machine word. Anything else denotes
/// none.
pub open spec fn parse_id_spec(s: Seq<char>) -> Option<usize> {
    let digits = unsigned(s);
    if digits.len() > 0 && all_digits(digits) && digits_value(digits) <= usize::MAX {
        Some(digits_value(digits) as usize)
    } else {
        None
    }
}

/// The decimal form of a number is made of digits only and denotes that
/// number.
pub proof fn lemma_decimal_digits(n: nat)
    ensures
        decimal_spec(n).len() >= 1,
        all_digits(decimal_spec(n)),
        digits_value(decimal_spec(n)) == n,
    decreases n,
{
    if n < 10 {
        let s = decimal_spec(n);
        assert(s.drop_last() =~= Seq::<char>::empty());
        assert(digits_value(s.drop_last()) == 0);
    } else {
        lemma_decimal_digits(n / 10);
        let s = decimal_spec(n);
        assert(s.drop_last() =~= decimal_spec(n / 10));
        assert(s.last() == digit_char((n % 10) as int));
    }
}

/// No character but a digit occurs in a decimal form.
pub proof fn lemma_decimal_lacks(n: nat, c: char)
    requires
        !is_digit(c),
    ensures
        !decimal_spec(n).contains(c),
{
    lemma_decimal_digits(n);
}

/// Reading back the decimal form of an identifier gives the identifier.
pub proof fn lemma_parse_decimal(n: usize)
    ensures
        parse_id_spec(decimal_spec(n as nat)) == Some(n),
{
    lemma_decimal_digits(n as nat);
    let s = decimal_spec(n as nat);
    assert(is_digit(s[0]));
}

/// A run of digits denotes at least what any of its prefixes denotes.
pub proof fn lemma_digits_value_prefix(s: Seq<char>, k: int)
    requires
        all_digits(s),
        0 <= k <= s.len(),
    ensures
        digits_value(s.take(k)) <= digits_value(s),
    decreases s.len(),
{
    if k == s.len() {
        assert(s.take(k) =~= s);
    } else {
        let front = s.drop_last();
        assert(all_digits(front)) by {
            assert forall|i: int| 0 <= i < front.len() implies is_digit(#[trigger] front[i]) by {
                assert(front[i] == s[i]);
            }
        }
        lemma_digits_value_prefix(front, k);
        assert(front.take(k) =~= s.take(k));
        assert(is_digit(s[s.len() - 1]));
    }
}

/// Appends the decimal form of `n` to `out`.
pub fn push_decimal(out: &mut String, n: usize)
    ensures
        final(out)@ == old(out)@ + decimal_spec(n as nat),
    decreases n,
{
    if n >= 10 {
        push_decimal(out, n / 10);
    }
    let digit: u8 = (n % 10) as u8;
    out.push((48u8 + digit) as char);
}

/// The decimal form of `n`.
pub fn decimal(n: usize) -> (text: String)
    ensures
        text@ == decimal_spec(n as nat),
{
    let mut text = String::new();
    push_decimal(&mut text, n);
    text
}

/// Reads an identifier: an optional plus sign, then decimal digits.
pub fn parse_id(text: &str) -> (id: Option<usize>)
    ensures
        id == parse_id_spec(text@),
{
    let mut value: usize = 0;
    let mut signed = false;
    let mut any = false;
    let mut first = true;
    for c in it: text.chars()
        invariant
            it.seq() == text@,
            first == (it.index() == 0),
            signed ==> it.index() >= 1 && text@[0] == '+',
            !signed && it.index() >= 1 ==> text@[0] != '+',
            any == (it.index() > (if signed { 1int } else { 0int })),
            all_digits(text@.subrange(if signed { 1int } else { 0int }, it.index())),
            value == digits_value(text@.subrange(if signed { 1int } else { 0int }, it.index())),
    {
        let ghost i = it.index();
        let ghost start = if signed { 1int } else { 0int };
        let ghost read = text@.subrange(start, i);
        if first && c == '+' {
            signed = true;
            first = false;
            assert(text@.subrange(1, 1) =~= Seq::<char>::empty());
        } else {
            let ghost next = text@.subrange(start, i + 1);
            proof {
                assert(next.drop_last() =~= read);
                assert(next.last() == c);
                assert(unsigned(text@) =~= text@.subrange(start, text@.len() as int));
                assert(unsigned(text@)[i - start] == c);
                assert(unsigned(text@).take(i + 1 - start) =~= next);
            }
            if !(c >= '0' && c <= '9') {
                return None;
            }
            let digit: usize = (c as u32 - 48) as usize;
            assert(all_digits(next));
            proof {
                if all_digits(unsigned(text@)) {
                    lemma_digits_value_prefix(unsigned(text@), i + 1 - start);
                }
            }
            if value > (usize::MAX - digit) / 10 {
                return None;
            }
            value = value * 10 + digit;
            any = true;
            first = false;
        }
    }
    proof {
        let start = if signed { 1int } else { 0int };
        assert(unsigned(text@) =~= text@.subrange(start, text@.len() as int));
    }
    if any {
        Some(value)
    } else {
        None
    }
}

} // verus!
