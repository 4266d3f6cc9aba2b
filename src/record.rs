//! The textual wire format of a password hash record:
//! `<iterations>:<salt>:<derived key>`, each binary field in base64.

use vstd::prelude::*;
use vstd::slice::slice_subrange;

verus! {

/// The byte that separates the fields of a record.
pub const FIELD_SEPARATOR: u8 = 58;

/// The fields of `s`, split at every separator byte (as `str::split` does).
pub open spec fn split_fields(s: Seq<u8>) -> Seq<Seq<u8>>
    decreases s.len(),
{
    if s.len() == 0 {
        seq![Seq::empty()]
    } else {
        let init = split_fields(s.drop_last());
        if s.last() == FIELD_SEPARATOR {
            init.push(Seq::empty())
        } else {
            init.update(init.len() - 1, init.last().push(s.last()))
        }
    }
}

pub open spec fn is_digit(b: u8) -> bool {
    48 <= b <= 57
}

/// A non-empty run of ASCII decimal digits.
pub open spec fn is_decimal(s: Seq<u8>) -> bool {
    s.len() > 0 && forall|i: int| 0 <= i < s.len() ==> is_digit(#[trigger] s[i])
}

/// The number that a run of decimal digits denotes.
pub open spec fn decimal_value(s: Seq<u8>) -> nat
    decreases s.len(),
{
    if s.len() == 0 {
        0
    } else {
        decimal_value(s.drop_last()) * 10 + (s.last() - 48) as nat
    }
}

/// The byte `+`.
pub const PLUS: u8 = 43;

/// An unsigned number as `str::parse` reads it: an optional `+`, then
/// decimal digits, with a value no greater than `max`.
pub open spec fn unsigned_value(s: Seq<u8>, max: u64) -> Option<u64> {
    if s.len() > 0 && s[0] == PLUS {
        bounded_decimal(s.skip(1), max)
    } else {
        bounded_decimal(s, max)
    }
}

/// The iteration count that a field denotes: a positive number that fits in
/// 32 bits, written as `str::parse` reads it (an optional `+`, then digits).
pub open spec fn iteration_count(s: Seq<u8>) -> Option<u32> {
    match unsigned_value(s, 4_294_967_295) {
        Some(n) => if n > 0 {
            Some(n as u32)
        } else {
            None
        },
        None => None,
    }
}

pub proof fn lemma_split_fields_nonempty(s: Seq<u8>)
    ensures
        split_fields(s).len() >= 1,
    decreases s.len(),
{
    if s.len() > 0 {
        lemma_split_fields_nonempty(s.drop_last());
    }
}

/// A longer run of digits never denotes a smaller number.
pub proof fn lemma_decimal_value_prefix(s: Seq<u8>, k: int)
    requires
        0 <= k <= s.len(),
        forall|i: int| 0 <= i < s.len() ==> is_digit(#[trigger] s[i]),
    ensures
        decimal_value(s.take(k)) <= decimal_value(s),
    decreases s.len(),
{
    if k < s.len() {
        assert(s.drop_last().take(k) =~= s.take(k));
        lemma_decimal_value_prefix(s.drop_last(), k);
    } else {
        assert(s.take(k) =~= s);
    }
}

pub open spec fn has_no_separator(x: Seq<u8>) -> bool {
    forall|i: int| 0 <= i < x.len() ==> #[trigger] x[i] != FIELD_SEPARATOR
}

/// Appending bytes without a separator extends the last field.
pub proof fn lemma_split_fields_append(p: Seq<u8>, x: Seq<u8>)
    requires
        has_no_separator(x),
    ensures
        split_fields(p + x) == split_fields(p).update(
            split_fields(p).len() - 1,
            split_fields(p).last() + x,
        ),
    decreases x.len(),
{
    lemma_split_fields_nonempty(p);
    let f = split_fields(p);
    if x.len() == 0 {
        assert(p + x =~= p);
        assert(f.last() + x =~= f.last());
        assert(f.update(f.len() - 1, f.last() + x) =~= f);
    } else {
        lemma_split_fields_append(p, x.drop_last());
        assert((p + x).drop_last() =~= p + x.drop_last());
        assert((f.last() + x.drop_last()).push(x.last()) =~= f.last() + x);
        assert(split_fields(p + x) =~= f.update(f.len() - 1, f.last() + x));
    }
}

/// Three separator-free fields joined by separators split back into them.
pub proof fn lemma_split_three_fields(a: Seq<u8>, b: Seq<u8>, c: Seq<u8>)
    requires
        has_no_separator(a),
        has_no_separator(b),
        has_no_separator(c),
    ensures
        split_fields(a + seq![FIELD_SEPARATOR] + b + seq![FIELD_SEPARATOR] + c) == seq![a, b, c],
{
    let e = Seq::<u8>::empty();
    lemma_split_fields_append(e, a);
    assert(e + a =~= a);
    assert(split_fields(a) =~= seq![a]);
    let a1 = a + seq![FIELD_SEPARATOR];
    assert(a1.drop_last() =~= a);
    assert(split_fields(a1) =~= seq![a, e]);
    lemma_split_fields_append(a1, b);
    assert(seq![a, e].update(1, e + b) =~= seq![a, b]);
    let b1 = a1 + b + seq![FIELD_SEPARATOR];
    assert(b1.drop_last() =~= a1 + b);
    assert(split_fields(b1) =~= seq![a, b, e]);
    lemma_split_fields_append(b1, c);
    assert(seq![a, b, e].update(2, e + c) =~= seq![a, b, c]);
}

/// Splits `s` at every separator byte.
pub fn split_record_fields(s: &[u8]) -> (r: Vec<Vec<u8>>)
    ensures
        r.deep_view() == split_fields(s@),
{
    let mut fields: Vec<Vec<u8>> = Vec::new();
    let mut current: Vec<u8> = Vec::new();
    let mut i: usize = 0;
    while i < s.len()
        invariant
            0 <= i <= s@.len(),
            fields.deep_view().push(current@) == split_fields(s@.take(i as int)),
        decreases s.len() - i,
    {
        proof {
            assert(s@.take(i as int + 1).drop_last() =~= s@.take(i as int));
            lemma_split_fields_nonempty(s@.take(i as int));
        }
        let b = s[i];
        if b == FIELD_SEPARATOR {
            let ghost before = fields.deep_view();
            let ghost finished = current@;
            assert(current.deep_view() =~= finished);
            let done = current;
            current = Vec::new();
            fields.push(done);
            assert(fields.deep_view() =~= before.push(finished));
            assert(fields.deep_view().push(current@) =~= split_fields(s@.take(i as int + 1)));
        } else {
            current.push(b);
            assert(fields.deep_view().push(current@) =~= split_fields(s@.take(i as int + 1)));
        }
        i = i + 1;
    }
    let ghost before = fields.deep_view();
    let ghost last = current@;
    assert(current.deep_view() =~= last);
    fields.push(current);
    assert(fields.deep_view() =~= before.push(last));
    assert(s@.take(s@.len() as int) =~= s@);
    fields
}

/// The number that `s` denotes if it is a run of decimal digits whose value
/// is at most `max`.
pub open spec fn bounded_decimal(s: Seq<u8>, max: u64) -> Option<u64> {
    if is_decimal(s) && decimal_value(s) <= max {
        Some(decimal_value(s) as u64)
    } else {
        None
    }
}

/// Reads a run of decimal digits whose value is at most `max`.
pub fn parse_decimal(s: &[u8], max: u64) -> (r: Option<u64>)
    ensures
        r == bounded_decimal(s@, max),
{
    if s.len() == 0 {
        return None;
    }
    let mut value: u64 = 0;
    let mut i: usize = 0;
    while i < s.len()
        invariant
            0 <= i <= s@.len(),
            forall|j: int| 0 <= j < i ==> is_digit(#[trigger] s@[j]),
            value == decimal_value(s@.take(i as int)),
            value <= max,
        decreases s.len() - i,
    {
        let b = s[i];
        assert(s@.take(i as int + 1).drop_last() =~= s@.take(i as int));
        if b < 48 || b > 57 {
            return None;
        }
        let digit = (b - 48) as u64;
        if digit > max || value > (max - digit) / 10 {
            proof {
                if digit <= max {
                    assert(value * 10 + digit > max) by (nonlinear_arith)
                        requires
                            digit <= max,
                            value > (max - digit) / 10,
                    ;
                }
                if is_decimal(s@) {
                    lemma_decimal_value_prefix(s@, i as int + 1);
                }
            }
            return None;
        }
        assert(value * 10 + digit <= max) by (nonlinear_arith)
            requires
                digit <= max,
                value <= (max - digit) / 10,
        ;
        value = value * 10 + digit;
        i = i + 1;
    }
    assert(s@.take(s@.len() as int) =~= s@);
    Some(value)
}

/// Reads an unsigned number: an optional `+`, then digits, at most `max`.
pub fn parse_unsigned(s: &[u8], max: u64) -> (r: Option<u64>)
    ensures
        r == unsigned_value(s@, max),
{
    if s.len() > 0 && s[0] == PLUS {
        let rest = slice_subrange(s, 1, s.len());
        assert(rest@ =~= s@.skip(1));
        parse_decimal(rest, max)
    } else {
        parse_decimal(s, max)
    }
}

/// Reads an iteration count: a positive number that fits in 32 bits, with an
/// optional leading `+`.
pub fn parse_iteration_count(s: &[u8]) -> (r: Option<u32>)
    ensures
        r == iteration_count(s@),
{
    match parse_unsigned(s, 4_294_967_295) {
        Some(v) => if v > 0 {
            Some(v as u32)
        } else {
            None
        },
        None => None,
    }
}

/// The decimal digit character for `d < 10`.
pub open spec fn digit_char(d: nat) -> char {
    ((d + 48) as u8) as char
}

/// The decimal text of `n`, without leading zeros.
pub open spec fn decimal_text(n: nat) -> Seq<char>
    decreases n,
{
    if n < 10 {
        seq![digit_char(n)]
    } else {
        decimal_text(n / 10).push(digit_char(n % 10))
    }
}

/// Decimal text reads back as the number it was written from.
pub proof fn lemma_decimal_text_round_trip(n: nat)
    ensures
        forall|i: int|
            0 <= i < decimal_text(n).len() ==> '0' <= #[trigger] decimal_text(n)[i] <= '9',
        is_decimal(Seq::new(decimal_text(n).len(), |i: int| decimal_text(n)[i] as u8)),
        decimal_value(Seq::new(decimal_text(n).len(), |i: int| decimal_text(n)[i] as u8)) == n,
    decreases n,
{
    let t = decimal_text(n);
    let b = Seq::new(t.len(), |i: int| t[i] as u8);
    let d = n % 10;
    assert(digit_char(d) as u8 == d + 48);
    if n < 10 {
        assert(b.drop_last() =~= Seq::<u8>::empty());
        assert(b.last() == n + 48);
    } else {
        lemma_decimal_text_round_trip(n / 10);
        let h = decimal_text(n / 10);
        assert(b.drop_last() =~= Seq::new(h.len(), |i: int| h[i] as u8));
        assert(b.last() == d + 48);
        assert((n / 10) * 10 + d == n);
    }
    assert(decimal_value(b) == decimal_value(b.drop_last()) * 10 + (b.last() - 48) as nat);
}

/// The one-character text of the decimal digit `d`.
fn digit_text(d: u32) -> (r: &'static str)
    requires
        d < 10,
    ensures
        r@ == seq![digit_char(d as nat)],
{
    proof {
        reveal_strlit("0");
        reveal_strlit("1");
        reveal_strlit("2");
        reveal_strlit("3");
        reveal_strlit("4");
        reveal_strlit("5");
        reveal_strlit("6");
        reveal_strlit("7");
        reveal_strlit("8");
        reveal_strlit("9");
    }
    let r = match d {
        0 => "0",
        1 => "1",
        2 => "2",
        3 => "3",
        4 => "4",
        5 => "5",
        6 => "6",
        7 => "7",
        8 => "8",
        _ => "9",
    };
    assert(r@ =~= seq![digit_char(d as nat)]);
    r
}

/// Appends the decimal text of `n` to `out`.
pub fn append_decimal(out: &mut String, n: u32)
    ensures
        final(out)@ == old(out)@ + decimal_text(n as nat),
    decreases n,
{
    if n >= 10 {
        append_decimal(out, n / 10);
    }
    out.append(digit_text(n % 10));
    assert(final(out)@ =~= old(out)@ + decimal_text(n as nat));
}

} // verus!
