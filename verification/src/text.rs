//! Building text: characters, decimal numbers and symbol names.
use vstd::prelude::*;

verus! {

/// Appends `c` to `s` with `String::push`, which std documents as adding the
/// character at the end of the string and changing nothing else.
#[verifier::external_body]
pub(crate) fn push_char(s: &mut String, c: char)
    ensures
        final(s)@ == old(s)@.push(c),
{
    s.push(c);
}

/// The character of the decimal digit `d`.
pub open spec fn digit(d: nat) -> char {
    if d == 0 { '0' }
    else if d == 1 { '1' }
    else if d == 2 { '2' }
    else if d == 3 { '3' }
    else if d == 4 { '4' }
    else if d == 5 { '5' }
    else if d == 6 { '6' }
    else if d == 7 { '7' }
    else if d == 8 { '8' }
    else { '9' }
}

/// `n` written in decimal, without leading zeros.
pub open spec fn decimal(n: nat) -> Seq<char>
    decreases n,
{
    if n < 10 {
        seq![digit(n)]
    } else {
        decimal(n / 10).push(digit(n % 10))
    }
}

/// `v` written in decimal, with a minus sign when it is negative.
pub open spec fn signed_decimal(v: int) -> Seq<char> {
    if v < 0 {
        seq!['-'] + decimal((-v) as nat)
    } else {
        decimal(v as nat)
    }
}

/// The number that a string of decimal digits spells out, most
/// significant digit first.
pub open spec fn digits_value(s: Seq<char>) -> int
    decreases s.len(),
{
    if s.len() == 0 {
        0
    } else {
        10 * digits_value(s.drop_last()) + (s.last() as int - '0' as int)
    }
}

/// Whether every character of `s` is one of `0` to `9`.
pub open spec fn all_digits(s: Seq<char>) -> bool {
    forall|i: int| 0 <= i < s.len() ==> '0' <= #[trigger] s[i] <= '9'
}

proof fn lemma_digit_value(d: nat)
    requires
        d < 10,
    ensures
        digit(d) as int - '0' as int == d,
        '0' <= digit(d) <= '9',
{
}

/// The decimal text of `n` is a non-empty string of digits that reads back
/// as `n`, and it starts with `0` only when `n` is 0.
pub proof fn lemma_decimal_reads_back(n: nat)
    ensures
        decimal(n).len() > 0,
        all_digits(decimal(n)),
        digits_value(decimal(n)) == n,
        decimal(n)[0] == '0' ==> n == 0,
    decreases n,
{
    lemma_digit_value(n % 10);
    let s = decimal(n);
    if n < 10 {
        assert(s.drop_last() =~= Seq::<char>::empty());
        assert(digits_value(Seq::<char>::empty()) == 0);
        assert(s.last() == digit(n));
        assert(n % 10 == n);
    } else {
        lemma_decimal_reads_back(n / 10);
        assert(s.drop_last() =~= decimal(n / 10));
        assert(s.last() == digit(n % 10));
        assert(s[0] == decimal(n / 10)[0]);
        assert(10 * (n / 10) + n % 10 == n);
    }
    assert(digits_value(s) == 10 * digits_value(s.drop_last()) + (s.last() as int - '0' as int));
}

/// The decimal text of a signed number: a minus sign exactly when it is
/// negative, followed by the digits of its magnitude.
pub proof fn lemma_signed_decimal_reads_back(v: int)
    ensures
        v < 0 ==> signed_decimal(v)[0] == '-' && signed_decimal(v).drop_first() == decimal(
            (-v) as nat,
        ),
        v >= 0 ==> signed_decimal(v) == decimal(v as nat),
        v < 0 ==> digits_value(signed_decimal(v).drop_first()) == -v,
        v >= 0 ==> digits_value(signed_decimal(v)) == v,
{
    if v < 0 {
        lemma_decimal_reads_back((-v) as nat);
        assert(signed_decimal(v).drop_first() =~= decimal((-v) as nat));
    } else {
        lemma_decimal_reads_back(v as nat);
    }
}

fn digit_char(d: u64) -> (c: char)
    requires
        d < 10,
    ensures
        c == digit(d as nat),
{
    match d {
        0 => '0',
        1 => '1',
        2 => '2',
        3 => '3',
        4 => '4',
        5 => '5',
        6 => '6',
        7 => '7',
        8 => '8',
        _ => '9',
    }
}

/// Appends `n` in decimal.
pub fn push_decimal(s: &mut String, n: u64)
    ensures
        final(s)@ == old(s)@ + decimal(n as nat),
    decreases n,
{
    if n >= 10 {
        push_decimal(s, n / 10);
    }
    push_char(s, digit_char(n % 10));
    proof {
        if n >= 10 {
            assert(old(s)@ + decimal(n as nat) =~= old(s)@ + decimal((n / 10) as nat) + seq![digit((n % 10) as nat)]);
        } else {
            assert(old(s)@ + decimal(n as nat) =~= old(s)@.push(digit(n as nat)));
        }
    }
}

/// Appends `v` in decimal, with a minus sign when it is negative.
pub fn push_signed_decimal(s: &mut String, v: i64)
    ensures
        final(s)@ == old(s)@ + signed_decimal(v as int),
{
    if v < 0 {
        push_char(s, '-');
        let magnitude: u64 = if v == i64::MIN { 0x8000_0000_0000_0000 } else { (-v) as u64 };
        push_decimal(s, magnitude);
        assert(final(s)@ =~= old(s)@ + signed_decimal(v as int));
    } else {
        push_decimal(s, v as u64);
    }
}

/// The symbol name with each `.` replaced by `_`, which makes it a C identifier.
pub open spec fn spec_transform_name(name: Seq<char>) -> Seq<char> {
    name.map_values(|c: char| if c == '.' { '_' } else { c })
}

/// The transformed name has the same length, holds no `.`, keeps every
/// other character, and transforming it again changes nothing.
pub proof fn lemma_transform_name(name: Seq<char>)
    ensures
        spec_transform_name(name).len() == name.len(),
        forall|i: int| 0 <= i < name.len() ==> #[trigger] spec_transform_name(name)[i] != '.',
        forall|i: int|
            0 <= i < name.len() && name[i] != '.' ==> #[trigger] spec_transform_name(name)[i]
                == name[i],
        spec_transform_name(spec_transform_name(name)) == spec_transform_name(name),
{
    assert(spec_transform_name(spec_transform_name(name)) =~= spec_transform_name(name));
}

/// Replaces each `.` of `name` by `_`.
pub fn transform_name(name: &str) -> (r: String)
    ensures
        r@ == spec_transform_name(name@),
{
    let n = name.unicode_len();
    let mut out = String::new();
    let mut i: usize = 0;
    while i < n
        invariant
            n == name@.len(),
            i <= n,
            out@ == spec_transform_name(name@.take(i as int)),
        decreases n - i,
    {
        let c = name.get_char(i);
        if c == '.' {
            push_char(&mut out, '_');
        } else {
            push_char(&mut out, c);
        }
        assert(name@.take(i + 1) =~= name@.take(i as int).push(c));
        assert(spec_transform_name(name@.take(i + 1)) =~= spec_transform_name(name@.take(i as int)).push(
            if c == '.' { '_' } else { c },
        ));
        i += 1;
    }
    assert(name@.take(n as int) =~= name@);
    out
}

} // verus!
