//! Decimal text for integers and fixed-point lengths.

use vstd::prelude::*;
use vstd::string::*;

verus! {

/// The character of one decimal digit.
pub open spec fn digit_char(d: int) -> char {
    if d == 0 {
        '0'
    } else if d == 1 {
        '1'
    } else if d == 2 {
        '2'
    } else if d == 3 {
        '3'
    } else if d == 4 {
        '4'
    } else if d == 5 {
        '5'
    } else if d == 6 {
        '6'
    } else if d == 7 {
        '7'
    } else if d == 8 {
        '8'
    } else {
        '9'
    }
}

/// The decimal numeral of `n`, without leading zeros.
pub open spec fn decimal(n: nat) -> Seq<char>
    decreases n,
{
    if n < 10 {
        seq![digit_char(n as int)]
    } else {
        decimal(n / 10).push(digit_char((n % 10) as int))
    }
}

/// The numeral of a fixed-point length with its two decimals: `-5` reads
/// `-0.05`, and `1250` reads `12.50`.
pub open spec fn hundredths(v: int) -> Seq<char> {
    let magnitude = if v < 0 {
        -v
    } else {
        v
    };
    let sign = if v < 0 {
        seq!['-']
    } else {
        Seq::<char>::empty()
    };
    sign + decimal((magnitude / 100) as nat) + seq![
        '.',
        digit_char((magnitude / 10) % 10),
        digit_char(magnitude % 10),
    ]
}

/// The digits that stand before the last one.
spec fn leading(n: nat) -> Seq<char> {
    if n == 0 {
        Seq::<char>::empty()
    } else {
        decimal(n)
    }
}

/// Digits stored least significant first, read most significant first.
spec fn reversed_digits(ds: Seq<u8>) -> Seq<char> {
    Seq::new(ds.len(), |j: int| digit_char(ds[ds.len() - 1 - j] as int))
}

fn digit_str(d: u8) -> (s: &'static str)
    requires
        d < 10,
    ensures
        s@ == seq![digit_char(d as int)],
{
    proof {
        reveal_strlit("0");
        reveal_strlit("1");
        reveal_strlit("2");
        reveal_strlit("3");
        reveal_strlit("4");
        reveal_strlit("5");
        reveal_strlit("6");
        reveal_strlit("7");
        reveal_strlit("8");
        reveal_strlit("9");
    }
    let s = if d == 0 {
        "0"
    } else if d == 1 {
        "1"
    } else if d == 2 {
        "2"
    } else if d == 3 {
        "3"
    } else if d == 4 {
        "4"
    } else if d == 5 {
        "5"
    } else if d == 6 {
        "6"
    } else if d == 7 {
        "7"
    } else if d == 8 {
        "8"
    } else {
        "9"
    };
    assert(s@ =~= seq![digit_char(d as int)]);
    s
}

/// Appends the decimal numeral of `n`.
pub fn push_decimal(buf: &mut String, n: u64)
    ensures
        final(buf)@ == old(buf)@ + decimal(n as nat),
{
    let mut digits: Vec<u8> = Vec::new();
    let mut rest: u64 = n / 10;
    digits.push((n % 10) as u8);
    assert(decimal(n as nat) =~= leading(rest as nat) + reversed_digits(digits@));
    while rest > 0
        invariant
            decimal(n as nat) == leading(rest as nat) + reversed_digits(digits@),
            forall|i: int| 0 <= i < digits.len() ==> digits[i] < 10,
            digits.len() >= 1,
        decreases rest,
    {
        let ghost before = digits@;
        let ghost old_rest = rest as nat;
        digits.push((rest % 10) as u8);
        rest = rest / 10;
        assert(leading(old_rest) + reversed_digits(before) =~= leading(rest as nat)
            + reversed_digits(digits@));
    }
    assert(decimal(n as nat) =~= reversed_digits(digits@));
    let mut i: usize = digits.len();
    while i > 0
        invariant
            i <= digits.len(),
            forall|k: int| 0 <= k < digits.len() ==> digits[k] < 10,
            buf@ == old(buf)@ + reversed_digits(digits@).take(digits.len() - i),
        decreases i,
    {
        i = i - 1;
        let ghost before = buf@;
        buf.append(digit_str(digits[i]));
        assert(buf@ =~= old(buf)@ + reversed_digits(digits@).take(digits.len() - i));
    }
    assert(reversed_digits(digits@).take(digits.len() as int) =~= reversed_digits(digits@));
}

/// Appends the numeral of a fixed-point length, with two decimals.
pub fn push_hundredths(buf: &mut String, v: i64)
    ensures
        final(buf)@ == old(buf)@ + hundredths(v as int),
{
    let magnitude: u64 = if v < 0 {
        buf.append("-");
        (-(v as i128)) as u64
    } else {
        v as u64
    };
    proof {
        reveal_strlit("-");
        reveal_strlit(".");
    }
    let ghost signed = buf@;
    push_decimal(buf, magnitude / 100);
    buf.append(".");
    buf.append(digit_str(((magnitude / 10) % 10) as u8));
    buf.append(digit_str((magnitude % 10) as u8));
    assert(buf@ =~= old(buf)@ + hundredths(v as int));
}

/// The numeral of a fixed-point length as short as it goes: no decimals
/// where there are none, one where the second is zero. `1250` reads
/// `12.5`, `1200` reads `12`, and `-5` reads `-0.05`.
pub open spec fn shortest(v: int) -> Seq<char> {
    let magnitude = if v < 0 {
        -v
    } else {
        v
    };
    let sign = if v < 0 {
        seq!['-']
    } else {
        Seq::<char>::empty()
    };
    let whole = decimal((magnitude / 100) as nat);
    if magnitude % 100 == 0 {
        sign + whole
    } else if magnitude % 10 == 0 {
        sign + whole + seq!['.', digit_char((magnitude / 10) % 10)]
    } else {
        sign + whole + seq!['.', digit_char((magnitude / 10) % 10), digit_char(magnitude % 10)]
    }
}

/// Appends the shortest numeral of a fixed-point length.
pub fn push_shortest(buf: &mut String, v: i64)
    ensures
        final(buf)@ == old(buf)@ + shortest(v as int),
{
    let magnitude: u64 = if v < 0 {
        buf.append("-");
        (-(v as i128)) as u64
    } else {
        v as u64
    };
    proof {
        reveal_strlit("-");
        reveal_strlit(".");
    }
    push_decimal(buf, magnitude / 100);
    if magnitude % 100 != 0 {
        buf.append(".");
        buf.append(digit_str(((magnitude / 10) % 10) as u8));
        if magnitude % 10 != 0 {
            buf.append(digit_str((magnitude % 10) as u8));
        }
    }
    assert(buf@ =~= old(buf)@ + shortest(v as int));
}

/// The items one after the other, with the separator between each two.
pub open spec fn join(items: Seq<Seq<char>>, separator: Seq<char>) -> Seq<char>
    decreases items.len(),
{
    if items.len() == 0 {
        Seq::<char>::empty()
    } else if items.len() == 1 {
        items[0]
    } else {
        join(items.drop_last(), separator) + separator + items.last()
    }
}

/// What one more item adds to a joined text.
pub proof fn lemma_join_push(items: Seq<Seq<char>>, item: Seq<char>, separator: Seq<char>)
    ensures
        join(items.push(item), separator) == if items.len() == 0 {
            item
        } else {
            join(items, separator) + separator + item
        },
{
    assert(items.push(item).drop_last() =~= items);
}

} // verus!
