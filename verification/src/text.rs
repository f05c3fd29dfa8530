use vstd::prelude::*;

verus! {

/// Characters admitted in identifiers that tokens embed (usernames, roles,
/// identifiers). The class excludes the field separator `'|'`, the double
/// quote and the backslash, so embedded fields never need escaping.
pub open spec fn plain_char(c: char) -> bool {
    ('a' <= c && c <= 'z') || ('A' <= c && c <= 'Z') || ('0' <= c && c <= '9') || c == '-' || c
        == '_' || c == '.'
}

/// A non-empty sequence of plain characters.
pub open spec fn plain_field(s: Seq<char>) -> bool {
    s.len() > 0 && forall|i: int| 0 <= i < s.len() ==> plain_char(#[trigger] s[i])
}

pub fn is_plain_char(c: char) -> (r: bool)
    ensures
        r == plain_char(c),
{
    ('a' <= c && c <= 'z') || ('A' <= c && c <= 'Z') || ('0' <= c && c <= '9') || c == '-' || c
        == '_' || c == '.'
}

/// Checks every character of `s` against the plain class.
pub fn is_plain_field(s: &str) -> (r: bool)
    ensures
        r == plain_field(s@),
{
    let n = s.unicode_len();
    if n == 0 {
        return false;
    }
    let mut i: usize = 0;
    while i < n
        invariant
            n == s@.len(),
            0 <= i <= n,
            forall|j: int| 0 <= j < i ==> plain_char(#[trigger] s@[j]),
        decreases n - i,
    {
        if !is_plain_char(s.get_char(i)) {
            return false;
        }
        i = i + 1;
    }
    true
}

pub open spec fn digit_val(c: char) -> nat {
    if c == '0' {
        0
    } else if c == '1' {
        1
    } else if c == '2' {
        2
    } else if c == '3' {
        3
    } else if c == '4' {
        4
    } else if c == '5' {
        5
    } else if c == '6' {
        6
    } else if c == '7' {
        7
    } else if c == '8' {
        8
    } else if c == '9' {
        9
    } else {
        10
    }
}

pub open spec fn is_digit(c: char) -> bool {
    digit_val(c) < 10
}

pub open spec fn digit_char(d: nat) -> char {
    if d == 0 {
        '0'
    } else if d == 1 {
        '1'
    } else if d == 2 {
        '2'
    } else if d == 3 {
        '3'
    } else if d == 4 {
        '4'
    } else if d == 5 {
        '5'
    } else if d == 6 {
        '6'
    } else if d == 7 {
        '7'
    } else if d == 8 {
        '8'
    } else {
        '9'
    }
}

/// The `width`-character, zero-padded decimal rendering of `n`.
pub open spec fn dec_fixed(n: nat, width: nat) -> Seq<char>
    decreases width,
{
    if width == 0 {
        Seq::empty()
    } else {
        dec_fixed(n / 10, (width - 1) as nat) + seq![digit_char(n % 10)]
    }
}

pub proof fn lemma_dec_fixed_len(n: nat, width: nat)
    ensures
        dec_fixed(n, width).len() == width,
        forall|i: int| 0 <= i < width ==> is_digit(#[trigger] dec_fixed(n, width)[i]),
    decreases width,
{
    if width > 0 {
        lemma_dec_fixed_len(n / 10, (width - 1) as nat);
    }
}

fn digit_str(d: u64) -> (r: &'static str)
    requires
        d < 10,
    ensures
        r@ =~= seq![digit_char(d as nat)],
{
    proof {
        reveal_strlit("0");
        reveal_strlit("1");
        reveal_strlit("2");
        reveal_strlit("3");
        reveal_strlit("4");
        reveal_strlit("5");
        reveal_strlit("6");
        reveal_strlit("7");
        reveal_strlit("8");
        reveal_strlit("9");
    }
    match d {
        0 => "0",
        1 => "1",
        2 => "2",
        3 => "3",
        4 => "4",
        5 => "5",
        6 => "6",
        7 => "7",
        8 => "8",
        _ => "9",
    }
}

/// Appends the `width`-digit zero-padded decimal rendering of `n` to `out`.
pub fn append_dec_fixed(out: &mut String, n: u64, width: u64)
    requires
        width <= 20,
    ensures
        final(out)@ == old(out)@ + dec_fixed(n as nat, width as nat),
    decreases width,
{
    if width == 0 {
        assert(final(out)@ =~= old(out)@ + dec_fixed(n as nat, 0));
    } else {
        append_dec_fixed(out, n / 10, width - 1);
        let d = n % 10;
        out.append(digit_str(d));
        assert(final(out)@ =~= old(out)@ + dec_fixed(n as nat, width as nat));
    }
}

pub open spec fn dec_val(s: Seq<char>) -> nat
    decreases s.len(),
{
    if s.len() == 0 {
        0
    } else {
        dec_val(s.drop_last()) * 10 + digit_val(s.last())
    }
}

/// Reading back a fixed-width rendering recovers the value.
pub proof fn lemma_dec_val_of_fixed(n: nat, width: nat)
    requires
        n < vstd::arithmetic::power::pow(10, width),
    ensures
        dec_val(dec_fixed(n, width)) == n,
    decreases width,
{
    reveal(vstd::arithmetic::power::pow);
    if width == 0 {
        assert(vstd::arithmetic::power::pow(10, 0) == 1);
    } else {
        assert(vstd::arithmetic::power::pow(10, width) == 10 * vstd::arithmetic::power::pow(
            10,
            (width - 1) as nat,
        ));
        lemma_dec_fixed_len(n / 10, (width - 1) as nat);
        let s = dec_fixed(n, width);
        assert(s.drop_last() =~= dec_fixed(n / 10, (width - 1) as nat));
        assert(s.last() == digit_char(n % 10));
        assert(digit_val(digit_char(n % 10)) == n % 10) by {
            assert(n % 10 < 10);
        }
        lemma_dec_val_of_fixed(n / 10, (width - 1) as nat);
        assert(n == (n / 10) * 10 + n % 10);
    }
}

/// A string of exactly `width` digit characters is the fixed-width rendering
/// of its own value.
pub proof fn lemma_dec_fixed_of_val(s: Seq<char>, width: nat)
    requires
        s.len() == width,
        forall|i: int| 0 <= i < s.len() ==> is_digit(#[trigger] s[i]),
    ensures
        dec_fixed(dec_val(s), width) == s,
    decreases width,
{
    if width == 0 {
        assert(dec_fixed(dec_val(s), 0) =~= s);
    } else {
        let s2 = s.drop_last();
        let d = digit_val(s.last());
        let q = dec_val(s2);
        assert(is_digit(s.last()));
        assert(dec_val(s) == q * 10 + d);
        vstd::arithmetic::div_mod::lemma_fundamental_div_mod_converse(
            dec_val(s) as int,
            10,
            q as int,
            d as int,
        );
        assert(dec_val(s) % 10 == d);
        assert(dec_val(s) / 10 == q);
        lemma_dec_fixed_of_val(s2, (width - 1) as nat);
        assert(digit_char(d) == s.last());
        assert(dec_fixed(dec_val(s), width) =~= s);
    }
}

fn digit_of(c: char) -> (r: u64)
    ensures
        r == digit_val(c),
{
    match c {
        '0' => 0,
        '1' => 1,
        '2' => 2,
        '3' => 3,
        '4' => 4,
        '5' => 5,
        '6' => 6,
        '7' => 7,
        '8' => 8,
        '9' => 9,
        _ => 10,
    }
}

/// Reads `s` as an all-digit string of at most 18 characters, returning its
/// decimal value. Rejects any other shape.
pub fn parse_digits(s: &str) -> (r: Option<u64>)
    ensures
        r matches Some(v) ==> s@.len() <= 18 && (forall|i: int|
            0 <= i < s@.len() ==> is_digit(#[trigger] s@[i])) && v == dec_val(s@),
        r is None ==> s@.len() > 18 || exists|i: int| 0 <= i < s@.len() && !is_digit(
            #[trigger] s@[i],
        ),
{
    let n = s.unicode_len();
    if n > 18 {
        return None;
    }
    let mut i: usize = 0;
    let mut v: u64 = 0;
    proof {
        reveal(vstd::arithmetic::power::pow);
    }
    while i < n
        invariant
            n == s@.len() <= 18,
            0 <= i <= n,
            forall|j: int| 0 <= j < i ==> is_digit(#[trigger] s@[j]),
            v == dec_val(s@.subrange(0, i as int)),
            v < vstd::arithmetic::power::pow(10, i as nat),
        decreases n - i,
    {
        let c = s.get_char(i);
        let d = digit_of(c);
        if d >= 10 {
            return None;
        }
        proof {
            reveal(vstd::arithmetic::power::pow);
            lemma_pow10_le_18(i as nat);
            assert(s@.subrange(0, i + 1).drop_last() =~= s@.subrange(0, i as int));
            assert(s@.subrange(0, i + 1).last() == s@[i as int]);
        }
        v = v * 10 + d;
        i = i + 1;
    }
    proof {
        assert(s@.subrange(0, n as int) =~= s@);
    }
    Some(v)
}

proof fn lemma_pow10_le_18(k: nat)
    requires
        k <= 18,
    ensures
        vstd::arithmetic::power::pow(10, k) <= 1000000000000000000,
{
    vstd::arithmetic::power::lemma_pow_increases(10, k, 18);
    assert(vstd::arithmetic::power::pow(10, 18) == 1000000000000000000) by {
        reveal_with_fuel(vstd::arithmetic::power::pow, 19);
    }
}

/// All positions of `c` in `data`, in increasing order.
pub fn char_positions(data: &str, c: char) -> (r: Vec<usize>)
    ensures
        forall|k: int| 0 <= k < r@.len() ==> r@[k] < data@.len() && data@[r@[k] as int] == c,
        forall|k1: int, k2: int| 0 <= k1 < k2 < r@.len() ==> r@[k1] < r@[k2],
        forall|j: int|
            0 <= j < data@.len() && data@[j] == c ==> exists|k: int|
                0 <= k < r@.len() && r@[k] == j,
{
    let n = data.unicode_len();
    let mut r: Vec<usize> = Vec::new();
    let mut i: usize = 0;
    while i < n
        invariant
            n == data@.len(),
            0 <= i <= n,
            forall|k: int| 0 <= k < r@.len() ==> r@[k] < i && data@[r@[k] as int] == c,
            forall|k1: int, k2: int| 0 <= k1 < k2 < r@.len() ==> r@[k1] < r@[k2],
            forall|j: int|
                0 <= j < i && data@[j] == c ==> exists|k: int| 0 <= k < r@.len() && r@[k] == j,
        decreases n - i,
    {
        let ghost r_old = r@;
        if data.get_char(i) == c {
            r.push(i);
        }
        proof {
            assert forall|j: int| 0 <= j < i + 1 && data@[j] == c implies exists|k: int|
                0 <= k < r@.len() && r@[k] == j by {
                if j < i {
                    let k0 = choose|k: int| 0 <= k < r_old.len() && r_old[k] == j;
                    assert(r@[k0] == j);
                } else {
                    assert(r@[r@.len() - 1] == i);
                }
            }
        }
        i = i + 1;
    }
    r
}

} // verus!
