//! Text building blocks shared by the generators: decimal rendering, character
//! replacement and suffix tests, all stated over `Seq<char>`.
use vstd::prelude::*;
use vstd::string::*;

verus! {

pub assume_specification[ std::string::String::push ](s: &mut String, ch: char)
    ensures
        final(s)@ == old(s)@.push(ch),
;

/// The character of a decimal digit.
pub open spec fn digit_char(d: nat) -> char {
    if d == 0 { '0' }
    else if d == 1 { '1' }
    else if d == 2 { '2' }
    else if d == 3 { '3' }
    else if d == 4 { '4' }
    else if d == 5 { '5' }
    else if d == 6 { '6' }
    else if d == 7 { '7' }
    else if d == 8 { '8' }
    else { '9' }
}

/// The decimal representation of `n`, most significant digit first, without
/// leading zeros (`0` is written as a single `0`).
pub open spec fn decimal(n: nat) -> Seq<char>
    decreases n,
{
    if n < 10 {
        seq![digit_char(n)]
    } else {
        decimal(n / 10).push(digit_char(n % 10))
    }
}

fn digit(d: u8) -> (c: char)
    requires
        d < 10,
    ensures
        c == digit_char(d as nat),
{
    match d {
        0 => '0',
        1 => '1',
        2 => '2',
        3 => '3',
        4 => '4',
        5 => '5',
        6 => '6',
        7 => '7',
        8 => '8',
        _ => '9',
    }
}

/// Appends the decimal representation of `n` to `s`.
pub fn push_decimal(s: &mut String, n: u128)
    ensures
        final(s)@ == old(s)@ + decimal(n as nat),
    decreases n,
{
    if n >= 10 {
        push_decimal(s, n / 10);
    }
    let d = (n % 10) as u8;
    s.push(digit(d));
    assert(s@ == old(s)@ + decimal(n as nat)) by {
        if n >= 10 {
            assert(old(s)@ + decimal(n as nat) =~= (old(s)@ + decimal((n / 10) as nat)).push(digit_char((n % 10) as nat)));
        } else {
            assert(old(s)@ + decimal(n as nat) =~= old(s)@.push(digit_char(n as nat)));
        }
    }
}

/// `s` with every `-` replaced by `_`.
pub open spec fn replace_dashes(s: Seq<char>) -> Seq<char> {
    s.map_values(|c: char| if c == '-' { '_' } else { c })
}

/// Replacing dashes keeps the length and changes each character on its own:
/// every `-` becomes `_`, every other character stays, so no `-` is left.
pub proof fn lemma_replace_dashes(s: Seq<char>)
    ensures
        replace_dashes(s).len() == s.len(),
        forall|i: int|
            0 <= i < s.len() ==> #[trigger] replace_dashes(s)[i] == (if s[i] == '-' {
                '_'
            } else {
                s[i]
            }),
        forall|i: int| 0 <= i < s.len() ==> #[trigger] replace_dashes(s)[i] != '-',
{
}

/// Returns `s` with every `-` replaced by `_`.
pub fn replace_dashes_of(s: &str) -> (r: String)
    ensures
        r@ == replace_dashes(s@),
{
    let n = s.unicode_len();
    let mut r = String::new();
    let mut i: usize = 0;
    while i < n
        invariant
            n == s@.len(),
            i <= n,
            r@ =~= replace_dashes(s@).take(i as int),
        decreases n - i,
    {
        let c = s.get_char(i);
        if c == '-' {
            r.push('_');
        } else {
            r.push(c);
        }
        assert(replace_dashes(s@).take(i + 1) =~= replace_dashes(s@).take(i as int).push(
            replace_dashes(s@)[i as int],
        ));
        i = i + 1;
    }
    assert(replace_dashes(s@).take(n as int) =~= replace_dashes(s@));
    r
}

/// The texts of a sequence of strings.
pub open spec fn texts(v: Seq<String>) -> Seq<Seq<char>> {
    v.map_values(|s: String| s@)
}

/// Appends a copy of `s` to `v`.
pub fn push_text(v: &mut Vec<String>, s: &str)
    ensures
        final(v)@ == old(v)@.push(final(v)@.last()),
        final(v)@.last()@ == s@,
        texts(final(v)@) == texts(old(v)@).push(s@),
{
    v.push(String::from_str(s));
    assert(texts(v@) =~= texts(old(v)@).push(s@));
}

} // verus!
