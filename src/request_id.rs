//! Identifiers of calls in flight on one connection: random numbers of at
//! most 53 bits, written in decimal, never two alike among those in flight.
use vstd::prelude::*;
use vstd::set_lib::{lemma_int_range, lemma_len_subset, lemma_map_size, set_int_range};

verus! {

/// The low 53 bits: identifiers fit in a double-precision float exactly.
pub const REQUEST_ID_MASK: u64 = 0x001f_ffff_ffff_ffff;

/// The decimal digit `d`.
pub open spec fn digit_char(d: nat) -> char {
    seq!['0', '1', '2', '3', '4', '5', '6', '7', '8', '9'][d as int]
}

/// `n` written in decimal, without leading zeros.
pub open spec fn decimal(n: nat) -> Seq<char>
    decreases n,
{
    if n < 10 {
        seq![digit_char(n)]
    } else {
        decimal(n / 10).push(digit_char(n % 10))
    }
}

proof fn lemma_decimal_len(n: nat)
    ensures
        decimal(n).len() >= 1,
        n >= 10 ==> decimal(n).len() >= 2,
    decreases n,
{
    if n >= 10 {
        lemma_decimal_len(n / 10);
    }
}

/// Two numbers with the same decimal form are equal.
pub proof fn lemma_decimal_injective(a: nat, b: nat)
    requires
        decimal(a) == decimal(b),
    ensures
        a == b,
    decreases a,
{
    lemma_decimal_len(a);
    lemma_decimal_len(b);
    if a < 10 && b < 10 {
        assert(decimal(a)[0] == digit_char(a));
        assert(decimal(b)[0] == digit_char(b));
    } else if a >= 10 && b >= 10 {
        let da = decimal(a);
        let db = decimal(b);
        assert(da.last() == digit_char(a % 10));
        assert(db.last() == digit_char(b % 10));
        assert(a % 10 == b % 10);
        assert(da.drop_last() =~= decimal(a / 10));
        assert(db.drop_last() =~= decimal(b / 10));
        lemma_decimal_injective(a / 10, b / 10);
    }
}

/// Among the decimal forms of `0..=n`, one is missing from any set of at most
/// `n` strings.
pub proof fn lemma_free_decimal_exists(taken: Set<Seq<char>>, n: nat)
    requires
        taken.finite(),
        taken.len() <= n,
    ensures
        exists|c: nat| c <= n && !taken.contains(decimal(c)),
{
    if forall|c: nat| c <= n ==> taken.contains(#[trigger] decimal(c)) {
        let range = set_int_range(0, n as int + 1);
        let f = |i: int| decimal(i as nat);
        lemma_int_range(0, n as int + 1);
        assert forall|x: int, y: int|
            range.contains(x) && range.contains(y) && #[trigger] f(x) == #[trigger] f(y) implies x
            == y by {
            lemma_decimal_injective(x as nat, y as nat);
        }
        lemma_map_size(range, range.map(f), f);
        assert forall|s: Seq<char>| range.map(f).contains(s) implies taken.contains(s) by {
            let i = choose|i: int| range.contains(i) && f(i) == s;
            assert(taken.contains(decimal(i as nat)));
        }
        lemma_len_subset(range.map(f), taken);
    }
}

/// The decimal digit `d` as a string.
fn digit_str(d: u64) -> (r: &'static str)
    requires
        d < 10,
    ensures
        r@ == seq![digit_char(d as nat)],
{
    proof {
        reveal_strlit("0");
        reveal_strlit("1");
        reveal_strlit("2");
        reveal_strlit("3");
        reveal_strlit("4");
        reveal_strlit("5");
        reveal_strlit("6");
        reveal_strlit("7");
        reveal_strlit("8");
        reveal_strlit("9");
    }
    let r = match d {
        0 => "0",
        1 => "1",
        2 => "2",
        3 => "3",
        4 => "4",
        5 => "5",
        6 => "6",
        7 => "7",
        8 => "8",
        _ => "9",
    };
    assert(r@ =~= seq![digit_char(d as nat)]);
    r
}

/// `n` in decimal.
pub fn decimal_string(n: u64) -> (r: String)
    ensures
        r@ == decimal(n as nat),
    decreases n,
{
    if n < 10 {
        String::from_str(digit_str(n))
    } else {
        let head = decimal_string(n / 10);
        let r = head.concat(digit_str(n % 10));
        assert(r@ =~= decimal((n / 10) as nat).push(digit_char((n % 10) as nat)));
        r
    }
}

/// A number of at most 53 bits made of the low bits of `draw`.
pub fn masked_id(draw: u64) -> (r: u64)
    ensures
        r == draw & REQUEST_ID_MASK,
        r <= REQUEST_ID_MASK,
{
    let r = draw & REQUEST_ID_MASK;
    assert(draw & REQUEST_ID_MASK <= REQUEST_ID_MASK) by (bit_vector);
    r
}

} // verus!
