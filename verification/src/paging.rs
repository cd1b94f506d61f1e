//! The sequence paginator: pure arithmetic that maps an exclusive upper bound
//! and a page size to a protocol sequence-range expression and the new resume
//! offset. Paging runs newest-first, backward toward the oldest message.
//!
//! The range for a call with upper bound `last` and page size `qty` is every
//! sequence number in `[start, last)` with `start = max(1, last - qty)`,
//! serialized as a comma-joined list of decimal numbers; the new offset is
//! `start`.

use vstd::prelude::*;

verus! {

/// Opaque pagination cursor: the lowest sequence number already delivered,
/// used as the exclusive upper bound of the next (older) page.
pub type Offset = u32;

/// The first sequence number of the page that ends just below `last`:
/// `max(1, last - qty)`. Sequence numbers are 1-based, so the start is
/// clamped to 1 when fewer than `qty` messages remain.
pub open spec fn page_start(last: int, qty: int) -> int {
    if last - qty >= 1 {
        last - qty
    } else {
        1
    }
}

/// The decimal digit character for `d`.
pub open spec fn digit_char(d: int) -> char
    recommends
        0 <= d < 10,
{
    if d == 0 {
        '0'
    } else if d == 1 {
        '1'
    } else if d == 2 {
        '2'
    } else if d == 3 {
        '3'
    } else if d == 4 {
        '4'
    } else if d == 5 {
        '5'
    } else if d == 6 {
        '6'
    } else if d == 7 {
        '7'
    } else if d == 8 {
        '8'
    } else {
        '9'
    }
}

/// The usual decimal serialization of `n`, without leading zeros
/// (except for `n == 0` itself).
pub open spec fn dec_str(n: nat) -> Seq<char>
    decreases n,
{
    if n < 10 {
        seq![digit_char(n as int)]
    } else {
        dec_str(n / 10) + seq![digit_char((n % 10) as int)]
    }
}

/// The comma-joined decimal serialization of every integer in `[start, last)`,
/// in ascending order.
pub open spec fn range_str(start: int, last: int) -> Seq<char>
    recommends
        0 <= start,
    decreases last - start,
{
    if start >= last {
        Seq::<char>::empty()
    } else if start + 1 >= last {
        dec_str(start as nat)
    } else {
        dec_str(start as nat) + seq![','] + range_str(start + 1, last)
    }
}

/// The decimal serializations of every integer in `[start, last)`, ascending:
/// the list a reader of the range expression recovers by splitting on commas.
pub open spec fn decimals_of(start: int, last: int) -> Seq<Seq<char>>
    recommends
        0 <= start,
{
    if start <= last {
        Seq::new((last - start) as nat, |k: int| dec_str((start + k) as nat))
    } else {
        Seq::<Seq<char>>::empty()
    }
}

/// Comma-join of a list of pieces.
pub open spec fn join_comma(parts: Seq<Seq<char>>) -> Seq<char>
    decreases parts.len(),
{
    if parts.len() == 0 {
        Seq::<char>::empty()
    } else if parts.len() == 1 {
        parts[0]
    } else {
        parts[0] + seq![','] + join_comma(parts.drop_first())
    }
}

/// The numeric value of one decimal digit character; other characters
/// read as 0.
pub open spec fn digit_val(c: char) -> int {
    if c == '0' {
        0
    } else if c == '1' {
        1
    } else if c == '2' {
        2
    } else if c == '3' {
        3
    } else if c == '4' {
        4
    } else if c == '5' {
        5
    } else if c == '6' {
        6
    } else if c == '7' {
        7
    } else if c == '8' {
        8
    } else if c == '9' {
        9
    } else {
        0
    }
}

/// Reading a digit string back as an integer, most significant digit first.
pub open spec fn parse_dec(s: Seq<char>) -> int
    decreases s.len(),
{
    if s.len() == 0 {
        0
    } else {
        parse_dec(s.drop_last()) * 10 + digit_val(s.last())
    }
}

/// Decimal serialization round trip: every number in the range expression,
/// parsed back as an integer, is the number that was serialized.
pub proof fn lemma_dec_str_round_trip(n: nat)
    ensures
        parse_dec(dec_str(n)) == n,
    decreases n,
{
    if n < 10 {
        let s = dec_str(n);
        assert(s.len() == 1);
        assert(s.drop_last() =~= Seq::<char>::empty());
        assert(parse_dec(s) == parse_dec(Seq::<char>::empty()) * 10 + digit_val(s.last()));
        assert(digit_val(digit_char(n as int)) == n);
    } else {
        lemma_dec_str_round_trip(n / 10);
        let s = dec_str(n);
        let hi = dec_str(n / 10);
        let lo = seq![digit_char((n % 10) as int)];
        assert(s == hi + lo);
        assert(s.len() == hi.len() + 1);
        assert(s.drop_last() =~= hi);
        assert(s.last() == digit_char((n % 10) as int));
        assert(digit_val(digit_char((n % 10) as int)) == n % 10);
        assert(parse_dec(s) == parse_dec(hi) * 10 + (n % 10));
        assert((n / 10) * 10 + (n % 10) == n) by (nonlinear_arith);
    }
}

/// No decimal serialization contains a comma (each character is a digit),
/// so splitting the generated range expression on commas recovers exactly
/// the serialized numbers.
pub proof fn lemma_dec_str_no_comma(n: nat)
    ensures
        dec_str(n).len() >= 1,
        forall|i: int| 0 <= i < dec_str(n).len() ==> #[trigger] dec_str(n)[i] != ',',
    decreases n,
{
    if n >= 10 {
        lemma_dec_str_no_comma(n / 10);
    }
}

/// The range expression is exactly the comma-join of the ascending decimal
/// serializations of `[start, last)`: split on commas, it reads back as the
/// full ascending sequence of the page's sequence numbers.
pub proof fn lemma_range_str_is_joined_decimals(start: int, last: int)
    requires
        0 <= start,
    ensures
        range_str(start, last) == join_comma(decimals_of(start, last)),
    decreases last - start,
{
    if start >= last {
        assert(decimals_of(start, last).len() == 0);
        assert(range_str(start, last) == join_comma(decimals_of(start, last)));
    } else if start + 1 >= last {
        assert(decimals_of(start, last).len() == 1);
        assert(decimals_of(start, last)[0] == dec_str(start as nat));
        assert(range_str(start, last) == join_comma(decimals_of(start, last)));
    } else {
        lemma_range_str_is_joined_decimals(start + 1, last);
        assert(decimals_of(start, last).drop_first() =~= decimals_of(start + 1, last));
        assert(decimals_of(start, last)[0] == dec_str(start as nat));
        assert(range_str(start, last) == join_comma(decimals_of(start, last)));
    }
}

/// Appending the next number to an already-built range expression:
/// the step a serializer takes when it extends `[start, i)` to `[start, i + 1)`.
proof fn lemma_range_str_snoc(start: int, i: int)
    requires
        0 <= start <= i,
    ensures
        range_str(start, i + 1) == if i == start {
            dec_str(i as nat)
        } else {
            range_str(start, i) + seq![','] + dec_str(i as nat)
        },
    decreases i - start,
{
    if i == start {
    } else {
        lemma_range_str_snoc(start + 1, i);
        if i == start + 1 {
            assert(range_str(start, i + 1) == dec_str(start as nat) + seq![','] + dec_str(
                i as nat,
            ));
            assert(range_str(start, i) == dec_str(start as nat));
        } else {
            assert(range_str(start, i + 1) == dec_str(start as nat) + seq![','] + range_str(
                start + 1,
                i + 1,
            ));
            assert(range_str(start, i) == dec_str(start as nat) + seq![','] + range_str(
                start + 1,
                i,
            ));
            assert(dec_str(start as nat) + seq![','] + (range_str(start + 1, i) + seq![',']
                + dec_str(i as nat)) =~= (dec_str(start as nat) + seq![','] + range_str(
                start + 1,
                i,
            )) + seq![','] + dec_str(i as nat));
        }
    }
}

/// The single-character string for one decimal digit.
fn digit_str(d: u32) -> (s: &'static str)
    requires
        d < 10,
    ensures
        s@ == seq![digit_char(d as int)],
{
    let s: &'static str = if d == 0 {
        "0"
    } else if d == 1 {
        "1"
    } else if d == 2 {
        "2"
    } else if d == 3 {
        "3"
    } else if d == 4 {
        "4"
    } else if d == 5 {
        "5"
    } else if d == 6 {
        "6"
    } else if d == 7 {
        "7"
    } else if d == 8 {
        "8"
    } else {
        "9"
    };
    proof {
        reveal_strlit("0");
        reveal_strlit("1");
        reveal_strlit("2");
        reveal_strlit("3");
        reveal_strlit("4");
        reveal_strlit("5");
        reveal_strlit("6");
        reveal_strlit("7");
        reveal_strlit("8");
        reveal_strlit("9");
        assert(s@ =~= seq![digit_char(d as int)]);
    }
    s
}

/// Decimal serialization of `n`.
pub fn u32_to_string(n: u32) -> (s: String)
    ensures
        s@ == dec_str(n as nat),
    decreases n,
{
    if n < 10 {
        String::from_str(digit_str(n))
    } else {
        proof {
            assert(n / 10 < n) by (nonlinear_arith)
                requires
                    n >= 10,
            ;
        }
        let mut s = u32_to_string(n / 10);
        s.append(digit_str(n % 10));
        s
    }
}

/// The paginator. Converts the exclusive upper bound `last` and the page size
/// `qty` into the protocol range expression for the page `[start, last)` with
/// `start = max(1, last - qty)`, together with the new resume offset `start`.
/// Total for all inputs: a `last` at or below the page size clamps the start
/// to sequence number 1 (a mailbox smaller than one page), and a `last` of 0
/// or 1 yields an empty range.
pub fn generate_sequence(last: u32, qty: u32) -> (r: (String, Offset))
    ensures
        r.1 as int == page_start(last as int, qty as int),
        1 <= r.1,
        r.0@ == range_str(r.1 as int, last as int),
{
    let start: u32 = if last > qty {
        last - qty
    } else {
        1
    };
    let mut s = String::new();
    let mut i: u32 = start;
    while i < last
        invariant
            start <= i,
            i <= last || i == start,
            s@ == range_str(start as int, i as int),
        decreases last - i,
    {
        if i > start {
            s.append(",");
        }
        let d = u32_to_string(i);
        s.append(d.as_str());
        proof {
            reveal_strlit(",");
            lemma_range_str_snoc(start as int, i as int);
            assert(","@ =~= seq![',']);
        }
        i = i + 1;
    }
    (s, start)
}

/// The paging math is pure: two calls on identical inputs yield identical
/// outputs. Any pair of results that satisfy the paginator's contract for the
/// same `last` and `qty` are equal.
pub proof fn lemma_generate_sequence_deterministic(
    last: u32,
    qty: u32,
    s1: Seq<char>,
    o1: u32,
    s2: Seq<char>,
    o2: u32,
)
    requires
        o1 as int == page_start(last as int, qty as int),
        s1 == range_str(o1 as int, last as int),
        o2 as int == page_start(last as int, qty as int),
        s2 == range_str(o2 as int, last as int),
    ensures
        s1 == s2,
        o1 == o2,
{
}

/// Whether sequence number `n` lies on the page whose exclusive upper bound
/// is `last`, for page size `qty`: the page covers `[page_start, last)`.
pub open spec fn page_contains(last: int, qty: int, n: int) -> bool {
    page_start(last, qty) <= n < last
}

/// Round trip of the pagination cursor: when the offset returned by one page
/// call is fed back as the upper bound of the next call, the next page lies
/// strictly earlier and does not overlap the previous one; and while the
/// previous page was not already the oldest (its start above 1), the next
/// page is non-empty.
pub proof fn lemma_page_round_trip(last: int, qty: int)
    requires
        1 <= qty,
        1 < last,
    ensures
        page_start(last, qty) < last,
        forall|a: int, b: int|
            #[trigger] page_contains(page_start(last, qty), qty, a) && #[trigger] page_contains(
                last,
                qty,
                b,
            ) ==> a < b,
        page_start(last, qty) > 1 ==> page_start(page_start(last, qty), qty) < page_start(
            last,
            qty,
        ),
{
}

} // verus!
