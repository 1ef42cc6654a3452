//! Identifier allocation: record ids are strings holding a decimal integer.
//!
//! The allocator scans every stored id, reads it as a decimal number, and
//! hands out the successor of the largest value seen.  An id that is not a
//! plain decimal number within range counts as `0`: the scan tolerates such
//! ids instead of failing, since ids are otherwise always assigned here.

use vstd::prelude::*;

verus! {

/// Largest value the allocator reads back from a stored id string.
pub const MAX_ID: u64 = 2147483647;

pub open spec fn is_digit(c: char) -> bool {
    '0' <= c && c <= '9'
}

pub open spec fn digit_val(c: char) -> int {
    c as int - '0' as int
}

pub open spec fn all_digits(s: Seq<char>) -> bool {
    forall|i: int| 0 <= i < s.len() ==> is_digit(#[trigger] s[i])
}

/// Value of a digit string read most-significant first.
pub open spec fn digits_val(s: Seq<char>) -> int
    decreases s.len(),
{
    if s.len() == 0 {
        0
    } else {
        digits_val(s.drop_last()) * 10 + digit_val(s.last())
    }
}

/// The number an id string stands for: its decimal value when the string is
/// one or more digits and the value is at most `MAX_ID`, and `0` otherwise.
pub open spec fn parsed_id(s: Seq<char>) -> int {
    if s.len() > 0 && all_digits(s) && digits_val(s) <= MAX_ID {
        digits_val(s)
    } else {
        0
    }
}

proof fn lemma_digits_val_bounds(s: Seq<char>)
    requires
        all_digits(s),
    ensures
        0 <= digits_val(s),
        forall|i: int| 0 <= i <= s.len() ==> digits_val(#[trigger] s.subrange(0, i)) <= digits_val(s),
    decreases s.len(),
{
    if s.len() == 0 {
        assert(digits_val(s) == 0);
    } else {
        let t = s.drop_last();
        assert(all_digits(t)) by {
            assert(forall|i: int| 0 <= i < t.len() ==> t[i] == s[i]);
        }
        lemma_digits_val_bounds(t);
        assert(0 <= digit_val(s.last()) <= 9);
        assert(digits_val(t) <= digits_val(t) * 10) by {
            assert(0 <= digits_val(t));
        }
        assert forall|i: int| 0 <= i <= s.len() implies digits_val(#[trigger] s.subrange(0, i))
            <= digits_val(s) by {
            if i == s.len() {
                assert(s.subrange(0, i) =~= s);
            } else {
                assert(s.subrange(0, i) =~= t.subrange(0, i));
            }
        }
    }
}

/// Reads an id string as the allocator does: the decimal value of a digit
/// string of value at most `MAX_ID`, and `0` for anything else.
pub fn parse_id(s: &str) -> (r: u64)
    ensures
        r == parsed_id(s@),
{
    let n = s.unicode_len();
    if n == 0 {
        return 0;
    }
    let mut val: u64 = 0;
    let mut i: usize = 0;
    while i < n
        invariant
            0 < n == s@.len(),
            0 <= i <= n,
            all_digits(s@.subrange(0, i as int)),
            val == digits_val(s@.subrange(0, i as int)),
            val <= MAX_ID,
        decreases n - i,
    {
        let c = s.get_char(i);
        if c < '0' || c > '9' {
            assert(!all_digits(s@)) by {
                assert(s@[i as int] == c);
            }
            return 0;
        }
        let d: u64 = (c as u32 as u64) - 48;
        let next: u64 = val * 10 + d;
        let ghost pref = s@.subrange(0, i as int);
        let ghost pref1 = s@.subrange(0, i as int + 1);
        proof {
            assert(pref1.drop_last() =~= pref);
            assert(pref1.last() == c);
            assert(digits_val(pref1) == val * 10 + d);
        }
        if next > MAX_ID {
            // Every longer digit prefix only grows the value, so the whole
            // string is out of range whenever it is all digits.
            proof {
                if all_digits(s@) {
                    lemma_digits_val_bounds(s@);
                    assert(digits_val(s@.subrange(0, i as int + 1)) <= digits_val(s@));
                }
            }
            return 0;
        }
        val = next;
        i = i + 1;
    }
    proof {
        assert(s@.subrange(0, n as int) =~= s@);
    }
    val
}

pub open spec fn digit_char(d: int) -> char {
    if d == 0 {
        '0'
    } else if d == 1 {
        '1'
    } else if d == 2 {
        '2'
    } else if d == 3 {
        '3'
    } else if d == 4 {
        '4'
    } else if d == 5 {
        '5'
    } else if d == 6 {
        '6'
    } else if d == 7 {
        '7'
    } else if d == 8 {
        '8'
    } else {
        '9'
    }
}

/// Decimal rendering of a non-negative number, most-significant digit first.
pub open spec fn decimal_digits(n: int) -> Seq<char>
    decreases n,
{
    if n <= 9 {
        seq![digit_char(n)]
    } else {
        decimal_digits(n / 10).push(digit_char(n % 10))
    }
}

fn digit_str(d: u64) -> (r: &'static str)
    requires
        d <= 9,
    ensures
        r@ =~= seq![digit_char(d as int)],
{
    proof {
        reveal_strlit("0");
        reveal_strlit("1");
        reveal_strlit("2");
        reveal_strlit("3");
        reveal_strlit("4");
        reveal_strlit("5");
        reveal_strlit("6");
        reveal_strlit("7");
        reveal_strlit("8");
        reveal_strlit("9");
    }
    match d {
        0 => "0",
        1 => "1",
        2 => "2",
        3 => "3",
        4 => "4",
        5 => "5",
        6 => "6",
        7 => "7",
        8 => "8",
        _ => "9",
    }
}

/// Renders an allocated id as its decimal string.
pub fn render_id(n: u64) -> (r: String)
    ensures
        r@ == decimal_digits(n as int),
    decreases n,
{
    if n <= 9 {
        String::from_str(digit_str(n))
    } else {
        let mut s = render_id(n / 10);
        s.append(digit_str(n % 10));
        proof {
            assert(decimal_digits(n as int).drop_last() == decimal_digits(n as int / 10));
            assert(s@ =~= decimal_digits(n as int));
        }
        s
    }
}

pub proof fn lemma_decimal_digits_props(n: int)
    requires
        0 <= n,
    ensures
        all_digits(decimal_digits(n)),
        digits_val(decimal_digits(n)) == n,
        decimal_digits(n).len() >= 1,
    decreases n,
{
    if n <= 9 {
        assert(is_digit(digit_char(n)));
        assert(digit_val(digit_char(n)) == n);
        assert(decimal_digits(n) =~= seq![digit_char(n)]);
        assert(decimal_digits(n).drop_last() =~= Seq::<char>::empty());
        assert(digits_val(Seq::<char>::empty()) == 0);
        assert(digits_val(decimal_digits(n)) == digit_val(digit_char(n)));
    } else {
        lemma_decimal_digits_props(n / 10);
        let s = decimal_digits(n);
        assert(s.drop_last() =~= decimal_digits(n / 10));
        assert(is_digit(digit_char(n % 10)));
        assert(digit_val(digit_char(n % 10)) == n % 10);
        assert(digits_val(s) == (n / 10) * 10 + n % 10);
        assert(forall|i: int| 0 <= i < s.len() - 1 ==> s[i] == decimal_digits(n / 10)[i]);
    }
}

/// A rendered id reads back as itself whenever it is in the allocator's range.
pub proof fn lemma_parsed_rendered_id(n: int)
    requires
        0 < n <= MAX_ID,
    ensures
        parsed_id(decimal_digits(n)) == n,
{
    lemma_decimal_digits_props(n);
}

/// The largest value that any of the given id strings stands for, `0` when
/// there are none.
pub open spec fn max_id_val(ids: Seq<Seq<char>>) -> int
    decreases ids.len(),
{
    if ids.len() == 0 {
        0
    } else {
        let rest = max_id_val(ids.drop_last());
        let v = parsed_id(ids.last());
        if v > rest {
            v
        } else {
            rest
        }
    }
}

/// The id the allocator assigns next over the given stored ids.
pub open spec fn next_id_val(ids: Seq<Seq<char>>) -> int {
    max_id_val(ids) + 1
}

pub proof fn lemma_max_id_val_bounds(ids: Seq<Seq<char>>)
    ensures
        0 <= max_id_val(ids) <= MAX_ID,
        forall|i: int| 0 <= i < ids.len() ==> parsed_id(#[trigger] ids[i]) <= max_id_val(ids),
    decreases ids.len(),
{
    if ids.len() > 0 {
        lemma_max_id_val_bounds(ids.drop_last());
        assert(forall|i: int| 0 <= i < ids.len() - 1 ==> ids[i] == ids.drop_last()[i]);
    }
}

/// The freshly allocated id is strictly greater than the value of every id
/// already stored: ids assigned by the allocator grow strictly over time, and
/// the first id handed out over an empty record set is `1`.
pub proof fn lemma_next_id_monotonic(ids: Seq<Seq<char>>)
    ensures
        forall|i: int| 0 <= i < ids.len() ==> parsed_id(#[trigger] ids[i]) < next_id_val(ids),
        1 <= next_id_val(ids) <= MAX_ID + 1,
        ids.len() == 0 ==> next_id_val(ids) == 1,
{
    lemma_max_id_val_bounds(ids);
}

} // verus!
