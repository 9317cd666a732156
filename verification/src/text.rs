//! Text forms of the values that travel inside wire events: decimal user
//! identifiers, identifier lists and quoted room names.

use vstd::prelude::*;
use vstd::string::StringExecFns;

verus! {

/// The character that stands for the decimal digit `d`.
pub open spec fn digit_char(d: nat) -> char {
    if d == 0 {
        '0'
    } else if d == 1 {
        '1'
    } else if d == 2 {
        '2'
    } else if d == 3 {
        '3'
    } else if d == 4 {
        '4'
    } else if d == 5 {
        '5'
    } else if d == 6 {
        '6'
    } else if d == 7 {
        '7'
    } else if d == 8 {
        '8'
    } else {
        '9'
    }
}

/// The decimal digits of `n`, most significant first, without leading zeros.
pub open spec fn digits(n: nat) -> Seq<char>
    decreases n,
{
    if n < 10 {
        seq![digit_char(n)]
    } else {
        digits(n / 10).push(digit_char(n % 10))
    }
}

/// The decimal text of an integer: a minus sign for negative values, then
/// the digits of the magnitude.
pub open spec fn decimal(v: int) -> Seq<char> {
    if v < 0 {
        seq!['-'] + digits((-v) as nat)
    } else {
        digits(v as nat)
    }
}

fn digit_text(d: u64) -> (r: &'static str)
    requires
        d < 10,
    ensures
        r@ == seq![digit_char(d as nat)],
{
    proof {
        reveal_strlit("0");
        reveal_strlit("1");
        reveal_strlit("2");
        reveal_strlit("3");
        reveal_strlit("4");
        reveal_strlit("5");
        reveal_strlit("6");
        reveal_strlit("7");
        reveal_strlit("8");
        reveal_strlit("9");
    }
    let r = if d == 0 {
        "0"
    } else if d == 1 {
        "1"
    } else if d == 2 {
        "2"
    } else if d == 3 {
        "3"
    } else if d == 4 {
        "4"
    } else if d == 5 {
        "5"
    } else if d == 6 {
        "6"
    } else if d == 7 {
        "7"
    } else if d == 8 {
        "8"
    } else {
        "9"
    };
    assert(r@ =~= seq![digit_char(d as nat)]);
    r
}

fn push_digits(n: u64, out: &mut String)
    ensures
        final(out)@ == old(out)@ + digits(n as nat),
    decreases n,
{
    if n >= 10 {
        push_digits(n / 10, out);
    }
    out.append(digit_text(n % 10));
    assert(final(out)@ =~= old(out)@ + digits(n as nat));
}

/// Writes a user identifier in decimal, as it appears in event bodies.
pub fn id_text(id: i64) -> (r: String)
    ensures
        r@ == decimal(id as int),
{
    let mut out = String::new();
    if id < 0 {
        proof {
            reveal_strlit("-");
        }
        out.append("-");
        let magnitude: u64 = (-(id as i128)) as u64;
        push_digits(magnitude, &mut out);
        assert(out@ =~= decimal(id as int));
    } else {
        push_digits(id as u64, &mut out);
        assert(out@ =~= decimal(id as int));
    }
    out
}

/// The identifiers of `ids` in decimal, in order, with a comma between
/// neighbours.
pub open spec fn comma_separated(ids: Seq<i64>) -> Seq<char>
    decreases ids.len(),
{
    if ids.len() == 0 {
        Seq::<char>::empty()
    } else if ids.len() == 1 {
        decimal(ids[0] as int)
    } else {
        comma_separated(ids.drop_last()) + seq![','] + decimal(ids.last() as int)
    }
}

/// The compact JSON array of a list of identifiers, such as `[4,-1,12]`.
pub open spec fn id_list(ids: Seq<i64>) -> Seq<char> {
    seq!['['] + comma_separated(ids) + seq![']']
}

/// Calls `serde_json::to_string` on a list of integers. Trusted: the result
/// is the compact JSON array of the list, an opening bracket, each integer
/// in decimal with a comma between neighbours and no white space, and a
/// closing bracket. Serialising integers into memory has no failing path.
#[verifier::external_body]
pub(crate) fn json_id_list(ids: &Vec<i64>) -> (r: String)
    ensures
        r@ == id_list(ids@),
{
    serde_json::to_string(ids).unwrap_or_default()
}

/// What `{:?}` prints for a string: the text between double quotes, with
/// the characters that Rust's `Debug` escapes written as escapes.
pub uninterp spec fn debug_quoted(s: Seq<char>) -> Seq<char>;

/// Formats a string with `{:?}`, the `Debug` implementation of `str`.
/// Trusted: the result depends on the characters of `s` alone.
#[verifier::external_body]
pub(crate) fn quote(s: &str) -> (r: String)
    ensures
        r@ == debug_quoted(s@),
{
    format!("{:?}", s)
}

} // verus!
