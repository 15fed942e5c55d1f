use vstd::prelude::*;
use vstd::string::StringExecFns;

use crate::error::CliError;
use crate::json::{hexd, parse_spec, JsonValue};
use crate::urls::{normalize_path, normalized_path_spec};

verus! {

/// The decimal digits of a non-negative number.
pub open spec fn dec_digits(n: int) -> Seq<char>
    decreases n,
{
    if n < 10 {
        seq![hexd(n)]
    } else {
        dec_digits(n / 10) + seq![hexd(n % 10)]
    }
}

fn dec_digit(n: u16) -> (c: char)
    requires
        n < 10,
    ensures
        c == hexd(n as int),
{
    match n {
        0 => '0',
        1 => '1',
        2 => '2',
        3 => '3',
        4 => '4',
        5 => '5',
        6 => '6',
        7 => '7',
        8 => '8',
        _ => '9',
    }
}

/// Writes a number in decimal.
pub fn u16_to_string(x: u16) -> (r: String)
    ensures
        r@ == dec_digits(x as int),
{
    let mut rev: Vec<char> = Vec::new();
    let mut m = x;
    proof {
        assert(dec_digits(x as int) + rev@.reverse() =~= dec_digits(x as int));
    }
    loop
        invariant_except_break
            dec_digits(x as int) == dec_digits(m as int) + rev@.reverse(),
        ensures
            dec_digits(x as int) == rev@.reverse(),
        decreases m,
    {
        let ghost rev0 = rev@;
        let c = dec_digit(m % 10);
        rev.push(c);
        proof {
            assert(rev@.reverse() =~= seq![c] + rev0.reverse());
            assert(dec_digits(m as int / 10) + (seq![c] + rev0.reverse()) =~= (dec_digits(
                m as int / 10,
            ) + seq![c]) + rev0.reverse());
        }
        if m < 10 {
            proof {
                assert(dec_digits(m as int) =~= seq![c]);
                assert(seq![c] + rev0.reverse() =~= rev@.reverse());
                assert(dec_digits(x as int) =~= rev@.reverse());
            }
            break;
        }
        m = m / 10;
    }
    let n = rev.len();
    let mut out: Vec<char> = Vec::new();
    let mut k: usize = 0;
    while k < n
        invariant
            n == rev@.len(),
            0 <= k <= n,
            out@ == rev@.reverse().subrange(0, k as int),
        decreases n - k,
    {
        out.push(rev[n - 1 - k]);
        proof {
            assert(rev@.reverse().subrange(0, k as int + 1) =~= rev@.reverse().subrange(
                0,
                k as int,
            ).push(rev@[n as int - 1 - k as int]));
        }
        k = k + 1;
    }
    proof {
        assert(rev@.reverse().subrange(0, n as int) =~= rev@.reverse());
    }
    crate::text::string_from_chars(&out)
}

/// The message of a status failure: the observed status and the path.
pub open spec fn status_error_message(status: int, path: Seq<char>) -> Seq<char> {
    "unexpected status "@ + dec_digits(status) + " for GET "@ + normalized_path_spec(path)
}

/// The full URL of a status request: the base with the normalized path
/// appended.
pub fn build_get_url(base_url: &str, path: &str) -> (r: String)
    ensures
        r@ == base_url@ + normalized_path_spec(path@),
{
    let p = normalize_path(path);
    String::from_str(base_url).concat(p.as_str())
}

/// Judges one HTTP status response: anything but a 200 carrying a JSON
/// body is a protocol failure.
pub fn evaluate_http_response(path: &str, status: u16, body: &str) -> (r: Result<
    JsonValue,
    CliError,
>)
    ensures
        status != 200 ==> (r matches Result::Err(e) && e matches CliError::Protocol(m) && m@
            == status_error_message(status as int, path@)),
        status == 200 ==> (match parse_spec(body@) {
            Option::Some(v) => r matches Result::Ok(p) && p@ == v,
            Option::None => r matches Result::Err(e) && e matches CliError::Protocol(m) && m@
                == "invalid response body JSON"@,
        }),
{
    if status != 200 {
        let p = normalize_path(path);
        let msg = String::from_str("unexpected status ").concat(
            u16_to_string(status).as_str(),
        ).concat(" for GET ").concat(p.as_str());
        return Result::Err(CliError::Protocol(msg));
    }
    match crate::json::parse_json(body) {
        Option::Some(v) => Result::Ok(v),
        Option::None => Result::Err(
            CliError::Protocol(String::from_str("invalid response body JSON")),
        ),
    }
}

} // verus!
