//! The client's settings, from the values of its environment variables.

use vstd::prelude::*;
use crate::text::{decimal, parse_u16, parse_u16_spec, all_digits, digits_value, is_digit};

verus! {

/// The backend used when `INSIGHTA_API_URL` is not set.
pub const DEFAULT_BACKEND_URL: &'static str = "http://localhost:8000";

/// The callback port used when `INSIGHTA_CALLBACK_PORT` is not set or not
/// a port number.
pub const DEFAULT_CALLBACK_PORT: u16 = 8182;

/// The backend's base URL, from the value of `INSIGHTA_API_URL` (`None`
/// when it is not set).
pub fn backend_url_from(value: Option<String>) -> (r: String)
    ensures
        match value {
            Some(v) => r == v,
            None => r@ == DEFAULT_BACKEND_URL@,
        },
{
    match value {
        Some(v) => v,
        None => String::from_str(DEFAULT_BACKEND_URL),
    }
}

/// The port that the login callback listens on, from the value of
/// `INSIGHTA_CALLBACK_PORT`: the number it holds when it reads as a `u16`,
/// else the default.
pub open spec fn callback_port_spec(value: Option<Seq<char>>) -> u16 {
    match value {
        Some(v) => match parse_u16_spec(v) {
            Some(p) => p,
            None => DEFAULT_CALLBACK_PORT,
        },
        None => DEFAULT_CALLBACK_PORT,
    }
}

/// The callback port, from the value of `INSIGHTA_CALLBACK_PORT`.
pub fn callback_port_from(value: Option<&str>) -> (r: u16)
    ensures
        r == callback_port_spec(
            match value {
                Some(v) => Some(v@),
                None => None,
            },
        ),
{
    match value {
        Some(v) => match parse_u16(v) {
            Some(p) => p,
            None => DEFAULT_CALLBACK_PORT,
        },
        None => DEFAULT_CALLBACK_PORT,
    }
}

/// The decimal text of `n` is a non-empty string of digits whose value is
/// `n`.
pub proof fn lemma_decimal_digits(n: nat)
    ensures
        decimal(n).len() > 0,
        all_digits(decimal(n)),
        digits_value(decimal(n)) == n,
    decreases n,
{
    let e = decimal(n);
    if n >= 10 {
        lemma_decimal_digits(n / 10);
        let d = decimal(n / 10);
        assert(e.drop_last() == d);
        assert(e.last() as int == (n % 10) + 48);
        assert((n / 10) * 10 + n % 10 == n);
        assert(digits_value(e) == digits_value(d) * 10 + ((e.last() as int - 48) as nat));
        assert forall|i: int| 0 <= i < e.len() implies is_digit(#[trigger] e[i]) by {
            if i < d.len() {
                assert(e[i] == d[i]);
            }
        }
    } else {
        assert(e.drop_last() =~= Seq::<char>::empty());
        assert(e.last() as int == n + 48);
        assert(digits_value(e) == digits_value(e.drop_last()) * 10 + ((e.last() as int - 48) as nat));
    }
}

/// A port written in decimal reads back as the same port: the setting
/// accepts every port number as the client writes it.
pub proof fn lemma_callback_port_reads_decimal(port: u16)
    ensures
        callback_port_spec(Some(decimal(port as nat))) == port,
{
    lemma_decimal_digits(port as nat);
    let d = decimal(port as nat);
    assert(is_digit(d[0]));
}

/// Without a usable `INSIGHTA_CALLBACK_PORT` the callback listens on port
/// 8182; without `INSIGHTA_API_URL` the backend is `http://localhost:8000`.
pub proof fn lemma_config_defaults(value: Seq<char>)
    ensures
        callback_port_spec(None) == 8182,
        parse_u16_spec(value) is None ==> callback_port_spec(Some(value)) == 8182,
        parse_u16_spec(value) matches Some(p) ==> callback_port_spec(Some(value)) == p,
        DEFAULT_BACKEND_URL@ == "http://localhost:8000"@,
{
}

} // verus!
