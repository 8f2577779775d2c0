//! Settings read from the environment and from files, as the commands use them.
use crate::models::opt_view;
use crate::text::{chars_of, parse_i32, parse_i32_spec, parse_u64, parse_u64_spec, string_of, trim, trim_chars};
use vstd::prelude::*;

verus! {

/// The proxy URL of the `SOCKS_PROXY` setting: its trimmed value, none
/// when unset or blank.
pub fn socks_proxy_url(value: Option<&str>) -> (r: Option<String>)
    ensures
        opt_view(r) == (match value {
            Some(v) => if trim(v@).len() > 0 {
                Some(trim(v@))
            } else {
                None
            },
            None => None,
        }),
{
    match value {
        Some(v) => {
            let t = trim_chars(&chars_of(v));
            if t.len() > 0 {
                Some(string_of(&t))
            } else {
                None
            }
        },
        None => None,
    }
}

/// The hours between updates: the `UPDATE_INTERVAL_HOURS` setting when it
/// reads as a number, else 12.
pub fn update_interval_hours(value: Option<&str>) -> (r: u64)
    ensures
        r == (match value {
            Some(v) => match parse_u64_spec(v@) {
                Some(h) => h,
                None => 12,
            },
            None => 12,
        }),
{
    match value {
        Some(v) => match parse_u64(&chars_of(v)) {
            Some(h) => h,
            None => 12,
        },
        None => 12,
    }
}

/// The process id written in a PID file: its trimmed text as a number.
pub fn parse_pid(text: &str) -> (r: Option<i32>)
    ensures
        r == parse_i32_spec(trim(text@)),
{
    parse_i32(&trim_chars(&chars_of(text)))
}

} // verus!
