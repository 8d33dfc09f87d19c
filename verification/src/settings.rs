//! The settings that the user gives as environment variables.

use vstd::prelude::*;

use crate::text;

verus! {

/// Whether ports are forwarded where the user does not say.
pub const PORT_FORWARDING: bool = true;

/// Whether the connection file is kept where the user does not say.
pub const CONNECTION_FILE: bool = false;

/// Whether the signature is kept between runs where the user does not say.
pub const PERSIST_PORT: bool = false;

/// Whether the port file is kept where the user does not say.
pub const PORT_MANAGER: bool = false;

/// The seconds between two health checks where the user does not say.
pub const HEALTH_CHECK_INTERVAL_SECS: u64 = 60;

/// The attempts to reconnect before a restart where the user does not say.
pub const MAX_RECONNECT_ATTEMPTS: u32 = 5;

/// The truth value of a setting: what its text stands for, or the default where there is no text.
/// A text other than `true` and `false` stands for nothing.
pub open spec fn flag_value(value: Option<Seq<char>>, default: bool) -> Option<bool> {
    match value {
        Some(t) => text::bool_value(t),
        None => Some(default),
    }
}

/// Reads a setting that is a truth value.
pub fn flag(value: Option<&str>, default: bool) -> (r: Option<bool>)
    ensures
        r == flag_value(value.deep_view(), default),
{
    match value {
        Some(t) => text::parse_bool(t),
        None => Some(default),
    }
}

/// The number that a setting stands for, or the default where there is no text. A text that is no
/// number, or one below `least` or above `most`, stands for nothing.
pub open spec fn number_value(
    value: Option<Seq<char>>,
    default: nat,
    least: nat,
    most: nat,
) -> Option<nat> {
    match value {
        Some(t) => match text::unsigned_value(t) {
            Some(n) => if least <= n <= most {
                Some(n)
            } else {
                None
            },
            None => None,
        },
        None => Some(default),
    }
}

/// Reads the seconds between two health checks. No seconds are no interval.
pub fn health_check_interval(value: Option<&str>) -> (r: Option<u64>)
    ensures
        match r {
            Some(n) => number_value(
                value.deep_view(),
                HEALTH_CHECK_INTERVAL_SECS as nat,
                1,
                u64::MAX as nat,
            ) == Some(n as nat),
            None => number_value(
                value.deep_view(),
                HEALTH_CHECK_INTERVAL_SECS as nat,
                1,
                u64::MAX as nat,
            ) is None,
        },
        value is None ==> r == Some(60u64),
        r is Some ==> r->0 > 0,
{
    match value {
        Some(t) => match text::parse_u64(t) {
            Some(n) => if n == 0 {
                None
            } else {
                Some(n)
            },
            None => None,
        },
        None => Some(HEALTH_CHECK_INTERVAL_SECS),
    }
}

/// Reads the attempts to reconnect before a restart.
pub fn max_reconnect_attempts(value: Option<&str>) -> (r: Option<u32>)
    ensures
        match r {
            Some(n) => number_value(
                value.deep_view(),
                MAX_RECONNECT_ATTEMPTS as nat,
                0,
                u32::MAX as nat,
            ) == Some(n as nat),
            None => number_value(
                value.deep_view(),
                MAX_RECONNECT_ATTEMPTS as nat,
                0,
                u32::MAX as nat,
            ) is None,
        },
        value is None ==> r == Some(5u32),
{
    match value {
        Some(t) => text::parse_u32(t),
        None => Some(MAX_RECONNECT_ATTEMPTS),
    }
}

/// A setting that is a truth value is what the user says, and the default only where the user says
/// nothing: ports are forwarded by default, and no file is kept.
pub proof fn law_what_the_user_says_holds(value: Seq<char>, default: bool)
    ensures
        flag_value(Some(value), default) == Some(true) <==> value == "true"@,
        flag_value(Some(value), default) == Some(false) <==> value == "false"@,
        flag_value(None, default) == Some(default),
        flag_value(None, PORT_FORWARDING) == Some(true),
        flag_value(None, CONNECTION_FILE) == Some(false),
        flag_value(None, PERSIST_PORT) == Some(false),
        flag_value(None, PORT_MANAGER) == Some(false),
{
    text::law_only_two_texts_are_truth_values(value);
}

/// A setting that is a number is the number that the user writes, where it lies between the
/// bounds, and the default only where the user writes nothing.
pub proof fn law_the_number_that_the_user_writes_holds(
    n: nat,
    value: Seq<char>,
    default: nat,
    least: nat,
    most: nat,
)
    ensures
        number_value(Some(value), default, least, most) == Some(n) <==> text::unsigned_value(value)
            == Some(n) && least <= n <= most,
        least <= n <= most ==> number_value(Some(text::decimal(n as int)), default, least, most)
            == Some(n),
        number_value(None, default, least, most) == Some(default),
{
    text::law_decimal_reads_back(n);
}

} // verus!
