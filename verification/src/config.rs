//! Start-up settings: what they must hold and what is made of them.
//!
//! The settings are read elsewhere and handed in as texts. A setting that
//! is missing or malformed is an error, and the process is to stop on it
//! before anything is scheduled.

use vstd::prelude::*;
use vstd::string::*;

verus! {

/// Why the settings cannot be used.
#[derive(Clone, Copy, Debug, PartialEq, Eq, Structural)]
pub enum ConfigError {
    /// The kind of deployment is not set.
    MissingEnvironment,
    /// The switch for the libraries' own log lines is not set.
    MissingDebugFlag,
    /// The switch is neither `true` nor `false`.
    MalformedDebugFlag,
    /// The platform token is not set.
    MissingToken,
    /// The owner is not set.
    MissingOwner,
    /// The owner is no number.
    MalformedOwner,
}

/// How to log.
#[derive(Debug)]
pub struct LogPlan {
    /// The filter directive for the log.
    pub filter: String,
    /// Whether log lines go to standard output as well as to the file.
    pub to_stdout: bool,
}

/// What the start-up code needs besides the log.
#[derive(Debug)]
pub struct Credentials {
    pub discord_token: String,
    pub owner_id: u64,
}

/// The name of the log file.
pub const LOG_FILE: &'static str = "amd.log";

/// The prefix of commands.
pub const COMMAND_PREFIX: &'static str = "$";

/// What a switch says, if it is exactly `true` or `false`.
pub open spec fn flag_value(text: Seq<char>) -> Option<bool> {
    if text == "true"@ {
        Some(true)
    } else if text == "false"@ {
        Some(false)
    } else {
        None
    }
}

/// Reads a switch.
pub fn parse_flag(text: &str) -> (flag: Option<bool>)
    ensures
        flag == flag_value(text@),
{
    let owned: String = text.to_owned();
    if owned == "true".to_owned() {
        Some(true)
    } else if owned == "false".to_owned() {
        Some(false)
    } else {
        None
    }
}

/// The filter directive: in production the level is `info`, elsewhere
/// `trace`; unless the libraries' lines are wanted too, it is narrowed to
/// this program's own.
pub open spec fn filter_text(production: bool, debug_libraries: bool, crate_name: Seq<char>)
    -> Seq<char> {
    if production && debug_libraries {
        "info"@
    } else if production {
        crate_name + "=info"@
    } else if debug_libraries {
        "trace"@
    } else {
        crate_name + "=trace"@
    }
}

/// Whether the deployment is the production one.
pub open spec fn is_production(env: Seq<char>) -> bool {
    env == "production"@
}

/// Decides how to log from the kind of deployment and the switch for the
/// libraries' lines, each as it was found in the environment, if it was.
pub fn log_plan(env: Option<&str>, enable_debug_libraries: Option<&str>, crate_name: &str) -> (r:
    Result<LogPlan, ConfigError>)
    ensures
        match r {
            Ok(plan) => {
                &&& env matches Some(e)
                &&& enable_debug_libraries matches Some(d)
                &&& flag_value(d@) matches Some(debug)
                &&& plan.filter@ == filter_text(is_production(e@), debug, crate_name@)
                &&& plan.to_stdout == !is_production(e@)
            },
            Err(e) => e == if env is None {
                ConfigError::MissingEnvironment
            } else if enable_debug_libraries is None {
                ConfigError::MissingDebugFlag
            } else {
                ConfigError::MalformedDebugFlag
            } && (env is None || enable_debug_libraries is None || flag_value(
                enable_debug_libraries->0@,
            ) is None),
        },
{
    let env: &str = match env {
        Some(e) => e,
        None => return Err(ConfigError::MissingEnvironment),
    };
    let text: &str = match enable_debug_libraries {
        Some(d) => d,
        None => return Err(ConfigError::MissingDebugFlag),
    };
    let debug: bool = match parse_flag(text) {
        Some(b) => b,
        None => return Err(ConfigError::MalformedDebugFlag),
    };
    let production: bool = env.to_owned() == "production".to_owned();
    let mut filter: String = String::new();
    if production && debug {
        filter.append("info");
    } else if production {
        filter.append(crate_name);
        filter.append("=info");
    } else if debug {
        filter.append("trace");
    } else {
        filter.append(crate_name);
        filter.append("=trace");
    }
    proof {
        assert(filter@ =~= filter_text(production, debug, crate_name@));
    }
    Ok(LogPlan { filter, to_stdout: !production })
}

/// The value of a decimal digit, if the character is one.
pub open spec fn digit_value(c: char) -> Option<nat> {
    if c == '0' {
        Some(0)
    } else if c == '1' {
        Some(1)
    } else if c == '2' {
        Some(2)
    } else if c == '3' {
        Some(3)
    } else if c == '4' {
        Some(4)
    } else if c == '5' {
        Some(5)
    } else if c == '6' {
        Some(6)
    } else if c == '7' {
        Some(7)
    } else if c == '8' {
        Some(8)
    } else if c == '9' {
        Some(9)
    } else {
        None
    }
}

/// The number that a run of decimal digits writes; `None` if a character
/// is no digit. The empty run writes zero.
pub open spec fn digits_value(digits: Seq<char>) -> Option<nat>
    decreases digits.len(),
{
    if digits.len() == 0 {
        Some(0)
    } else {
        match (digits_value(digits.drop_last()), digit_value(digits.last())) {
            (Some(front), Some(last)) => Some(front * 10 + last),
            _ => None,
        }
    }
}

/// The number that a text writes: decimal digits, at least one, with or
/// without a plus sign in front, that come to no more than 64 bits hold.
pub open spec fn number_value(text: Seq<char>) -> Option<u64> {
    let digits = if text.len() > 0 && text[0] == '+' {
        text.drop_first()
    } else {
        text
    };
    if digits.len() == 0 {
        None
    } else {
        match digits_value(digits) {
            Some(n) => if n <= u64::MAX {
                Some(n as u64)
            } else {
                None
            },
            None => None,
        }
    }
}

fn digit_of(c: char) -> (d: Option<u64>)
    ensures
        match d {
            Some(v) => digit_value(c) == Some(v as nat) && v < 10,
            None => digit_value(c) is None,
        },
{
    if c == '0' {
        Some(0)
    } else if c == '1' {
        Some(1)
    } else if c == '2' {
        Some(2)
    } else if c == '3' {
        Some(3)
    } else if c == '4' {
        Some(4)
    } else if c == '5' {
        Some(5)
    } else if c == '6' {
        Some(6)
    } else if c == '7' {
        Some(7)
    } else if c == '8' {
        Some(8)
    } else if c == '9' {
        Some(9)
    } else {
        None
    }
}

/// Once a run of digits is worth more than a bound or holds another
/// character, so is every run that it starts.
proof fn lemma_digits_grow(digits: Seq<char>, n: int)
    requires
        0 <= n <= digits.len(),
    ensures
        digits_value(digits.take(n)) is None ==> digits_value(digits) is None,
        digits_value(digits.take(n)) matches Some(front) ==> (digits_value(digits) matches Some(
            all,
        ) ==> front <= all),
    decreases digits.len() - n,
{
    if n < digits.len() {
        assert(digits.take(n + 1).drop_last() =~= digits.take(n));
        lemma_digits_grow(digits, n + 1);
    } else {
        assert(digits.take(n) =~= digits);
    }
}

/// Reads a number of up to 64 bits.
pub fn parse_number(text: &str) -> (number: Option<u64>)
    ensures
        number == number_value(text@),
{
    let n: usize = text.unicode_len();
    let start: usize = if n > 0 && text.get_char(0) == '+' {
        1
    } else {
        0
    };
    if start == n {
        return None;
    }
    let ghost digits = text@.subrange(start as int, n as int);
    proof {
        if start == 1 {
            assert(digits =~= text@.drop_first());
        } else {
            assert(digits =~= text@);
        }
        assert(digits.take(0) =~= Seq::<char>::empty());
    }
    let mut value: u64 = 0;
    let mut i: usize = start;
    while i < n
        invariant
            start <= i <= n,
            n == text@.len(),
            digits == text@.subrange(start as int, n as int),
            digits == if text@.len() > 0 && text@[0] == '+' {
                text@.drop_first()
            } else {
                text@
            },
            digits.len() > 0,
            digits_value(digits.take(i - start)) == Some(value as nat),
        decreases n - i,
    {
        let c: char = text.get_char(i);
        proof {
            assert(digits.take(i - start + 1).drop_last() =~= digits.take(i - start));
            assert(digits.take(i - start + 1).last() == c);
            lemma_digits_grow(digits, i - start + 1);
        }
        let ghost next = digits_value(digits.take(i - start + 1));
        proof {
            assert(next == match (
                digits_value(digits.take(i - start + 1).drop_last()),
                digit_value(digits.take(i - start + 1).last()),
            ) {
                (Some(front), Some(last)) => Some(front * 10 + last),
                _ => None,
            });
        }
        let d: u64 = match digit_of(c) {
            Some(d) => d,
            None => {
                assert(next is None);
                return None;
            },
        };
        assert(next == Some((value * 10 + d) as nat));
        if value > (u64::MAX - d) / 10 {
            assert(value * 10 + d > u64::MAX);
            return None;
        }
        value = value * 10 + d;
        i = i + 1;
    }
    proof {
        assert(digits.take(n - start) =~= digits);
    }
    Some(value)
}

/// Reads the platform token and the owner from the settings, each as it
/// was found in the environment, if it was.
pub fn credentials(discord_token: Option<&str>, owner_id: Option<&str>) -> (r: Result<
    Credentials,
    ConfigError,
>)
    ensures
        match r {
            Ok(c) => {
                &&& discord_token matches Some(token)
                &&& owner_id matches Some(owner)
                &&& c.discord_token@ == token@
                &&& number_value(owner@) == Some(c.owner_id)
            },
            Err(e) => e == if discord_token is None {
                ConfigError::MissingToken
            } else if owner_id is None {
                ConfigError::MissingOwner
            } else {
                ConfigError::MalformedOwner
            } && (discord_token is None || owner_id is None || number_value(owner_id->0@)
                is None),
        },
{
    let token: &str = match discord_token {
        Some(t) => t,
        None => return Err(ConfigError::MissingToken),
    };
    let owner: &str = match owner_id {
        Some(o) => o,
        None => return Err(ConfigError::MissingOwner),
    };
    match parse_number(owner) {
        Some(owner_id) => Ok(Credentials { discord_token: token.to_owned(), owner_id }),
        None => Err(ConfigError::MalformedOwner),
    }
}

} // verus!
