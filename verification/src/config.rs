//! Configuration: the defaults of the service and how its settings are read.

use vstd::prelude::*;
use vstd::string::StringExecFns;
use crate::text::{chars_of, text_of, trim, trimmed};

verus! {

/// The daily limit where none is configured: no limit.
pub const DEFAULT_DAILY_LIMIT: u32 = 0;

/// The time to live of a completed job where none is configured.
pub const DEFAULT_JOBS_TTL_SECONDS: u64 = 3600;

/// The pause between two passes of the sweeper where none is configured.
pub const DEFAULT_CLEANUP_INTERVAL_SECONDS: u64 = 600;

/// The port to listen on where none is configured.
pub const DEFAULT_PORT: u16 = 8000;

/// The address to listen on where none is configured.
pub const DEFAULT_HOST: &'static str = "0.0.0.0";

/// The interpreter of the agent where none is configured.
pub const DEFAULT_PYTHON_BIN: &'static str = "python3";

/// The largest upload that is taken, in bytes.
pub const MAX_UPLOAD_BYTES: u64 = 512 * 1024 * 1024;

/// The job storage root where none is configured. Seen from the directory
/// of the service's own sources it lies one level up.
pub fn default_jobs_dir(in_backend_workdir: bool) -> (dir: String)
    ensures
        dir@ == if in_backend_workdir {
            "../jobs"@
        } else {
            "jobs"@
        },
{
    if in_backend_workdir {
        String::from_str("../jobs")
    } else {
        String::from_str("jobs")
    }
}

/// The log directory where none is configured.
pub fn default_logs_dir(in_backend_workdir: bool) -> (dir: String)
    ensures
        dir@ == if in_backend_workdir {
            "../logs"@
        } else {
            "logs"@
        },
{
    if in_backend_workdir {
        String::from_str("../logs")
    } else {
        String::from_str("logs")
    }
}

/// The audit log file where none is configured.
pub fn default_request_records_file(in_backend_workdir: bool) -> (file: String)
    ensures
        file@ == if in_backend_workdir {
            "../request_records.txt"@
        } else {
            "request_records.txt"@
        },
{
    if in_backend_workdir {
        String::from_str("../request_records.txt")
    } else {
        String::from_str("request_records.txt")
    }
}

/// The places where the agent script is looked for, in order of
/// preference.
pub open spec fn script_candidates(in_backend_workdir: bool) -> Seq<Seq<char>> {
    if in_backend_workdir {
        seq!["../python/agent.py"@, "../agent.py"@, "agent.py"@]
    } else {
        seq!["python/agent.py"@, "agent.py"@]
    }
}

/// The place of the first candidate that is present, or of the first
/// candidate if none is. `present[i]` tells whether candidate `i` is there;
/// a candidate that `present` does not reach counts as absent.
pub open spec fn chosen_candidate(count: int, present: Seq<bool>) -> int {
    if exists|i: int| 0 <= i < count && i < present.len() && present[i] {
        choose|i: int|
            0 <= i < count && i < present.len() && present[i] && forall|j: int|
                0 <= j < i ==> !present[j]
    } else {
        0
    }
}

/// The places where the agent script is looked for, in order of
/// preference.
pub fn agent_script_candidates(in_backend_workdir: bool) -> (candidates: Vec<&'static str>)
    ensures
        candidates@.len() == script_candidates(in_backend_workdir).len(),
        forall|i: int|
            0 <= i < candidates@.len() ==> (#[trigger] candidates@[i])@ == script_candidates(
                in_backend_workdir,
            )[i],
{
    let mut candidates: Vec<&'static str> = Vec::new();
    if in_backend_workdir {
        candidates.push("../python/agent.py");
        candidates.push("../agent.py");
        candidates.push("agent.py");
    } else {
        candidates.push("python/agent.py");
        candidates.push("agent.py");
    }
    candidates
}

/// The agent script where none is configured: the first candidate that is
/// present, or the first candidate if none is.
pub fn default_agent_script(in_backend_workdir: bool, present: &Vec<bool>) -> (script: String)
    ensures
        script@ == script_candidates(in_backend_workdir)[chosen_candidate(
            script_candidates(in_backend_workdir).len() as int,
            present@,
        )],
{
    let candidates = agent_script_candidates(in_backend_workdir);
    let ghost count = candidates@.len() as int;
    let mut i: usize = 0;
    while i < candidates.len() && i < present.len()
        invariant
            i <= candidates@.len(),
            count == candidates@.len(),
            count == script_candidates(in_backend_workdir).len(),
            forall|j: int| 0 <= j < i && j < present@.len() ==> !present@[j],
            forall|k: int|
                0 <= k < candidates@.len() ==> (#[trigger] candidates@[k])@ == script_candidates(
                    in_backend_workdir,
                )[k],
        decreases candidates@.len() - i,
    {
        if present[i] {
            proof {
                let found = chosen_candidate(count, present@);
                assert(0 <= i < count && i < present@.len() && present@[i as int] && forall|j: int|
                    0 <= j < i ==> !present@[j]);
                if found < i {
                    assert(!present@[found]);
                } else if found > i {
                    assert(!present@[i as int]);
                }
            }
            return String::from_str(candidates[i]);
        }
        i += 1;
    }
    proof {
        if exists|k: int| 0 <= k < count && k < present@.len() && present@[k] {
            let k = choose|k: int| 0 <= k < count && k < present@.len() && present@[k];
            assert(!present@[k]);
        }
    }
    String::from_str(candidates[0])
}

/// Whether `c` is a decimal digit.
pub open spec fn is_decimal_digit(c: char) -> bool {
    '0' <= c && c <= '9'
}

/// The number that the decimal digits `s` stand for.
pub open spec fn digits_value(s: Seq<char>) -> nat
    decreases s.len(),
{
    if s.len() == 0 {
        0
    } else {
        (digits_value(s.drop_last()) * 10 + (s.last() as int - '0' as int)) as nat
    }
}

/// The digits of a number with an optional plus sign in front of it.
pub open spec fn unsigned_digits(s: Seq<char>) -> Seq<char> {
    if s.len() > 0 && s[0] == '+' {
        s.drop_first()
    } else {
        s
    }
}

/// The number that `s` is read as: decimal digits, at least one, after an
/// optional plus sign, with a value of `max` at most. Anything else is not
/// a number.
pub open spec fn unsigned_value(s: Seq<char>, max: u64) -> Option<u64> {
    let digits = unsigned_digits(s);
    if digits.len() > 0 && (forall|i: int|
        0 <= i < digits.len() ==> is_decimal_digit(#[trigger] digits[i])) && digits_value(digits)
        <= max {
        Some(digits_value(digits) as u64)
    } else {
        None
    }
}

/// Digits that follow a number can only make it larger.
proof fn lemma_digits_value_grows(s: Seq<char>, upto: int)
    requires
        0 <= upto <= s.len(),
        forall|i: int| 0 <= i < s.len() ==> is_decimal_digit(#[trigger] s[i]),
    ensures
        digits_value(s.subrange(0, upto)) <= digits_value(s),
    decreases s.len() - upto,
{
    if upto < s.len() {
        let shorter = s.drop_last();
        assert(shorter.subrange(0, upto) == s.subrange(0, upto));
        lemma_digits_value_grows(shorter, upto);
        assert(is_decimal_digit(s[s.len() - 1]));
    } else {
        assert(s.subrange(0, upto) == s);
    }
}

/// The number that `text` is read as, if it is one of `max` at most.
pub fn parse_unsigned(text: &str, max: u64) -> (value: Option<u64>)
    ensures
        value == unsigned_value(text@, max),
{
    let chars = chars_of(text);
    let start: usize = if chars.len() > 0 && chars[0] == '+' {
        1
    } else {
        0
    };
    let ghost digits = unsigned_digits(text@);
    assert(digits == chars@.subrange(start as int, chars@.len() as int));
    if start == chars.len() {
        return None;
    }
    let mut value: u64 = 0;
    let mut i: usize = start;
    while i < chars.len()
        invariant
            start <= i <= chars@.len(),
            digits == unsigned_digits(text@),
            digits == chars@.subrange(start as int, chars@.len() as int),
            forall|k: int| 0 <= k < i - start ==> is_decimal_digit(#[trigger] digits[k]),
            value == digits_value(digits.subrange(0, i - start)),
            value <= max,
        decreases chars@.len() - i,
    {
        let c = chars[i];
        assert(digits[i - start] == c);
        if !('0' <= c && c <= '9') {
            assert(!is_decimal_digit(digits[i - start]));
            return None;
        }
        let digit = (c as u32 - '0' as u32) as u64;
        proof {
            let longer = digits.subrange(0, i - start + 1);
            assert(longer.drop_last() == digits.subrange(0, i - start));
            assert(longer.last() == c);
            assert(digits_value(longer) == value * 10 + digit);
        }
        if value > max / 10 || digit > max - value * 10 {
            proof {
                let longer = digits.subrange(0, i - start + 1);
                assert(digits_value(longer) > max);
                if forall|k: int| 0 <= k < digits.len() ==> is_decimal_digit(#[trigger] digits[k]) {
                    lemma_digits_value_grows(digits, i - start + 1);
                }
            }
            return None;
        }
        value = value * 10 + digit;
        i += 1;
    }
    assert(digits.subrange(0, digits.len() as int) == digits);
    Some(value)
}

/// A numeric setting: the number that `raw` is read as, or `default`
/// where the setting is missing or is no number of `max` at most.
pub open spec fn number_or(raw: Option<Seq<char>>, max: u64, default: u64) -> u64 {
    match raw {
        Some(text) => match unsigned_value(text, max) {
            Some(value) => value,
            None => default,
        },
        None => default,
    }
}

/// A text setting: `raw`, or `default` where the setting is missing.
pub open spec fn text_or(raw: Option<Seq<char>>, default: Seq<char>) -> Seq<char> {
    match raw {
        Some(text) => text,
        None => default,
    }
}

/// The bypass secret: the trimmed setting, or none where that is empty or
/// the setting is missing.
pub open spec fn bypass_secret(raw: Option<Seq<char>>) -> Option<Seq<char>> {
    match raw {
        Some(text) => if trimmed(text).len() == 0 {
            None
        } else {
            Some(trimmed(text))
        },
        None => None,
    }
}

/// A numeric setting, with its default.
pub fn number_setting(raw: Option<&str>, max: u64, default: u64) -> (value: u64)
    requires
        default <= max,
    ensures
        value == number_or(text_of(raw), max, default),
        value <= max,
{
    match raw {
        Some(text) => match parse_unsigned(text, max) {
            Some(value) => value,
            None => default,
        },
        None => default,
    }
}

/// A text setting, with its default.
pub fn text_setting(raw: Option<&str>, default: &str) -> (value: String)
    ensures
        value@ == text_or(text_of(raw), default@),
{
    match raw {
        Some(text) => String::from_str(text),
        None => String::from_str(default),
    }
}

/// The bypass secret that is configured, if any.
pub fn bypass_key_setting(raw: Option<&str>) -> (secret: Option<String>)
    ensures
        match secret {
            Some(s) => bypass_secret(text_of(raw)) == Some(s@),
            None => bypass_secret(text_of(raw)) is None,
        },
{
    match raw {
        Some(text) => {
            let secret = trim(text);
            if secret.as_str().unicode_len() == 0 {
                None
            } else {
                Some(secret)
            }
        },
        None => None,
    }
}

/// The settings as they are found, each missing where it is not set.
#[derive(Debug, Clone, PartialEq, Eq, Default)]
pub struct RawSettings {
    pub jobs_dir: Option<String>,
    pub agent_script: Option<String>,
    pub python_bin: Option<String>,
    pub daily_limit_per_browser: Option<String>,
    pub bypass_key: Option<String>,
    pub jobs_ttl_seconds: Option<String>,
    pub jobs_cleanup_interval_seconds: Option<String>,
    pub request_records_file: Option<String>,
    pub host: Option<String>,
    pub port: Option<String>,
    pub log_dir: Option<String>,
}

/// The settings that the service runs with.
#[derive(Debug, Clone, PartialEq, Eq)]
pub struct Settings {
    /// The job storage root.
    pub jobs_dir: String,
    /// The script of the agent.
    pub agent_script: String,
    /// The interpreter that runs it.
    pub python_bin: String,
    /// Successful jobs per identity and day; nought for no limit.
    pub daily_limit_per_browser: u32,
    /// The secret that exempts a request from the quota, if there is one.
    pub bypass_key: Option<String>,
    /// How long a completed job is kept, in seconds; nought for ever.
    pub jobs_ttl_seconds: u64,
    /// The configured pause between two passes of the sweeper, in seconds.
    pub jobs_cleanup_interval_seconds: u64,
    /// The audit log file.
    pub request_records_file: String,
    /// The address to listen on.
    pub host: String,
    /// The port to listen on.
    pub port: u16,
    /// The log directory.
    pub log_dir: String,
}

/// The text of an optional string.
pub open spec fn setting_text(raw: Option<String>) -> Option<Seq<char>> {
    match raw {
        Some(text) => Some(text@),
        None => None,
    }
}

/// An optional string as an optional slice.
fn as_text(raw: &Option<String>) -> (text: Option<&str>)
    ensures
        text_of(text) == setting_text(*raw),
{
    match raw {
        Some(t) => Some(t.as_str()),
        None => None,
    }
}

/// The settings that the service runs with, given those that are set.
///
/// A text that is not set has its default. A number that is not set, or
/// that does not read as a number of its range, has its default. The
/// bypass secret is trimmed, and an empty one is none. `present_scripts`
/// tells for each candidate place of the agent script whether a file is
/// there; it is only looked at where no script is set.
pub fn resolve_settings(raw: &RawSettings, in_backend_workdir: bool, present_scripts: &Vec<bool>) -> (settings:
    Settings)
    ensures
        settings.jobs_dir@ == text_or(
            setting_text(raw.jobs_dir),
            if in_backend_workdir {
                "../jobs"@
            } else {
                "jobs"@
            },
        ),
        settings.agent_script@ == text_or(
            setting_text(raw.agent_script),
            script_candidates(in_backend_workdir)[chosen_candidate(
                script_candidates(in_backend_workdir).len() as int,
                present_scripts@,
            )],
        ),
        settings.python_bin@ == text_or(setting_text(raw.python_bin), DEFAULT_PYTHON_BIN@),
        settings.daily_limit_per_browser == number_or(
            setting_text(raw.daily_limit_per_browser),
            u32::MAX as u64,
            DEFAULT_DAILY_LIMIT as u64,
        ),
        setting_text(settings.bypass_key) == bypass_secret(setting_text(raw.bypass_key)),
        settings.jobs_ttl_seconds == number_or(
            setting_text(raw.jobs_ttl_seconds),
            u64::MAX,
            DEFAULT_JOBS_TTL_SECONDS,
        ),
        settings.jobs_cleanup_interval_seconds == number_or(
            setting_text(raw.jobs_cleanup_interval_seconds),
            u64::MAX,
            DEFAULT_CLEANUP_INTERVAL_SECONDS,
        ),
        settings.request_records_file@ == text_or(
            setting_text(raw.request_records_file),
            if in_backend_workdir {
                "../request_records.txt"@
            } else {
                "request_records.txt"@
            },
        ),
        settings.host@ == text_or(setting_text(raw.host), DEFAULT_HOST@),
        settings.port == number_or(setting_text(raw.port), u16::MAX as u64, DEFAULT_PORT as u64),
        settings.log_dir@ == text_or(
            setting_text(raw.log_dir),
            if in_backend_workdir {
                "../logs"@
            } else {
                "logs"@
            },
        ),
{
    let jobs_dir = match &raw.jobs_dir {
        Some(dir) => dir.clone(),
        None => default_jobs_dir(in_backend_workdir),
    };
    let agent_script = match &raw.agent_script {
        Some(script) => script.clone(),
        None => default_agent_script(in_backend_workdir, present_scripts),
    };
    let request_records_file = match &raw.request_records_file {
        Some(file) => file.clone(),
        None => default_request_records_file(in_backend_workdir),
    };
    let log_dir = match &raw.log_dir {
        Some(dir) => dir.clone(),
        None => default_logs_dir(in_backend_workdir),
    };
    let daily_limit = number_setting(
        as_text(&raw.daily_limit_per_browser),
        u32::MAX as u64,
        DEFAULT_DAILY_LIMIT as u64,
    );
    let port = number_setting(as_text(&raw.port), u16::MAX as u64, DEFAULT_PORT as u64);
    Settings {
        jobs_dir,
        agent_script,
        python_bin: text_setting(as_text(&raw.python_bin), DEFAULT_PYTHON_BIN),
        daily_limit_per_browser: daily_limit as u32,
        bypass_key: bypass_key_setting(as_text(&raw.bypass_key)),
        jobs_ttl_seconds: number_setting(
            as_text(&raw.jobs_ttl_seconds),
            u64::MAX,
            DEFAULT_JOBS_TTL_SECONDS,
        ),
        jobs_cleanup_interval_seconds: number_setting(
            as_text(&raw.jobs_cleanup_interval_seconds),
            u64::MAX,
            DEFAULT_CLEANUP_INTERVAL_SECONDS,
        ),
        request_records_file,
        host: text_setting(as_text(&raw.host), DEFAULT_HOST),
        port: port as u16,
        log_dir,
    }
}

} // verus!
