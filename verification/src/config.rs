//! Agent configuration: the settings an agent runs with, resolved from the
//! values found in its environment and the defaults for those that are
//! absent or unreadable.

use vstd::prelude::*;
use vstd::string::*;

verus! {

/// Ingestor endpoint of an agent that is given none.
pub const DEFAULT_INGESTOR_URL: &'static str = "http://127.0.0.1:50051";

/// Tenant of an agent that is given none.
pub const DEFAULT_TENANT_ID: &'static str = "default";

/// Whether an agent scans for sensitive data when it is not told.
pub const DEFAULT_DLP_ENABLED: bool = true;

/// Events per batch of an agent that is given no batch size.
pub const DEFAULT_BATCH_SIZE: usize = 100;

/// Events that an agent buffers at most when it is given no limit.
pub const DEFAULT_MAX_BUFFER_SIZE: usize = 10000;

/// The settings of an agent.
#[derive(Debug, Clone)]
pub struct AgentConfig {
    /// Unique agent identifier.
    pub agent_id: String,
    /// Endpoint that events are streamed to.
    pub ingestor_url: String,
    /// Tenant that the agent reports for.
    pub tenant_id: String,
    /// Whether buffers are scanned for sensitive data.
    pub dlp_enabled: bool,
    /// Number of events sent in one batch.
    pub batch_size: usize,
    /// Largest number of events held back at a time.
    pub max_buffer_size: usize,
}

/// The values found in the environment, each absent if its variable is
/// unset or not valid Unicode.
#[derive(Debug, Clone)]
pub struct EnvSettings {
    /// Agent identifier.
    pub agent_id: Option<String>,
    /// Ingestor endpoint.
    pub ingestor_url: Option<String>,
    /// Tenant identifier.
    pub tenant_id: Option<String>,
    /// `true` or `false`.
    pub dlp_enabled: Option<String>,
    /// Batch size, in decimal digits.
    pub batch_size: Option<String>,
    /// Buffer limit, in decimal digits.
    pub max_buffer_size: Option<String>,
}

/// The text of a setting, or `fallback` where the setting is absent.
pub open spec fn text_or(setting: Option<String>, fallback: Seq<char>) -> Seq<char> {
    match setting {
        Some(text) => text@,
        None => fallback,
    }
}

/// The truth value that `text` spells: `true` or `false`, in exactly these
/// letters, and nothing else.
pub open spec fn flag_of(text: Seq<char>) -> Option<bool> {
    if text == seq!['t', 'r', 'u', 'e'] {
        Some(true)
    } else if text == seq!['f', 'a', 'l', 's', 'e'] {
        Some(false)
    } else {
        None
    }
}

/// Whether `c` is one of the decimal digits `0` to `9`.
pub open spec fn is_digit(c: char) -> bool {
    '0' <= c <= '9'
}

/// The value of the digit `c`; zero for any other character.
pub open spec fn digit_value(c: char) -> nat {
    if is_digit(c) {
        (c as u32 - '0' as u32) as nat
    } else {
        0
    }
}

/// Whether `digits` consists of decimal digits only.
pub open spec fn all_digits(digits: Seq<char>) -> bool {
    forall|i: int| 0 <= i < digits.len() ==> is_digit(#[trigger] digits[i])
}

/// The number that `digits` spells in base ten, the most significant digit
/// first.
pub open spec fn decimal_value(digits: Seq<char>) -> nat
    decreases digits.len(),
{
    if digits.len() == 0 {
        0
    } else {
        10 * decimal_value(digits.drop_last()) + digit_value(digits.last())
    }
}

/// `text` without the plus sign that it may start with.
pub open spec fn unsigned_part(text: Seq<char>) -> Seq<char> {
    if text.len() > 0 && text[0] == '+' {
        text.skip(1)
    } else {
        text
    }
}

/// The count that `text` spells: an optional plus sign and then at least
/// one decimal digit and nothing else, of a value that a `usize` holds.
pub open spec fn count_of(text: Seq<char>) -> Option<usize> {
    let digits = unsigned_part(text);
    if digits.len() > 0 && all_digits(digits) && decimal_value(digits) <= usize::MAX {
        Some(decimal_value(digits) as usize)
    } else {
        None
    }
}

/// The truth value of a setting: what its text spells, or `fallback` where
/// the setting is absent or spells none.
pub open spec fn flag_or(setting: Option<String>, fallback: bool) -> bool {
    match setting {
        Some(text) => match flag_of(text@) {
            Some(flag) => flag,
            None => fallback,
        },
        None => fallback,
    }
}

/// The count of a setting: what its text spells, or `fallback` where the
/// setting is absent or spells none.
pub open spec fn count_or(setting: Option<String>, fallback: usize) -> usize {
    match setting {
        Some(text) => match count_of(text@) {
            Some(count) => count,
            None => fallback,
        },
        None => fallback,
    }
}

/// A text that spells a truth value has the letters of `true` or of
/// `false`, one by one.
pub proof fn lemma_flag_letters(text: Seq<char>)
    ensures
        flag_of(text) == Some(true) <==> text.len() == 4 && text[0] == 't' && text[1] == 'r'
            && text[2] == 'u' && text[3] == 'e',
        flag_of(text) == Some(false) <==> text.len() == 5 && text[0] == 'f' && text[1] == 'a'
            && text[2] == 'l' && text[3] == 's' && text[4] == 'e',
{
    let yes = seq!['t', 'r', 'u', 'e'];
    let no = seq!['f', 'a', 'l', 's', 'e'];
    if text.len() == 4 && text[0] == 't' && text[1] == 'r' && text[2] == 'u' && text[3] == 'e' {
        assert(text =~= yes);
    }
    if text.len() == 5 && text[0] == 'f' && text[1] == 'a' && text[2] == 'l' && text[3] == 's'
        && text[4] == 'e' {
        assert(text =~= no);
    }
}

/// A prefix of a digit string spells no more than the string itself.
pub proof fn lemma_decimal_prefix(digits: Seq<char>, n: int)
    requires
        0 <= n <= digits.len(),
    ensures
        decimal_value(digits.take(n)) <= decimal_value(digits),
    decreases digits.len(),
{
    if n == digits.len() {
        assert(digits.take(n) =~= digits);
    } else {
        lemma_decimal_prefix(digits.drop_last(), n);
        assert(digits.drop_last().take(n) =~= digits.take(n));
    }
}

/// Appending a character to a digit string multiplies what it spells by
/// ten and adds the value of the character.
pub proof fn lemma_decimal_push(digits: Seq<char>, c: char)
    ensures
        decimal_value(digits.push(c)) == 10 * decimal_value(digits) + digit_value(c),
{
    assert(digits.push(c).drop_last() =~= digits);
}

/// Reads a truth value: `Some(true)` for `true`, `Some(false)` for `false`,
/// nothing for any other text.
pub fn parse_flag(text: &str) -> (flag: Option<bool>)
    ensures
        flag == flag_of(text@),
{
    let len = text.unicode_len();
    if len == 4 && text.get_char(0) == 't' && text.get_char(1) == 'r' && text.get_char(2) == 'u'
        && text.get_char(3) == 'e' {
        assert(text@ =~= seq!['t', 'r', 'u', 'e']);
        Some(true)
    } else if len == 5 && text.get_char(0) == 'f' && text.get_char(1) == 'a' && text.get_char(2)
        == 'l' && text.get_char(3) == 's' && text.get_char(4) == 'e' {
        assert(text@ =~= seq!['f', 'a', 'l', 's', 'e']);
        Some(false)
    } else {
        proof {
            lemma_flag_letters(text@);
        }
        None
    }
}

/// Reads a count: an optional plus sign followed by decimal digits. Text
/// without a digit, with any other character, or of a value beyond
/// `usize::MAX` gives nothing.
pub fn parse_count(text: &str) -> (count: Option<usize>)
    ensures
        count == count_of(text@),
{
    let len = text.unicode_len();
    if len == 0 {
        return None;
    }
    let start: usize = if text.get_char(0) == '+' {
        1
    } else {
        0
    };
    let ghost digits = unsigned_part(text@);
    if start == len {
        return None;
    }
    let mut value: usize = 0;
    let mut i: usize = start;
    while i < len
        invariant
            len == text@.len(),
            start <= i <= len,
            digits == text@.skip(start as int),
            digits == unsigned_part(text@),
            all_digits(digits.take(i - start)),
            value == decimal_value(digits.take(i - start)),
        decreases len - i,
    {
        let c = text.get_char(i);
        if !('0' <= c && c <= '9') {
            assert(!is_digit(digits[i - start]));
            return None;
        }
        let digit = (c as u32 - '0' as u32) as usize;
        proof {
            lemma_decimal_push(digits.take(i - start), c);
            assert(digits.take(i - start + 1) =~= digits.take(i - start).push(c));
        }
        if value > (usize::MAX - digit) / 10 {
            proof {
                lemma_decimal_prefix(digits, i - start + 1);
            }
            return None;
        }
        value = value * 10 + digit;
        i += 1;
    }
    assert(digits.take(len - start) =~= digits);
    Some(value)
}

impl AgentConfig {
    /// Resolves the settings of an agent from what its environment holds.
    ///
    /// A text setting that is present is taken as it is. An absent
    /// identifier becomes `fresh_id`, an absent endpoint or tenant its
    /// default. The flag and the two counts take their default where they
    /// are absent and also where their text does not spell a value.
    pub fn load(env: EnvSettings, fresh_id: String) -> (config: AgentConfig)
        ensures
            config.agent_id@ == text_or(env.agent_id, fresh_id@),
            config.ingestor_url@ == text_or(env.ingestor_url, DEFAULT_INGESTOR_URL@),
            config.tenant_id@ == text_or(env.tenant_id, DEFAULT_TENANT_ID@),
            config.dlp_enabled == flag_or(env.dlp_enabled, DEFAULT_DLP_ENABLED),
            config.batch_size == count_or(env.batch_size, DEFAULT_BATCH_SIZE),
            config.max_buffer_size == count_or(env.max_buffer_size, DEFAULT_MAX_BUFFER_SIZE),
    {
        let agent_id = match env.agent_id {
            Some(text) => text,
            None => fresh_id,
        };
        let ingestor_url = match env.ingestor_url {
            Some(text) => text,
            None => DEFAULT_INGESTOR_URL.to_owned(),
        };
        let tenant_id = match env.tenant_id {
            Some(text) => text,
            None => DEFAULT_TENANT_ID.to_owned(),
        };
        let dlp_enabled = flag_setting(&env.dlp_enabled, DEFAULT_DLP_ENABLED);
        let batch_size = count_setting(&env.batch_size, DEFAULT_BATCH_SIZE);
        let max_buffer_size = count_setting(&env.max_buffer_size, DEFAULT_MAX_BUFFER_SIZE);
        AgentConfig { agent_id, ingestor_url, tenant_id, dlp_enabled, batch_size, max_buffer_size }
    }
}

/// The truth value of a setting, or `fallback` where it has none.
pub fn flag_setting(setting: &Option<String>, fallback: bool) -> (flag: bool)
    ensures
        flag == flag_or(*setting, fallback),
{
    match setting {
        Some(text) => match parse_flag(text.as_str()) {
            Some(flag) => flag,
            None => fallback,
        },
        None => fallback,
    }
}

/// The count of a setting, or `fallback` where it has none.
pub fn count_setting(setting: &Option<String>, fallback: usize) -> (count: usize)
    ensures
        count == count_or(*setting, fallback),
{
    match setting {
        Some(text) => match parse_count(text.as_str()) {
            Some(count) => count,
            None => fallback,
        },
        None => fallback,
    }
}

} // verus!
