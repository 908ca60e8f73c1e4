//! The limits that a control group sets.
use vstd::prelude::*;

use crate::text::{parse_unsigned, read_unsigned, same_text, texts, words, words_of};

verus! {

/// A share of processor time: so much of it in each period.
#[derive(Clone, Copy, Debug, PartialEq, Eq, Structural)]
pub struct CpuQuota {
    pub quota: u64,
    pub period: u64,
}

/// The limits of a control group, where it sets any.
#[derive(Clone, Copy, Debug, PartialEq, Eq, Structural)]
pub struct ResourceLimits {
    pub cpu_quota: Option<CpuQuota>,
    pub mem_limit_bytes: Option<u64>,
}

/// The number that a word writes, where it is above zero.
pub open spec fn positive_number(word: Seq<char>) -> Option<nat> {
    match read_unsigned(word, u64::MAX as nat) {
        Ok(n) => if n > 0 {
            Some(n)
        } else {
            None
        },
        Err(_) => None,
    }
}

/// The share of processor time that a `cpu.max` file grants.
pub open spec fn cpu_max_of(contents: Seq<char>) -> Option<(nat, nat)> {
    let fields = words_of(contents);
    if fields.len() < 2 || fields[0] == "max"@ {
        None
    } else {
        match (positive_number(fields[0]), positive_number(fields[1])) {
            (Some(quota), Some(period)) => Some((quota, period)),
            _ => None,
        }
    }
}

/// The bytes of memory that a `memory.max` file grants.
pub open spec fn memory_max_of(contents: Seq<char>) -> Option<nat> {
    let fields = words_of(contents);
    if fields.len() < 1 || fields[0] == "max"@ {
        None
    } else {
        positive_number(fields[0])
    }
}

fn parse_positive(word: &str) -> (r: Option<u64>)
    ensures
        match r {
            Some(n) => positive_number(word@) == Some(n as nat),
            None => positive_number(word@) is None,
        },
{
    match parse_unsigned(word, u64::MAX) {
        Ok(n) => {
            if n > 0 {
                Some(n)
            } else {
                None
            }
        },
        Err(_) => None,
    }
}

/// Reads a `cpu.max` file: nothing where there is no limit, or where it is not two positive
/// numbers.
pub fn parse_cpu_max(contents: &str) -> (r: Option<CpuQuota>)
    ensures
        match r {
            Some(share) => cpu_max_of(contents@) == Some((share.quota as nat, share.period as nat)),
            None => cpu_max_of(contents@) is None,
        },
{
    let fields = words(contents);
    assert(texts(fields@).len() == fields@.len());
    if fields.len() < 2 || same_text(fields[0].as_str(), "max") {
        return None;
    }
    assert(texts(fields@)[0] == fields@[0]@ && texts(fields@)[1] == fields@[1]@);
    match (parse_positive(fields[0].as_str()), parse_positive(fields[1].as_str())) {
        (Some(quota), Some(period)) => Some(CpuQuota { quota, period }),
        _ => None,
    }
}

/// Reads a `memory.max` file: nothing where there is no limit, or where it is no positive number.
pub fn parse_memory_max(contents: &str) -> (r: Option<u64>)
    ensures
        match r {
            Some(bytes) => memory_max_of(contents@) == Some(bytes as nat),
            None => memory_max_of(contents@) is None,
        },
{
    let fields = words(contents);
    assert(texts(fields@).len() == fields@.len());
    if fields.len() < 1 || same_text(fields[0].as_str(), "max") {
        return None;
    }
    assert(texts(fields@)[0] == fields@[0]@);
    parse_positive(fields[0].as_str())
}

/// The limits in the files of a control group, where the files could be read.
pub fn limits_from(cpu_max: Option<String>, memory_max: Option<String>) -> (r: ResourceLimits)
    ensures
        match (cpu_max, r.cpu_quota) {
            (Some(contents), Some(share)) => cpu_max_of(contents@) == Some(
                (share.quota as nat, share.period as nat),
            ),
            (Some(contents), None) => cpu_max_of(contents@) is None,
            (None, quota) => quota is None,
        },
        match (memory_max, r.mem_limit_bytes) {
            (Some(contents), Some(bytes)) => memory_max_of(contents@) == Some(bytes as nat),
            (Some(contents), None) => memory_max_of(contents@) is None,
            (None, bytes) => bytes is None,
        },
        r.cpu_quota matches Some(share) ==> share.quota > 0 && share.period > 0,
        r.mem_limit_bytes matches Some(bytes) ==> bytes > 0,
{
    ResourceLimits {
        cpu_quota: match cpu_max {
            Some(contents) => parse_cpu_max(contents.as_str()),
            None => None,
        },
        mem_limit_bytes: match memory_max {
            Some(contents) => parse_memory_max(contents.as_str()),
            None => None,
        },
    }
}

/// A limit of processors is a quota and a period, both above zero, in the first two words; `max`
/// in place of the quota is no limit.
pub proof fn law_cpu_limit_read(contents: Seq<char>)
    ensures
        ({
            let words = words_of(contents);
            &&& words.len() < 2 ==> cpu_max_of(contents) is None
            &&& words.len() > 0 && words[0] == "max"@ ==> cpu_max_of(contents) is None
                && memory_max_of(contents) is None
            &&& words.len() == 0 ==> memory_max_of(contents) is None
            &&& words.len() >= 2 && words[0] != "max"@ ==> (cpu_max_of(contents) matches Some(
                (quota, period),
            ) ==> quota > 0 && period > 0 && read_unsigned(words[0], u64::MAX as nat) == Ok::<
                nat,
                crate::text::NumberError,
            >(quota) && read_unsigned(words[1], u64::MAX as nat) == Ok::<
                nat,
                crate::text::NumberError,
            >(period))
        }),
{
}

/// A number above zero is taken as it is, and zero is no limit.
pub proof fn law_limit_is_positive(word: Seq<char>, n: nat)
    requires
        read_unsigned(word, u64::MAX as nat) == Ok::<nat, crate::text::NumberError>(n),
    ensures
        n > 0 ==> positive_number(word) == Some(n),
        n == 0 ==> positive_number(word) is None,
{
}

} // verus!
