//! Shard configurations generated from a template: runs of `%` in host
//! and port stand for the zero-padded number of the shard.

use vstd::prelude::*;
use vstd::string::*;

use crate::text::{
    from_chars, parse_decimal, parse_unsigned, replace_first, replace_first_occurrence, to_chars,
    zero_padded, zero_padded_decimal,
};

verus! {

/// Where one shard of a validator listens.
#[derive(Clone, Debug, PartialEq, Eq)]
pub struct ShardConfig {
    /// The host name or address of the shard.
    pub host: String,
    /// The port of its main endpoint.
    pub port: u16,
    /// The port of its metrics endpoint, if it has one.
    pub metrics_port: Option<u16>,
}

/// A shard configuration as plain values.
pub ghost struct ShardConfigView {
    pub host: Seq<char>,
    pub port: u16,
    pub metrics_port: Option<u16>,
}

impl View for ShardConfig {
    type V = ShardConfigView;

    open spec fn view(&self) -> ShardConfigView {
        ShardConfigView { host: self.host@, port: self.port, metrics_port: self.metrics_port }
    }
}

/// Why shard configurations could not be generated.
#[derive(Clone, Copy, Debug, PartialEq, Eq, Structural)]
pub enum ShardConfigError {
    /// The number of shards is not a number from 1 to 65535.
    InvalidNumShards,
    /// The port of some shard is not a number from 0 to 65535.
    InvalidPort,
    /// The metrics port of some shard is not a number from 0 to 65535.
    InvalidMetricsPort,
}

impl ShardConfigError {
    /// What the error says.
    pub fn message(&self) -> (text: String)
        ensures
            text@ == match *self {
                ShardConfigError::InvalidNumShards => "Failed to parse the number of shards"@,
                ShardConfigError::InvalidPort => "Failed to decode port into an integers"@,
                ShardConfigError::InvalidMetricsPort => "Failed to decode metrics port into an integers"@,
            },
    {
        match self {
            ShardConfigError::InvalidNumShards => String::from_str(
                "Failed to parse the number of shards",
            ),
            ShardConfigError::InvalidPort => String::from_str(
                "Failed to decode port into an integers",
            ),
            ShardConfigError::InvalidMetricsPort => String::from_str(
                "Failed to decode metrics port into an integers",
            ),
        }
    }
}

/// The largest port number.
pub const MAX_PORT: u32 = 65535;

/// The number of shards that `num_shards` asks for: a decimal number from
/// 1 to 65535.
pub open spec fn shard_count(num_shards: Seq<char>) -> Option<nat> {
    match parse_unsigned(num_shards, MAX_PORT as nat) {
        Some(count) => if count > 0 {
            Some(count)
        } else {
            None
        },
        None => None,
    }
}

/// The placeholder for a shard number of `width` digits: `%`, `width`
/// times.
pub open spec fn shard_pattern(width: nat) -> Seq<char> {
    Seq::new(width, |i: int| '%')
}

/// `template` with its first placeholder of `width` characters replaced by
/// the number `index`, zero-padded to that width.
pub open spec fn templated(template: Seq<char>, width: nat, index: nat) -> Seq<char> {
    replace_first(template, shard_pattern(width), zero_padded(index, width))
}

/// The configuration of shard number `index`, counted from 1: host, port
/// and metrics port are their templates filled in with the number, and
/// each port must then read as a port number.
pub open spec fn shard_spec(
    index: nat,
    width: nat,
    host: Seq<char>,
    port: Seq<char>,
    metrics_port: Option<Seq<char>>,
) -> Result<ShardConfigView, ShardConfigError> {
    match parse_unsigned(templated(port, width, index), MAX_PORT as nat) {
        None => Err(ShardConfigError::InvalidPort),
        Some(port_number) => match metrics_port {
            None => Ok(
                ShardConfigView {
                    host: templated(host, width, index),
                    port: port_number as u16,
                    metrics_port: None,
                },
            ),
            Some(metrics_template) => match parse_unsigned(
                templated(metrics_template, width, index),
                MAX_PORT as nat,
            ) {
                None => Err(ShardConfigError::InvalidMetricsPort),
                Some(metrics_number) => Ok(
                    ShardConfigView {
                        host: templated(host, width, index),
                        port: port_number as u16,
                        metrics_port: Some(metrics_number as u16),
                    },
                ),
            },
        },
    }
}

/// What generating the shards comes to: one configuration for each number
/// from 1 to the count, or the error of the first shard that has one.
pub open spec fn is_generated(
    num_shards: Seq<char>,
    host: Seq<char>,
    port: Seq<char>,
    metrics_port: Option<Seq<char>>,
    result: Result<Vec<ShardConfig>, ShardConfigError>,
) -> bool {
    let width = num_shards.len();
    match shard_count(num_shards) {
        None => result matches Err(error) && error == ShardConfigError::InvalidNumShards,
        Some(count) => match result {
            Ok(shards) => {
                &&& shards@.len() == count
                &&& forall|i: int|
                    0 <= i < count ==> shard_spec((i + 1) as nat, width, host, port, metrics_port)
                        == Ok::<ShardConfigView, ShardConfigError>((#[trigger] shards@[i])@)
            },
            Err(error) => exists|i: int|
                {
                    &&& 0 <= i < count
                    &&& #[trigger] shard_spec((i + 1) as nat, width, host, port, metrics_port)
                        == Err::<ShardConfigView, ShardConfigError>(error)
                    &&& forall|j: int|
                        0 <= j < i ==> (#[trigger] shard_spec(
                            (j + 1) as nat,
                            width,
                            host,
                            port,
                            metrics_port,
                        )) is Ok
                },
        },
    }
}

/// The view of an optional string.
pub open spec fn optional_text(text: Option<String>) -> Option<Seq<char>> {
    match text {
        Some(text) => Some(text@),
        None => None,
    }
}

/// Generates the configurations of the shards numbered from 1 to
/// `num_shards`.
///
/// `num_shards` is written with as many digits as shard numbers shall
/// have. In `host`, `port` and `metrics_port`, the first run of that many
/// `%` is replaced by the shard's number, written with that many digits.
pub fn generate_shard_configs(
    num_shards: String,
    host: String,
    port: String,
    metrics_port: Option<String>,
) -> (result: Result<Vec<ShardConfig>, ShardConfigError>)
    ensures
        is_generated(num_shards@, host@, port@, optional_text(metrics_port), result),
{
    let count_chars = to_chars(num_shards.as_str());
    let width: usize = count_chars.len();
    let count: u32 = match parse_decimal(&count_chars, MAX_PORT) {
        Some(count) => count,
        None => {
            return Err(ShardConfigError::InvalidNumShards);
        },
    };
    if count == 0 {
        return Err(ShardConfigError::InvalidNumShards);
    }
    let mut pattern: Vec<char> = Vec::new();
    let mut k: usize = 0;
    while k < width
        invariant
            k <= width,
            pattern@ == shard_pattern(k as nat),
        decreases width - k,
    {
        pattern.push('%');
        assert(pattern@ =~= shard_pattern((k + 1) as nat));
        k += 1;
    }
    let host_chars = to_chars(host.as_str());
    let port_chars = to_chars(port.as_str());
    let metrics_chars: Option<Vec<char>> = match &metrics_port {
        Some(template) => Some(to_chars(template.as_str())),
        None => None,
    };
    let ghost metrics_spec = optional_text(metrics_port);
    let mut shards: Vec<ShardConfig> = Vec::new();
    let mut i: u32 = 0;
    while i < count
        invariant
            i <= count <= MAX_PORT,
            shard_count(num_shards@) == Some(count as nat),
            width == num_shards@.len(),
            pattern@ == shard_pattern(width as nat),
            host_chars@ == host@,
            port_chars@ == port@,
            metrics_spec == optional_text(metrics_port),
            match metrics_chars {
                Some(chars) => metrics_spec == Some(chars@),
                None => metrics_spec is None,
            },
            shards@.len() == i,
            forall|j: int|
                0 <= j < i ==> shard_spec((j + 1) as nat, width as nat, host@, port@, metrics_spec)
                    == Ok::<ShardConfigView, ShardConfigError>((#[trigger] shards@[j])@),
        decreases count - i,
    {
        let index = zero_padded_decimal((i + 1) as u128, width);
        let ghost this = shard_spec((i + 1) as nat, width as nat, host@, port@, metrics_spec);
        let shard_host = from_chars(&replace_first_occurrence(&host_chars, &pattern, &index));
        let shard_port: u16 = match parse_decimal(
            &replace_first_occurrence(&port_chars, &pattern, &index),
            MAX_PORT,
        ) {
            Some(number) => number as u16,
            None => {
                proof {
                    assert(this == Err::<ShardConfigView, ShardConfigError>(
                        ShardConfigError::InvalidPort,
                    ));
                    assert forall|j: int| 0 <= j < i implies (#[trigger] shard_spec(
                        (j + 1) as nat,
                        width as nat,
                        host@,
                        port@,
                        metrics_spec,
                    )) is Ok by {
                        assert(shard_spec((j + 1) as nat, width as nat, host@, port@, metrics_spec)
                            == Ok::<ShardConfigView, ShardConfigError>(shards@[j]@));
                    }
                }
                return Err(ShardConfigError::InvalidPort);
            },
        };
        let shard_metrics_port: Option<u16> = match &metrics_chars {
            None => None,
            Some(template) => match parse_decimal(
                &replace_first_occurrence(template, &pattern, &index),
                MAX_PORT,
            ) {
                Some(number) => Some(number as u16),
                None => {
                    proof {
                        assert(this == Err::<ShardConfigView, ShardConfigError>(
                            ShardConfigError::InvalidMetricsPort,
                        ));
                        assert forall|j: int| 0 <= j < i implies (#[trigger] shard_spec(
                            (j + 1) as nat,
                            width as nat,
                            host@,
                            port@,
                            metrics_spec,
                        )) is Ok by {
                            assert(shard_spec(
                                (j + 1) as nat,
                                width as nat,
                                host@,
                                port@,
                                metrics_spec,
                            ) == Ok::<ShardConfigView, ShardConfigError>(shards@[j]@));
                        }
                    }
                    return Err(ShardConfigError::InvalidMetricsPort);
                },
            },
        };
        let shard = ShardConfig {
            host: shard_host,
            port: shard_port,
            metrics_port: shard_metrics_port,
        };
        assert(this == Ok::<ShardConfigView, ShardConfigError>(shard@));
        shards.push(shard);
        i += 1;
    }
    Ok(shards)
}

} // verus!
