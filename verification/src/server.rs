//! The rules by which a validator's server is configured and started:
//! which shards a process runs and over which transport, what it names
//! its workers and its log file, and how the configuration of a new
//! validator is put together.

use vstd::prelude::*;
use vstd::string::*;

use crate::chain::{AccountPublicKey, ValidatorPublicKey};
use crate::shards::ShardConfig;
use crate::text::{decimal, from_chars, push_decimal, to_chars};

verus! {

/// The transport of the simple protocol.
#[derive(Clone, Copy, Debug, PartialEq, Eq, Structural)]
pub enum TransportProtocol {
    Udp,
    Tcp,
}

/// Whether a gRPC connection is encrypted.
#[derive(Clone, Copy, Debug, PartialEq, Eq, Structural)]
pub enum TlsConfig {
    ClearText,
    Tls,
}

/// A network protocol of a validator.
#[derive(Clone, Copy, Debug, PartialEq, Eq, Structural)]
pub enum NetworkProtocol {
    Simple(TransportProtocol),
    Grpc(TlsConfig),
}

/// Where a proxy of a validator listens.
#[derive(Clone, Debug, PartialEq, Eq)]
pub struct ProxyConfig {
    pub host: String,
    pub public_port: u16,
    pub private_port: u16,
    pub metrics_port: u16,
}

/// Where a block exporter of a validator listens.
#[derive(Clone, Debug, PartialEq, Eq)]
pub struct ExporterServiceConfig {
    pub host: String,
    pub port: u16,
}

/// The options from which the configuration of a new validator is made.
#[derive(Debug, PartialEq, Eq)]
pub struct ValidatorOptions {
    /// Path to the file that will hold the server configuration of the
    /// validator, its secret key included.
    pub server_config_path: String,
    /// The host of the validator.
    pub host: String,
    /// The port of the validator.
    pub port: u16,
    /// The block exporters of the validator.
    pub block_exporters: Vec<ExporterServiceConfig>,
    /// The network protocol for the frontend.
    pub external_protocol: NetworkProtocol,
    /// The network protocol for workers.
    pub internal_protocol: NetworkProtocol,
    /// The public name and the port of each of the shards.
    pub shards: Vec<ShardConfig>,
    /// The name and the ports of the proxies.
    pub proxies: Vec<ProxyConfig>,
}

/// The secret key of a validator: 32 opaque bytes.
#[derive(Debug, PartialEq, Eq)]
pub struct ValidatorSecretKey(pub [u8; 32]);

/// The keys that were generated for a new validator.
#[derive(Debug, PartialEq, Eq)]
pub struct ValidatorKeys {
    pub public_key: ValidatorPublicKey,
    pub secret_key: ValidatorSecretKey,
    pub account_key: AccountPublicKey,
}

/// How clients reach a validator.
#[derive(Debug, PartialEq, Eq)]
pub struct ValidatorPublicNetworkConfig {
    pub protocol: NetworkProtocol,
    pub host: String,
    pub port: u16,
}

/// How the parts of a validator reach each other.
#[derive(Debug, PartialEq, Eq)]
pub struct ValidatorInternalNetworkConfig {
    pub public_key: ValidatorPublicKey,
    pub protocol: NetworkProtocol,
    pub shards: Vec<ShardConfig>,
    pub block_exporters: Vec<ExporterServiceConfig>,
    pub proxies: Vec<ProxyConfig>,
}

/// What a committee knows of a validator.
#[derive(Debug, PartialEq, Eq)]
pub struct ValidatorConfig {
    pub network: ValidatorPublicNetworkConfig,
    pub public_key: ValidatorPublicKey,
    pub account_key: AccountPublicKey,
}

/// The configuration of a validator's server, its secret key included.
#[derive(Debug, PartialEq, Eq)]
pub struct ValidatorServerConfig {
    pub validator: ValidatorConfig,
    pub validator_secret: ValidatorSecretKey,
    pub internal_network: ValidatorInternalNetworkConfig,
}

/// Puts the server configuration of a new validator together from its
/// options and its freshly generated keys.
///
/// The frontend gets the external protocol, host and port; the internal
/// network gets the internal protocol, the shards, the block exporters and
/// the proxies; both carry the validator's public key.
pub fn make_server_config(options: ValidatorOptions, keys: ValidatorKeys) -> (config:
    ValidatorServerConfig)
    ensures
        config == (ValidatorServerConfig {
            validator: ValidatorConfig {
                network: ValidatorPublicNetworkConfig {
                    protocol: options.external_protocol,
                    host: options.host,
                    port: options.port,
                },
                public_key: keys.public_key,
                account_key: keys.account_key,
            },
            validator_secret: keys.secret_key,
            internal_network: ValidatorInternalNetworkConfig {
                public_key: keys.public_key,
                protocol: options.internal_protocol,
                shards: options.shards,
                block_exporters: options.block_exporters,
                proxies: options.proxies,
            },
        }),
{
    let public_key = keys.public_key;
    let network = ValidatorPublicNetworkConfig {
        protocol: options.external_protocol,
        host: options.host,
        port: options.port,
    };
    let internal_network = ValidatorInternalNetworkConfig {
        public_key,
        protocol: options.internal_protocol,
        shards: options.shards,
        block_exporters: options.block_exporters,
        proxies: options.proxies,
    };
    let validator = ValidatorConfig { network, public_key, account_key: keys.account_key };
    ValidatorServerConfig { validator, validator_secret: keys.secret_key, internal_network }
}

/// The transport over which the shards of a validator are served.
#[derive(Clone, Copy, Debug, PartialEq, Eq, Structural)]
pub enum ShardTransport {
    /// The simple protocol over the given transport.
    Simple(TransportProtocol),
    /// gRPC in clear text.
    Grpc,
}

/// Why a server cannot run.
#[derive(Clone, Copy, Debug, PartialEq, Eq, Structural)]
pub enum ServerError {
    /// The internal network asks for gRPC over TLS.
    TlsNotSupported,
}

impl ServerError {
    /// What the error says.
    pub fn message(&self) -> (text: String)
        ensures
            text@ == "TLS not supported between proxy and shards."@,
    {
        String::from_str("TLS not supported between proxy and shards.")
    }
}

/// The settings of the worker of one shard.
#[derive(Clone, Debug, PartialEq, Eq)]
pub struct ShardState {
    /// The name of the worker.
    pub nickname: String,
    /// Whether the worker serves chains that are not active.
    pub allow_inactive_chains: bool,
    /// Whether the worker takes messages from epochs that are no longer
    /// current.
    pub allow_messages_from_deprecated_epochs: bool,
    /// How far in the future, in milliseconds, the time stamp of a block
    /// may lie for the block still to be accepted.
    pub grace_period_ms: u64,
    /// The number of the shard.
    pub shard_id: usize,
    /// Where the shard listens.
    pub shard: ShardConfig,
}

/// What a server process was started with.
pub struct ServerContext {
    /// The internal network protocol of the validator.
    pub protocol: NetworkProtocol,
    /// The shards of the validator.
    pub shards: Vec<ShardConfig>,
    /// The shard that this process runs, or `None` if it runs all.
    pub shard: Option<usize>,
    /// The grace period of the workers, in milliseconds.
    pub grace_period_ms: u64,
}

/// The name of the worker of shard `shard_id`, which listens on `port`
/// of the local address `local_ip_addr`.
pub open spec fn shard_nickname(shard_id: usize, local_ip_addr: Seq<char>, port: u16) -> Seq<char> {
    "Shard "@ + decimal(shard_id as nat) + " @ "@ + local_ip_addr + ":"@ + decimal(port as nat)
}

/// The numbers of the shards that a process runs: the one it was started
/// for, or all `num_shards` of them.
pub open spec fn shards_to_run(shard: Option<usize>, num_shards: nat) -> Seq<usize> {
    match shard {
        Some(shard) => seq![shard],
        None => Seq::new(num_shards, |i: int| i as usize),
    }
}

impl ServerContext {
    /// The address that the server listens on: every local address, so
    /// that the local address may differ from the public one.
    pub fn get_listen_address(&self) -> (address: String)
        ensures
            address@ == "0.0.0.0"@,
    {
        String::from_str("0.0.0.0")
    }

    /// The settings of the worker of shard `shard_id`: its name, the
    /// process's grace period, and no tolerance for inactive chains or
    /// for messages from deprecated epochs.
    pub fn make_shard_state(&self, local_ip_addr: &str, shard_id: usize) -> (state: ShardState)
        requires
            shard_id < self.shards@.len(),
        ensures
            state.nickname@ == shard_nickname(
                shard_id,
                local_ip_addr@,
                self.shards@[shard_id as int].port,
            ),
            !state.allow_inactive_chains,
            !state.allow_messages_from_deprecated_epochs,
            state.grace_period_ms == self.grace_period_ms,
            state.shard_id == shard_id,
            state.shard@ == self.shards@[shard_id as int]@,
    {
        let shard = &self.shards[shard_id];
        let mut chars = to_chars("Shard ");
        push_decimal(&mut chars, shard_id as u128);
        let mut nickname = from_chars(&chars);
        nickname.append(" @ ");
        nickname.append(local_ip_addr);
        nickname.append(":");
        let mut port_chars: Vec<char> = Vec::new();
        push_decimal(&mut port_chars, shard.port as u128);
        nickname.append(from_chars(&port_chars).as_str());
        assert(port_chars@ =~= decimal(shard.port as nat));
        ShardState {
            nickname,
            allow_inactive_chains: false,
            allow_messages_from_deprecated_epochs: false,
            grace_period_ms: self.grace_period_ms,
            shard_id,
            shard: ShardConfig {
                host: shard.host.clone(),
                port: shard.port,
                metrics_port: shard.metrics_port,
            },
        }
    }

    /// The transport over which this process serves its shards. gRPC
    /// between proxy and shards is served in clear text only.
    pub fn transport(&self) -> (transport: Result<ShardTransport, ServerError>)
        ensures
            transport == match self.protocol {
                NetworkProtocol::Simple(protocol) => Ok::<ShardTransport, ServerError>(
                    ShardTransport::Simple(protocol),
                ),
                NetworkProtocol::Grpc(TlsConfig::ClearText) => Ok(ShardTransport::Grpc),
                NetworkProtocol::Grpc(TlsConfig::Tls) => Err(ServerError::TlsNotSupported),
            },
    {
        match self.protocol {
            NetworkProtocol::Simple(protocol) => Ok(ShardTransport::Simple(protocol)),
            NetworkProtocol::Grpc(tls_config) => match tls_config {
                TlsConfig::ClearText => Ok(ShardTransport::Grpc),
                TlsConfig::Tls => Err(ServerError::TlsNotSupported),
            },
        }
    }

    /// The worker settings of the shards that this process runs, in the
    /// order of the shards, and the transport to serve them over.
    ///
    /// A process started for one shard runs that shard, which must be one
    /// of the validator's; a process started for none runs them all.
    pub fn run(&self, listen_address: &str) -> (plan: Result<(ShardTransport, Vec<ShardState>), ServerError>)
        requires
            self.shard matches Some(shard) ==> shard < self.shards@.len(),
        ensures
            match plan {
                Ok((transport, states)) => {
                    &&& self.protocol != NetworkProtocol::Grpc(TlsConfig::Tls)
                    &&& transport == match self.protocol {
                        NetworkProtocol::Simple(protocol) => ShardTransport::Simple(protocol),
                        NetworkProtocol::Grpc(_) => ShardTransport::Grpc,
                    }
                    &&& states@.len() == shards_to_run(self.shard, self.shards@.len()).len()
                    &&& forall|i: int|
                        0 <= i < states@.len() ==> {
                            let shard_id = shards_to_run(self.shard, self.shards@.len())[i];
                            &&& (#[trigger] states@[i]).shard_id == shard_id
                            &&& states@[i].nickname@ == shard_nickname(
                                shard_id,
                                listen_address@,
                                self.shards@[shard_id as int].port,
                            )
                            &&& states@[i].shard@ == self.shards@[shard_id as int]@
                            &&& states@[i].grace_period_ms == self.grace_period_ms
                            &&& !states@[i].allow_inactive_chains
                            &&& !states@[i].allow_messages_from_deprecated_epochs
                        }
                },
                Err(error) => self.protocol == NetworkProtocol::Grpc(TlsConfig::Tls)
                    && error == ServerError::TlsNotSupported,
            },
    {
        let mut states: Vec<ShardState> = Vec::new();
        match self.shard {
            Some(shard) => {
                states.push(self.make_shard_state(listen_address, shard));
            },
            None => {
                let num_shards: usize = self.shards.len();
                let mut shard: usize = 0;
                while shard < num_shards
                    invariant
                        num_shards == self.shards@.len(),
                        shard <= num_shards,
                        states@.len() == shard,
                        forall|i: int|
                            0 <= i < shard ==> {
                                &&& (#[trigger] states@[i]).shard_id == i
                                &&& states@[i].nickname@ == shard_nickname(
                                    i as usize,
                                    listen_address@,
                                    self.shards@[i].port,
                                )
                                &&& states@[i].shard@ == self.shards@[i]@
                                &&& states@[i].grace_period_ms == self.grace_period_ms
                                &&& !states@[i].allow_inactive_chains
                                &&& !states@[i].allow_messages_from_deprecated_epochs
                            },
                    decreases num_shards - shard,
                {
                    states.push(self.make_shard_state(listen_address, shard));
                    shard += 1;
                }
            },
        }
        match self.transport() {
            Ok(transport) => Ok((transport, states)),
            Err(error) => Err(error),
        }
    }
}

/// What a server process was told to do, as far as the name of its log
/// file depends on it.
#[derive(Clone, Debug, PartialEq, Eq)]
pub enum ServerCommand {
    /// Run the shards of the validator with this public key, or one of
    /// them.
    Run { public_key: String, shard: Option<usize> },
    /// Generate the configurations of new validators.
    Generate,
    /// Replace the shards of a validator's configuration.
    EditShards,
}

/// The name of the log file of a process that runs `command`.
pub open spec fn log_file_name_spec(command: ServerCommand) -> Seq<char> {
    match command {
        ServerCommand::Run { public_key, shard: Some(shard) } => "validator-"@ + public_key@
            + "-shard-"@ + decimal(shard as nat),
        ServerCommand::Run { public_key, shard: None } => "validator-"@ + public_key@,
        ServerCommand::Generate | ServerCommand::EditShards => "server"@,
    }
}

/// Returns the log file name to use based on the [`ServerCommand`] that
/// will run.
pub fn log_file_name_for(command: &ServerCommand) -> (name: String)
    ensures
        name@ == log_file_name_spec(*command),
{
    match command {
        ServerCommand::Run { public_key, shard } => {
            let mut name = String::from_str("validator-");
            name.append(public_key.as_str());
            match shard {
                Some(shard) => {
                    name.append("-shard-");
                    let mut digits: Vec<char> = Vec::new();
                    push_decimal(&mut digits, *shard as u128);
                    assert(digits@ =~= decimal(*shard as nat));
                    name.append(from_chars(&digits).as_str());
                    name
                },
                None => name,
            }
        },
        ServerCommand::Generate | ServerCommand::EditShards => String::from_str("server"),
    }
}

/// The executor on which a server process runs its tasks.
#[derive(Clone, Copy, Debug, PartialEq, Eq, Structural)]
pub enum RuntimeFlavor {
    /// Every task on the current thread.
    CurrentThread,
    /// A pool of worker threads, of the given size if one is given.
    MultiThread { worker_threads: Option<usize> },
}

/// The executor of a process that was asked for `tokio_threads` worker
/// threads: a single thread runs everything itself, any other number, or
/// none, makes a pool.
pub fn runtime_flavor(tokio_threads: Option<usize>) -> (flavor: RuntimeFlavor)
    ensures
        flavor == if tokio_threads == Some(1usize) {
            RuntimeFlavor::CurrentThread
        } else {
            RuntimeFlavor::MultiThread { worker_threads: tokio_threads }
        },
{
    match tokio_threads {
        Some(1) => RuntimeFlavor::CurrentThread,
        _ => RuntimeFlavor::MultiThread { worker_threads: tokio_threads },
    }
}

} // verus!
