//! Node configuration: its defaults, where it is loaded from, and what is
//! done about the validator's key file.

use crate::keys::{
    decode_public_key, decoded_key, private_key, public_key, public_of, seeded_key,
};
use crate::text::{append, append_decimal, decimal_of};
use commonware_cryptography::ed25519::PrivateKey;
use commonware_cryptography::ed25519::PublicKey;
use vstd::prelude::*;

verus! {

/// The default chain id of the network.
pub const DEFAULT_CHAIN_ID: u64 = 7750;

/// The default data directory.
pub const DEFAULT_DATA_DIR: &'static str = "/var/lib/monmouth";

/// The default validator threshold.
pub const DEFAULT_THRESHOLD: u32 = 2;

/// The number of bytes of a validator key and of a participant's public key.
pub const KEY_LENGTH: usize = 32;

/// The default validator threshold.
pub fn default_threshold() -> (threshold: u32)
    ensures
        threshold == 2,
{
    DEFAULT_THRESHOLD
}

/// The default chain id.
pub fn default_chain_id() -> (chain_id: u64)
    ensures
        chain_id == 7750,
{
    DEFAULT_CHAIN_ID
}

/// The default data directory.
pub fn default_data_dir() -> (dir: String)
    ensures
        dir@ == "/var/lib/monmouth"@,
{
    DEFAULT_DATA_DIR.to_owned()
}

/// Why configuration could not be loaded, parsed or used.
#[derive(Debug, PartialEq, Eq)]
pub enum ConfigError {
    /// A file could not be read.
    Read { path: String, reason: String },
    /// The text is no TOML configuration.
    TomlParse(String),
    /// The text is no JSON configuration.
    JsonParse(String),
    /// The configuration could not be written as TOML.
    TomlSerialize(String),
    /// The validator key file does not hold 32 bytes.
    InvalidKeyLength(usize),
    /// A file could not be written.
    Write { path: String, reason: String },
    /// A directory could not be created.
    CreateDir { path: String, reason: String },
    /// A participant's public key does not have 32 bytes.
    InvalidParticipantKeyLength(usize),
    /// A participant's bytes are no public key.
    InvalidParticipantKey,
    /// The operating system gave no randomness for a new validator key.
    KeyGeneration,
}

/// `head`, `path`, a colon and a space, and `reason`.
fn about_path(head: &str, path: &str, reason: &str) -> (text: String)
    ensures
        text@ == head@ + path@ + ": "@ + reason@,
{
    let mut text = head.to_owned();
    append(&mut text, path);
    append(&mut text, ": ");
    append(&mut text, reason);
    text
}

/// `head` followed by `detail`.
fn about(head: &str, detail: &str) -> (text: String)
    ensures
        text@ == head@ + detail@,
{
    let mut text = head.to_owned();
    append(&mut text, detail);
    text
}

impl ConfigError {
    /// The failure in words.
    pub fn message(&self) -> (text: String)
        ensures
            text@ == (match *self {
                ConfigError::Read { path, reason } => "failed to read config file "@ + path@ + ": "@
                    + reason@,
                ConfigError::TomlParse(detail) => "failed to parse TOML config: "@ + detail@,
                ConfigError::JsonParse(detail) => "failed to parse JSON config: "@ + detail@,
                ConfigError::TomlSerialize(detail) => "failed to serialize config to TOML: "@
                    + detail@,
                ConfigError::InvalidKeyLength(length) =>
                    "invalid validator key format: expected 32 bytes, got "@ + decimal_of(
                        length as nat,
                    ),
                ConfigError::Write { path, reason } => "failed to write "@ + path@ + ": "@ + reason@,
                ConfigError::CreateDir { path, reason } => "failed to create directory "@ + path@
                    + ": "@ + reason@,
                ConfigError::InvalidParticipantKeyLength(length) =>
                    "invalid participant key length: expected 32 bytes, got "@ + decimal_of(
                        length as nat,
                    ),
                ConfigError::InvalidParticipantKey => "invalid participant key bytes"@,
                ConfigError::KeyGeneration => "failed to generate a validator key"@,
            }),
    {
        match self {
            ConfigError::Read { path, reason } => about_path(
                "failed to read config file ",
                path.as_str(),
                reason.as_str(),
            ),
            ConfigError::TomlParse(detail) => about("failed to parse TOML config: ", detail.as_str()),
            ConfigError::JsonParse(detail) => about("failed to parse JSON config: ", detail.as_str()),
            ConfigError::TomlSerialize(detail) => about(
                "failed to serialize config to TOML: ",
                detail.as_str(),
            ),
            ConfigError::InvalidKeyLength(length) => {
                let mut text = "invalid validator key format: expected 32 bytes, got ".to_owned();
                append_decimal(&mut text, *length as u64);
                text
            },
            ConfigError::Write { path, reason } => about_path(
                "failed to write ",
                path.as_str(),
                reason.as_str(),
            ),
            ConfigError::CreateDir { path, reason } => about_path(
                "failed to create directory ",
                path.as_str(),
                reason.as_str(),
            ),
            ConfigError::InvalidParticipantKeyLength(length) => {
                let mut text = "invalid participant key length: expected 32 bytes, got ".to_owned();
                append_decimal(&mut text, *length as u64);
                text
            },
            ConfigError::InvalidParticipantKey => "invalid participant key bytes".to_owned(),
            ConfigError::KeyGeneration => "failed to generate a validator key".to_owned(),
        }
    }
}

/// The settings of the consensus layer.
#[derive(Debug, PartialEq, Eq)]
pub struct ConsensusConfig {
    /// The path of the validator key file, where it is not the default one.
    pub validator_key: Option<String>,
    /// The number of validators that must agree.
    pub threshold: u32,
    /// The public keys of the participants, as bytes.
    pub participants: Vec<Vec<u8>>,
}

/// The bytes of each entry of `list`.
pub open spec fn byte_lists(list: Seq<Vec<u8>>) -> Seq<Seq<u8>> {
    Seq::new(list.len(), |i: int| list[i]@)
}

/// The characters of `text`, where there is one.
pub open spec fn text_of(text: Option<String>) -> Option<Seq<char>> {
    match text {
        Some(t) => Some(t@),
        None => None,
    }
}

impl ConsensusConfig {
    /// Whether `other` holds what this configuration holds: the same key
    /// path, threshold and participants.
    pub open spec fn same_as(&self, other: ConsensusConfig) -> bool {
        &&& text_of(other.validator_key) == text_of(self.validator_key)
        &&& other.threshold == self.threshold
        &&& byte_lists(other.participants@) == byte_lists(self.participants@)
    }
}

impl Clone for ConsensusConfig {
    fn clone(&self) -> (copy: Self)
        ensures
            self.same_as(copy),
    {
        let validator_key = match &self.validator_key {
            Some(path) => Some(path.clone()),
            None => None,
        };
        let mut participants: Vec<Vec<u8>> = Vec::new();
        let mut i: usize = 0;
        while i < self.participants.len()
            invariant
                i <= self.participants@.len(),
                participants@.len() == i,
                forall|j: int| 0 <= j < i ==> (#[trigger] participants@[j])@ == self.participants@[j]@,
            decreases self.participants@.len() - i,
        {
            let bytes = self.participants[i].clone();
            participants.push(bytes);
            i = i + 1;
        }
        assert(byte_lists(participants@) =~= byte_lists(self.participants@));
        ConsensusConfig { validator_key, threshold: self.threshold, participants }
    }
}

impl Default for ConsensusConfig {
    fn default() -> (config: Self)
        ensures
            config.validator_key is None,
            config.threshold == 2,
            config.participants@.len() == 0,
    {
        ConsensusConfig { validator_key: None, threshold: DEFAULT_THRESHOLD, participants: Vec::new() }
    }
}

/// Whether the bytes of a participant are a public key: 32 bytes that encode
/// one.
pub open spec fn participant_ok(bytes: Seq<u8>) -> bool {
    bytes.len() == 32 && decoded_key(bytes) is Some
}

/// Why the bytes of a participant are refused.
pub open spec fn participant_error(bytes: Seq<u8>) -> ConfigError {
    if bytes.len() != 32 {
        ConfigError::InvalidParticipantKeyLength(bytes.len() as usize)
    } else {
        ConfigError::InvalidParticipantKey
    }
}

impl ConsensusConfig {
    /// The key of a participant whose bytes have the right length, given
    /// what decoding them gave: the key, or the failure that the bytes are
    /// no public key.
    pub fn accept_key(decoded: Option<PublicKey>) -> (key: Result<PublicKey, ConfigError>)
        ensures
            key == (match decoded {
                Some(k) => Ok::<PublicKey, ConfigError>(k),
                None => Err::<PublicKey, ConfigError>(ConfigError::InvalidParticipantKey),
            }),
    {
        match decoded {
            Some(k) => Ok(k),
            None => Err(ConfigError::InvalidParticipantKey),
        }
    }

    /// The public keys of the participants, in their order, each the key
    /// that its participant's bytes decode to; none where none are
    /// configured. Fails at the first participant whose bytes are not 32 or
    /// are no public key, with the failure of that participant.
    pub fn build_validator_set(&self) -> (keys: Result<Vec<PublicKey>, ConfigError>)
        ensures
            keys is Ok <==> forall|i: int|
                0 <= i < self.participants@.len() ==> participant_ok(
                    (#[trigger] self.participants@[i])@,
                ),
            keys matches Ok(set) ==> set@.len() == self.participants@.len() && forall|i: int|
                0 <= i < set@.len() ==> decoded_key(self.participants@[i]@) == Some(
                    #[trigger] set@[i],
                ),
            keys matches Err(e) ==> exists|i: int|
                0 <= i < self.participants@.len() && !participant_ok(
                    (#[trigger] self.participants@[i])@,
                ) && e == participant_error(self.participants@[i]@) && forall|j: int|
                    0 <= j < i ==> participant_ok((#[trigger] self.participants@[j])@),
    {
        let mut set: Vec<PublicKey> = Vec::new();
        let mut i: usize = 0;
        while i < self.participants.len()
            invariant
                i <= self.participants@.len(),
                set@.len() == i,
                forall|j: int| 0 <= j < i ==> participant_ok((#[trigger] self.participants@[j])@),
                forall|j: int|
                    0 <= j < i ==> decoded_key(self.participants@[j]@) == Some(#[trigger] set@[j]),
            decreases self.participants@.len() - i,
        {
            let bytes = &self.participants[i];
            let length = bytes.len();
            if length != KEY_LENGTH {
                return Err(ConfigError::InvalidParticipantKeyLength(length));
            }
            match ConsensusConfig::accept_key(decode_public_key(bytes.as_slice())) {
                Ok(key) => {
                    set.push(key);
                },
                Err(e) => {
                    return Err(e);
                },
            }
            i = i + 1;
        }
        Ok(set)
    }
}

/// The whole configuration of a node.
#[derive(Debug, PartialEq, Eq)]
pub struct NodeConfig {
    /// The chain id of the network.
    pub chain_id: u64,
    /// The directory for persistent data.
    pub data_dir: String,
    /// The settings of the consensus layer.
    pub consensus: ConsensusConfig,
}

/// Whether `config` is the default configuration.
pub open spec fn is_default(config: NodeConfig) -> bool {
    &&& config.chain_id == 7750
    &&& config.data_dir@ == "/var/lib/monmouth"@
    &&& config.consensus.validator_key is None
    &&& config.consensus.threshold == 2
    &&& config.consensus.participants@.len() == 0
}

impl NodeConfig {
    /// Whether `other` holds what this configuration holds: the same chain
    /// id, data directory and consensus settings.
    pub open spec fn same_as(&self, other: NodeConfig) -> bool {
        &&& other.chain_id == self.chain_id
        &&& other.data_dir@ == self.data_dir@
        &&& self.consensus.same_as(other.consensus)
    }
}

impl Clone for NodeConfig {
    fn clone(&self) -> (copy: Self)
        ensures
            self.same_as(copy),
    {
        NodeConfig {
            chain_id: self.chain_id,
            data_dir: self.data_dir.clone(),
            consensus: self.consensus.clone(),
        }
    }
}

impl Default for NodeConfig {
    fn default() -> (config: Self)
        ensures
            is_default(config),
    {
        NodeConfig {
            chain_id: DEFAULT_CHAIN_ID,
            data_dir: DEFAULT_DATA_DIR.to_owned(),
            consensus: ConsensusConfig::default(),
        }
    }
}

/// The format of a configuration file.
#[derive(Clone, Copy, Debug, PartialEq, Eq, Structural)]
pub enum ConfigFormat {
    /// TOML, for every extension but `json`, and for none.
    Toml,
    /// JSON, for the extension `json`.
    Json,
}

impl ConfigFormat {
    /// The format of a file with the given extension: JSON for `json`, else
    /// TOML.
    pub fn from_extension(extension: Option<&str>) -> (format: ConfigFormat)
        ensures
            format == (if extension matches Some(e) && e@ == "json"@ {
                ConfigFormat::Json
            } else {
                ConfigFormat::Toml
            }),
    {
        match extension {
            Some(e) => {
                let given = e.to_owned();
                let json = "json".to_owned();
                if given == json {
                    ConfigFormat::Json
                } else {
                    ConfigFormat::Toml
                }
            },
            None => ConfigFormat::Toml,
        }
    }
}

/// The extension of the file that `path` names, if it has one that is text.
///
/// Trusted: `Path::extension` of std, read as text. What counts as the file
/// name depends on the platform, so nothing is stated of the result.
#[verifier::external_body]
fn extension_of(path: &str) -> (extension: Option<String>) {
    match std::path::Path::new(path).extension() {
        Some(extension) => match extension.to_str() {
            Some(text) => Some(text.to_owned()),
            None => None,
        },
        None => None,
    }
}

/// `dir` with the file name `name` below it.
///
/// Trusted: `Path::join` of std, read as text. The separator depends on the
/// platform, so nothing is stated of the result.
#[verifier::external_body]
fn path_below(dir: &str, name: &str) -> (path: String) {
    std::path::Path::new(dir).join(name).to_string_lossy().into_owned()
}

/// What loading a configuration comes to.
#[derive(Debug, PartialEq, Eq)]
pub enum LoadStep {
    /// The configuration is at hand: no file was named.
    Done(NodeConfig),
    /// The file at `path` is to be read and parsed in `format`.
    ReadFile { path: String, format: ConfigFormat },
}

impl LoadStep {
    /// The configuration, where it is at hand.
    pub fn done(self) -> (config: Option<NodeConfig>)
        ensures
            config == (match self {
                LoadStep::Done(c) => Some(c),
                LoadStep::ReadFile { .. } => None,
            }),
    {
        match self {
            LoadStep::Done(c) => Some(c),
            LoadStep::ReadFile { .. } => None,
        }
    }
}

impl NodeConfig {
    /// What loading from the file at `path` with the given extension comes
    /// to: the file is to be read as JSON for the extension `json`, else as
    /// TOML.
    pub fn load_file(path: &str, extension: Option<&str>) -> (step: LoadStep)
        ensures
            step matches LoadStep::ReadFile { path: p, format } && p@ == path@ && format == (
            if extension matches Some(e) && e@ == "json"@ {
                ConfigFormat::Json
            } else {
                ConfigFormat::Toml
            }),
    {
        LoadStep::ReadFile { path: path.to_owned(), format: ConfigFormat::from_extension(extension) }
    }

    /// What loading a configuration comes to: the default configuration
    /// where no path is given, else reading the file at the path, in the
    /// format that its extension names.
    pub fn load(path: Option<&str>) -> (step: LoadStep)
        ensures
            path is None ==> (step matches LoadStep::Done(config) && is_default(config)),
            path matches Some(p) ==> (step matches LoadStep::ReadFile { path: q, .. } && q@ == p@),
    {
        match path {
            None => LoadStep::Done(NodeConfig::default()),
            Some(p) => {
                let extension = extension_of(p);
                match &extension {
                    Some(e) => NodeConfig::load_file(p, Some(e.as_str())),
                    None => NodeConfig::load_file(p, None),
                }
            },
        }
    }

    /// The configuration with the chain id and the data directory replaced
    /// by those that are given.
    pub fn with_overrides(self, chain_id: Option<u64>, data_dir: Option<String>) -> (config: NodeConfig)
        ensures
            config.chain_id == (match chain_id {
                Some(id) => id,
                None => self.chain_id,
            }),
            config.data_dir == (match data_dir {
                Some(dir) => dir,
                None => self.data_dir,
            }),
            config.consensus == self.consensus,
    {
        let mut config = self;
        match chain_id {
            Some(id) => {
                config.chain_id = id;
            },
            None => {},
        }
        match data_dir {
            Some(dir) => {
                config.data_dir = dir;
            },
            None => {},
        }
        config
    }

    /// The path of the validator key file: the configured one, else
    /// `validator.key` below the data directory.
    pub fn validator_key_path(&self) -> (path: String)
        ensures
            self.consensus.validator_key matches Some(p) ==> path@ == p@,
    {
        match &self.consensus.validator_key {
            Some(p) => p.as_str().to_owned(),
            None => path_below(self.data_dir.as_str(), "validator.key"),
        }
    }
}

/// The private key with the given seed.
pub fn key_from_seed(seed: &[u8; 32]) -> (key: PrivateKey)
    ensures
        Some(key) == seeded_key(seed@),
{
    private_key(seed.as_slice()).unwrap()
}

/// The public key of the validator whose private key is `key`.
pub fn validator_public_key(key: &PrivateKey) -> (public: PublicKey)
    ensures
        public == public_of(*key),
{
    public_key(key)
}

/// What reading the validator key file gave.
#[derive(Debug, PartialEq, Eq)]
pub enum KeyFileRead {
    /// The file holds these bytes.
    Found(Vec<u8>),
    /// There is no such file.
    Missing,
    /// The file could not be read, for the given reason.
    Failed(String),
}

/// What is to be done about the validator key.
#[derive(Debug, PartialEq, Eq)]
pub enum KeyAction {
    /// The key with this seed is the validator's.
    Use([u8; 32]),
    /// The seed is new: it is to be written to the file at `path`, below a
    /// directory that is created where it is missing, and is then the
    /// validator's.
    Store { path: String, seed: [u8; 32] },
    /// The key cannot be had.
    Fail(ConfigError),
}

/// Thirty-two bytes from the operating system's source of randomness, or
/// `None` where the source fails.
///
/// Trusted: `try_fill_bytes` of `rand::rngs::OsRng`. The bytes are random,
/// and whether the source fails is the operating system's, so nothing is
/// stated of the result.
#[verifier::external_body]
fn random_seed() -> (seed: Option<[u8; 32]>) {
    let mut seed = [0u8; 32];
    match rand::RngCore::try_fill_bytes(&mut rand::rngs::OsRng, &mut seed) {
        Ok(()) => Some(seed),
        Err(_) => None,
    }
}

/// What is to be done about the validator key when reading the key file at
/// `path` gave `read` and a new key would have the seed `fresh`: a file of
/// 32 bytes holds the seed, a file of another length is refused, a missing
/// file is to be written with the new seed, and a failure to read is handed
/// on.
pub fn decide_key(path: &str, read: KeyFileRead, fresh: [u8; 32]) -> (action: KeyAction)
    ensures
        match read {
            KeyFileRead::Found(bytes) => if bytes@.len() == 32 {
                action matches KeyAction::Use(seed) && seed@ == bytes@
            } else {
                action == KeyAction::Fail(ConfigError::InvalidKeyLength(bytes@.len() as usize))
            },
            KeyFileRead::Missing => action matches KeyAction::Store { path: p, seed } && p@ == path@
                && seed == fresh,
            KeyFileRead::Failed(reason) => action matches KeyAction::Fail(
                ConfigError::Read { path: p, reason: r },
            ) && p@ == path@ && r == reason,
        },
{
    match read {
        KeyFileRead::Found(bytes) => {
            if bytes.len() != KEY_LENGTH {
                return KeyAction::Fail(ConfigError::InvalidKeyLength(bytes.len()));
            }
            let mut seed = [0u8; 32];
            let mut i: usize = 0;
            while i < 32
                invariant
                    i <= 32,
                    bytes@.len() == 32,
                    forall|j: int| 0 <= j < i ==> seed@[j] == bytes@[j],
                decreases 32 - i,
            {
                seed[i] = bytes[i];
                i = i + 1;
            }
            assert(seed@ =~= bytes@);
            KeyAction::Use(seed)
        },
        KeyFileRead::Missing => KeyAction::Store { path: path.to_owned(), seed: fresh },
        KeyFileRead::Failed(reason) => KeyAction::Fail(
            ConfigError::Read { path: path.to_owned(), reason },
        ),
    }
}

impl NodeConfig {
    /// What is to be done about the validator key when reading its file
    /// gave `read`. A new seed is drawn only where the file is missing;
    /// where none can be drawn, the key cannot be had.
    pub fn validator_key(&self, read: KeyFileRead) -> (action: KeyAction)
        ensures
            match read {
                KeyFileRead::Found(bytes) => if bytes@.len() == 32 {
                    action matches KeyAction::Use(seed) && seed@ == bytes@
                } else {
                    action == KeyAction::Fail(ConfigError::InvalidKeyLength(bytes@.len() as usize))
                },
                KeyFileRead::Missing => action == KeyAction::Fail(ConfigError::KeyGeneration) || (
                action is Store && (self.consensus.validator_key matches Some(p)
                    ==> action->Store_path@ == p@)),
                KeyFileRead::Failed(reason) => action matches KeyAction::Fail(
                    ConfigError::Read { reason: r, .. },
                ) && r == reason,
            },
    {
        let path = self.validator_key_path();
        let fresh = match &read {
            KeyFileRead::Missing => match random_seed() {
                Some(seed) => seed,
                None => {
                    return KeyAction::Fail(ConfigError::KeyGeneration);
                },
            },
            _ => [0u8; 32],
        };
        decide_key(path.as_str(), read, fresh)
    }
}

} // verus!
