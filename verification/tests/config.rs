use kora::archive::ArchiveInitializer;
use kora::config::{
    decide_key, default_chain_id, default_data_dir, default_threshold, ConfigError, ConfigFormat,
    ConsensusConfig, KeyAction, KeyFileRead, LoadStep, NodeConfig, DEFAULT_CHAIN_ID,
    DEFAULT_DATA_DIR, DEFAULT_THRESHOLD,
};
use kora::service::KoraNodeService;
use kora::simplex::DefaultConfig;
use kora::transport::TransportError;

#[test]
fn test_defaults() {
    assert_eq!(ArchiveInitializer::DEFAULT_FREEZER_TABLE_INITIAL_SIZE, 65_536);
    assert_eq!(ArchiveInitializer::DEFAULT_FREEZER_TABLE_RESIZE_FREQUENCY, 4);
    assert_eq!(ArchiveInitializer::DEFAULT_FREEZER_TABLE_RESIZE_CHUNK_SIZE, 16_384);
    assert_eq!(ArchiveInitializer::DEFAULT_FREEZER_VALUE_TARGET_SIZE, 1024);
    assert_eq!(Some(ArchiveInitializer::DEFAULT_COMPRESSION_LEVEL), Some(3));
    assert_eq!(ArchiveInitializer::DEFAULT_ITEMS_PER_SECTION, 1024);
    assert_eq!(ArchiveInitializer::DEFAULT_WRITE_BUFFER, 1024);
    assert_eq!(ArchiveInitializer::DEFAULT_REPLAY_BUFFER, 1024);
    assert_eq!(ArchiveInitializer::DEFAULT_PAGE_SIZE, 1024);
    assert_eq!(ArchiveInitializer::DEFAULT_PAGE_CACHE_SIZE, 10);
    assert_eq!(ArchiveInitializer::DEFAULT_FINALIZATIONS_PREFIX, "finalizations");
    assert_eq!(ArchiveInitializer::DEFAULT_BLOCKS_PREFIX, "blocks");
}

#[test]
fn archive_settings_name_the_partitions_after_the_prefix() {
    let settings = ArchiveInitializer::settings("node-7");
    assert_eq!(settings.metadata_partition, "node-7-metadata");
    assert_eq!(settings.freezer_table_partition, "node-7-freezer-table");
    assert_eq!(settings.freezer_key_partition, "node-7-freezer-key");
    assert_eq!(settings.freezer_value_partition, "node-7-freezer-value");
    assert_eq!(settings.ordinal_partition, "node-7-ordinal");
    assert_eq!(settings.freezer_value_compression, Some(3));
    assert_eq!(settings.items_per_section, 1024);
    assert_eq!(ArchiveInitializer::finalizations_settings().ordinal_partition, "finalizations-ordinal");
    assert_eq!(ArchiveInitializer::blocks_settings().metadata_partition, "blocks-metadata");
}

#[test]
fn test_default_config() {
    let config = NodeConfig::default();
    assert_eq!(config.chain_id, DEFAULT_CHAIN_ID);
    assert_eq!(config.data_dir, String::from(DEFAULT_DATA_DIR));
}

#[test]
fn test_load_none_returns_default() {
    let config = NodeConfig::load(None).done().unwrap();
    assert_eq!(config, NodeConfig::default());
}

#[test]
fn default_values() {
    assert_eq!(default_chain_id(), 7750);
    assert_eq!(default_data_dir(), "/var/lib/monmouth");
    assert_eq!(default_threshold(), 2);
    assert_eq!(DEFAULT_THRESHOLD, 2);
    let consensus = ConsensusConfig::default();
    assert_eq!(consensus.validator_key, None);
    assert_eq!(consensus.threshold, 2);
    assert!(consensus.participants.is_empty());
}

#[test]
fn load_names_the_file_and_its_format() {
    assert_eq!(
        NodeConfig::load(Some("config.json")),
        LoadStep::ReadFile { path: "config.json".into(), format: ConfigFormat::Json }
    );
    assert_eq!(
        NodeConfig::load(Some("config.toml")),
        LoadStep::ReadFile { path: "config.toml".into(), format: ConfigFormat::Toml }
    );
    assert_eq!(
        NodeConfig::load(Some("config.conf")),
        LoadStep::ReadFile { path: "config.conf".into(), format: ConfigFormat::Toml }
    );
    assert_eq!(
        NodeConfig::load(Some("config")),
        LoadStep::ReadFile { path: "config".into(), format: ConfigFormat::Toml }
    );
    assert_eq!(ConfigFormat::from_extension(Some("json")), ConfigFormat::Json);
    assert_eq!(ConfigFormat::from_extension(Some("JSON")), ConfigFormat::Toml);
    assert_eq!(ConfigFormat::from_extension(None), ConfigFormat::Toml);
}

#[test]
fn overrides_replace_chain_id_and_data_dir() {
    let config = NodeConfig::default().with_overrides(Some(42), None);
    assert_eq!(config.chain_id, 42);
    assert_eq!(config.data_dir, DEFAULT_DATA_DIR);
    let config = NodeConfig::default().with_overrides(None, Some("/tmp/x".into()));
    assert_eq!(config.chain_id, DEFAULT_CHAIN_ID);
    assert_eq!(config.data_dir, "/tmp/x");
}

#[test]
fn key_file_decides_what_is_done_about_the_key() {
    let fresh = [9u8; 32];
    assert_eq!(decide_key("k", KeyFileRead::Found(vec![7; 32]), fresh), KeyAction::Use([7; 32]));
    assert_eq!(
        decide_key("k", KeyFileRead::Found(vec![7; 31]), fresh),
        KeyAction::Fail(ConfigError::InvalidKeyLength(31))
    );
    assert_eq!(
        decide_key("k", KeyFileRead::Missing, fresh),
        KeyAction::Store { path: "k".into(), seed: fresh }
    );
    assert_eq!(
        decide_key("k", KeyFileRead::Failed("denied".into()), fresh),
        KeyAction::Fail(ConfigError::Read { path: "k".into(), reason: "denied".into() })
    );
}

#[test]
fn validator_key_uses_the_configured_path() {
    let mut config = NodeConfig::default();
    assert!(config.validator_key_path().ends_with("validator.key"));
    assert!(config.validator_key_path().starts_with(DEFAULT_DATA_DIR));
    config.consensus.validator_key = Some("/keys/v.key".into());
    assert_eq!(config.validator_key_path(), "/keys/v.key");
    match config.validator_key(KeyFileRead::Missing) {
        KeyAction::Store { path, .. } => assert_eq!(path, "/keys/v.key"),
        other => panic!("unexpected action {:?}", other),
    }
    assert_eq!(config.validator_key(KeyFileRead::Found(vec![1; 32])), KeyAction::Use([1; 32]));
}

#[test]
fn service_keeps_its_configuration() {
    let config = NodeConfig::default().with_overrides(Some(5), None);
    let service = KoraNodeService::new(config.clone());
    assert_eq!(service.config(), &config);
    assert_eq!(service.into_config(), config);
}

#[test]
fn simplex_defaults() {
    let settings = DefaultConfig::settings("consensus");
    assert_eq!(settings.partition, "consensus");
    assert_eq!(settings.mailbox_size, 1024);
    assert_eq!(settings.epoch, 0);
    assert_eq!(settings.replay_buffer, 1024 * 1024);
    assert_eq!(settings.write_buffer, 1024 * 1024);
    assert_eq!(settings.leader_timeout_secs, 1);
    assert_eq!(settings.notarization_timeout_secs, 2);
    assert_eq!(settings.nullify_retry_secs, 5);
    assert_eq!(settings.fetch_timeout_secs, 1);
    assert_eq!(settings.activity_timeout_views, 20);
    assert_eq!(settings.skip_timeout_views, 10);
    assert_eq!(settings.fetch_concurrent, 8);
}

#[test]
fn config_and_transport_error_messages() {
    assert_eq!(
        ConfigError::Read { path: "a.toml".into(), reason: "gone".into() }.message(),
        "failed to read config file a.toml: gone"
    );
    assert_eq!(ConfigError::TomlParse("x".into()).message(), "failed to parse TOML config: x");
    assert_eq!(ConfigError::JsonParse("x".into()).message(), "failed to parse JSON config: x");
    assert_eq!(
        ConfigError::TomlSerialize("x".into()).message(),
        "failed to serialize config to TOML: x"
    );
    assert_eq!(
        ConfigError::InvalidKeyLength(31).message(),
        "invalid validator key format: expected 32 bytes, got 31"
    );
    assert_eq!(
        ConfigError::Write { path: "k".into(), reason: "full".into() }.message(),
        "failed to write k: full"
    );
    assert_eq!(
        ConfigError::CreateDir { path: "d".into(), reason: "denied".into() }.message(),
        "failed to create directory d: denied"
    );
    assert_eq!(
        ConfigError::InvalidParticipantKeyLength(0).message(),
        "invalid participant key length: expected 32 bytes, got 0"
    );
    assert_eq!(ConfigError::InvalidParticipantKey.message(), "invalid participant key bytes");

    assert_eq!(
        TransportError::InvalidListenAddr("x".into()).message(),
        "invalid listen address: x"
    );
    assert_eq!(
        TransportError::InvalidDialableAddr("x".into()).message(),
        "invalid dialable address: x"
    );
    assert_eq!(
        TransportError::InvalidBootstrapPeer("p".into()).message(),
        "invalid bootstrap peer format 'p': expected 'PUBLIC_KEY_HEX@HOST:PORT'"
    );
    assert_eq!(
        TransportError::InvalidPublicKeyHex("zz".into()).message(),
        "invalid public key hex: zz"
    );
    assert_eq!(
        TransportError::InvalidPublicKeyLength(1234567).message(),
        "invalid public key length: expected 32 bytes, got 1234567"
    );
    assert_eq!(TransportError::InvalidPublicKey.message(), "invalid public key bytes");
    assert_eq!(TransportError::InvalidHostname("h".into()).message(), "invalid hostname: h");
    assert_eq!(TransportError::InvalidPort("p".into()).message(), "invalid port: p");
}

#[test]
fn copy_of_a_configuration_is_equal_to_it() {
    let mut config = NodeConfig::default().with_overrides(Some(77), Some("/d".into()));
    config.consensus.validator_key = Some("/keys/v.key".into());
    config.consensus.threshold = 3;
    config.consensus.participants = vec![vec![1; 32], vec![2; 32]];
    let copy = config.clone();
    assert_eq!(copy, config);
    assert_eq!(copy.consensus.clone(), config.consensus);
    assert_eq!(copy.consensus.participants, vec![vec![1u8; 32], vec![2u8; 32]]);
}

#[test]
fn key_generation_failure_has_its_message() {
    assert_eq!(ConfigError::KeyGeneration.message(), "failed to generate a validator key");
}
