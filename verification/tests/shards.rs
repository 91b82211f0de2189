use linera_toolkit::shards::{generate_shard_configs, ShardConfig, ShardConfigError};

#[test]
fn test_generate_shard_configs() {
    assert_eq!(
        generate_shard_configs(
            "02".into(),
            "host%%".into(),
            "10%%".into(),
            Some("11%%".into())
        )
        .unwrap(),
        vec![
            ShardConfig {
                host: "host01".into(),
                port: 1001,
                metrics_port: Some(1101),
            },
            ShardConfig {
                host: "host02".into(),
                port: 1002,
                metrics_port: Some(1102),
            },
        ],
    );

    assert!(generate_shard_configs(
        "2".into(),
        "host%%".into(),
        "10%%".into(),
        Some("11%%".into())
    )
    .is_err());
}

fn shard(host: &str, port: u16, metrics_port: Option<u16>) -> ShardConfig {
    ShardConfig {
        host: host.to_string(),
        port,
        metrics_port,
    }
}

#[test]
fn shard_number_replaces_only_the_first_placeholder() {
    assert_eq!(
        generate_shard_configs("2".into(), "%-%".into(), "9%%".into(), None),
        Err(ShardConfigError::InvalidPort)
    );
    assert_eq!(
        generate_shard_configs("2".into(), "%-%".into(), "9%".into(), None),
        Ok(vec![shard("1-%", 91, None), shard("2-%", 92, None)])
    );
}

#[test]
fn shard_templates_without_placeholder_stay_as_they_are() {
    assert_eq!(
        generate_shard_configs("3".into(), "localhost".into(), "8080".into(), Some("9090".into())),
        Ok(vec![
            shard("localhost", 8080, Some(9090)),
            shard("localhost", 8080, Some(9090)),
            shard("localhost", 8080, Some(9090)),
        ])
    );
}

#[test]
fn shard_numbers_are_padded_to_the_width_of_the_count() {
    let shards = generate_shard_configs("0011".into(), "s%%%%".into(), "2%%%%".into(), None)
        .unwrap();
    assert_eq!(shards.len(), 11);
    assert_eq!(shards[0], shard("s0001", 20001, None));
    assert_eq!(shards[9], shard("s0010", 20010, None));
    assert_eq!(shards[10], shard("s0011", 20011, None));
}

#[test]
fn shard_placeholder_is_as_wide_as_the_count_is_written() {
    // The placeholder of "010" is "%%%": "%%" is left alone.
    assert_eq!(
        generate_shard_configs("010".into(), "h%%".into(), "1".into(), None).unwrap()[9],
        shard("h%%", 1, None)
    );
    // A sign counts towards the width.
    assert_eq!(
        generate_shard_configs("+2".into(), "h%%".into(), "7%%".into(), None),
        Ok(vec![shard("h01", 701, None), shard("h02", 702, None)])
    );
}

#[test]
fn shard_count_must_be_a_positive_number() {
    for count in ["", "0", "00", "-1", "two", "65536", "1 ", " 1", "+", "1.0", "٣"] {
        assert_eq!(
            generate_shard_configs(count.into(), "h".into(), "1".into(), None),
            Err(ShardConfigError::InvalidNumShards),
            "{count:?}"
        );
    }
    assert_eq!(
        generate_shard_configs("65535".into(), "h".into(), "1".into(), None)
            .unwrap()
            .len(),
        65535
    );
}

#[test]
fn shard_ports_must_be_port_numbers() {
    assert_eq!(
        generate_shard_configs("1".into(), "h".into(), "65536".into(), None),
        Err(ShardConfigError::InvalidPort)
    );
    assert_eq!(
        generate_shard_configs("1".into(), "h".into(), "".into(), None),
        Err(ShardConfigError::InvalidPort)
    );
    assert_eq!(
        generate_shard_configs("1".into(), "h".into(), "80".into(), Some("http".into())),
        Err(ShardConfigError::InvalidMetricsPort)
    );
    // The port is read before the metrics port.
    assert_eq!(
        generate_shard_configs("1".into(), "h".into(), "x".into(), Some("y".into())),
        Err(ShardConfigError::InvalidPort)
    );
    // Shard 6 is the first whose port is too large.
    assert_eq!(
        generate_shard_configs("9".into(), "h".into(), "6553%".into(), None),
        Err(ShardConfigError::InvalidPort)
    );
    assert_eq!(
        generate_shard_configs("5".into(), "h".into(), "+6553%".into(), Some("0%".into())),
        Ok(vec![
            shard("h", 65531, Some(1)),
            shard("h", 65532, Some(2)),
            shard("h", 65533, Some(3)),
            shard("h", 65534, Some(4)),
            shard("h", 65535, Some(5)),
        ])
    );
}

#[test]
fn shard_hosts_may_hold_any_characters() {
    assert_eq!(
        generate_shard_configs("2".into(), "größe-%.example".into(), "1".into(), None),
        Ok(vec![
            shard("größe-1.example", 1, None),
            shard("größe-2.example", 1, None)
        ])
    );
}

#[test]
fn shard_errors_say_what_failed() {
    assert_eq!(
        ShardConfigError::InvalidNumShards.message(),
        "Failed to parse the number of shards"
    );
    assert_eq!(
        ShardConfigError::InvalidPort.message(),
        "Failed to decode port into an integers"
    );
    assert_eq!(
        ShardConfigError::InvalidMetricsPort.message(),
        "Failed to decode metrics port into an integers"
    );
}
