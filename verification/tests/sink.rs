//! The sink's pipeline model, connection planning and the catalog's
//! table classification.

use interchange::catalog::TableType;
use interchange::redis_sink::{
    ConnectionPlan, RedisCommand, RedisCommon, RedisConfig, RedisPipe, RedisSinkPayloadWriter,
    SinkError,
};

#[test]
fn pipe_queues_and_clears_commands() {
    let mut pipe = RedisPipe::Single(Vec::new());
    pipe.set("k1".to_string(), b"v1".to_vec());
    pipe.del("k2".to_string());
    match &pipe {
        RedisPipe::Single(cs) => {
            assert_eq!(
                cs,
                &vec![
                    RedisCommand::SetCmd("k1".to_string(), b"v1".to_vec()),
                    RedisCommand::DelCmd("k2".to_string()),
                ]
            );
        }
        RedisPipe::Cluster(_) => panic!("pipe kind changed"),
    }
    pipe.clear();
    assert_eq!(pipe, RedisPipe::Single(Vec::new()));
}

#[test]
fn writer_mock_starts_empty_and_writes_rows() {
    let mut writer = RedisSinkPayloadWriter::mock();
    assert_eq!(writer.conn, None);
    writer.write_one(Some("a".to_string()), Some(b"1".to_vec()));
    writer.write_one(Some("b".to_string()), None);
    assert_eq!(
        writer.pipe,
        RedisPipe::Single(vec![
            RedisCommand::SetCmd("a".to_string(), b"1".to_vec()),
            RedisCommand::DelCmd("b".to_string()),
        ])
    );
}

#[test]
fn url_that_is_not_json_plans_a_single_node() {
    let common = RedisCommon { url: "redis://localhost:6379".to_string() };
    assert_eq!(
        common.connection_plan(),
        Ok(ConnectionPlan::Single("redis://localhost:6379".to_string()))
    );
}

#[test]
fn url_that_is_a_string_array_plans_a_cluster() {
    let common = RedisCommon {
        url: r#"["redis://n1:6379", "redis://n2:6379"]"#.to_string(),
    };
    assert_eq!(
        common.connection_plan(),
        Ok(ConnectionPlan::Cluster(vec![
            "redis://n1:6379".to_string(),
            "redis://n2:6379".to_string(),
        ]))
    );
}

#[test]
fn url_with_other_json_is_rejected() {
    let common = RedisCommon { url: "[1, 2]".to_string() };
    assert_eq!(
        common.connection_plan(),
        Err(SinkError::Redis("redis.url must be array of string".to_string()))
    );
    let common = RedisCommon { url: r#"{"host": "n1"}"#.to_string() };
    assert_eq!(
        common.connection_plan(),
        Err(SinkError::Redis("redis.url must be array or string".to_string()))
    );
}

#[test]
fn config_reads_the_url_property() {
    let props = vec![
        ("format".to_string(), "json".to_string()),
        ("redis.url".to_string(), "redis://h:1".to_string()),
    ];
    let config = RedisConfig::from_hashmap(props).unwrap();
    assert_eq!(config.common.url, "redis://h:1");
    let missing = RedisConfig::from_hashmap(vec![("a".to_string(), "b".to_string())]);
    assert!(matches!(missing, Err(SinkError::Config(_))));
}

#[test]
fn table_type_classification() {
    assert_eq!(TableType::default(), TableType::Table);
    assert!(TableType::Table.is_table());
    assert!(TableType::MaterializedView.is_mview());
    assert!(TableType::Index.is_index());
    assert!(TableType::Internal.is_internal_table());
    assert!(!TableType::Index.is_table());
}
