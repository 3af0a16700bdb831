use data_contracts::config::{CatalogType, IcebergConfig, IcebergError};
use data_contracts::format::{detect_format, format_of_extension, ContractFormat, ParserError};
use data_contracts::location::{
    build_iceberg_config, extract_warehouse_from_location, parse_iceberg_location, strip_prefix,
    warehouse_scheme,
};
use data_contracts::contract::{CustomCheck, DataFormat, FreshnessCheck, QualityChecks, UniquenessCheck};
use data_contracts::planning::{
    description_or_default, owner_or_default, plan_validation, quality_rule_names, ValidationPlan,
    WithoutData,
};
use data_contracts::properties::Properties;

fn names(items: &[&str]) -> Vec<String> {
    items.iter().map(|s| s.to_string()).collect()
}

#[test]
fn locations_name_a_namespace_and_a_table() {
    for (location, namespace, table) in [
        ("s3://warehouse/db/table", vec!["db"], "table"),
        ("/warehouse/db.schema/table", vec!["db", "schema"], "table"),
        ("file:///tmp/wh/ns/t", vec!["ns"], "t"),
        ("hdfs://node/a/b/c/d", vec!["c"], "d"),
        ("db/table", vec!["db"], "table"),
        ("//db//table//", vec!["db"], "table"),
        ("s3://bucket/a..b/t", vec!["a", "", "b"], "t"),
        ("gs://bucket/db/t", vec!["db"], "t"),
        ("s3://file://x/y", vec!["x"], "y"),
    ] {
        assert_eq!(
            parse_iceberg_location(location),
            Ok((names(&namespace), table.to_string())),
            "for {:?}",
            location
        );
    }
    for location in ["table", "", "s3://", "s3://bucket", "///", "file://only/"] {
        assert_eq!(
            parse_iceberg_location(location),
            Err(format!(
                "Invalid Iceberg location format: {}. Expected format: <warehouse>/<namespace>/<table>",
                location
            )),
            "for {:?}",
            location
        );
    }
}

#[test]
fn s3_locations_name_a_warehouse() {
    for (location, warehouse) in [
        ("s3://bucket/warehouse/db/table", Some("s3://bucket/warehouse")),
        ("s3://bucket/warehouse/table", Some("s3://bucket/warehouse")),
        ("s3://bucket/table", Some("s3://bucket")),
        ("s3://bucket", Some("s3://bucket")),
        ("s3://bucket//a///b", Some("s3://bucket/a")),
        ("s3://", None),
        ("s3:///", None),
        ("/local/warehouse/db/table", None),
        ("file://bucket/warehouse/db/table", None),
        ("S3://bucket/warehouse/db/table", None),
        ("", None),
    ] {
        assert_eq!(
            extract_warehouse_from_location(location),
            warehouse.map(|w| w.to_string()),
            "for {:?}",
            location
        );
    }
    assert_eq!(strip_prefix("s3://b", "s3://"), Some(vec!['b']));
    assert_eq!(strip_prefix("s3:/b", "s3://"), None);
}

#[test]
fn configurations_for_a_new_contract() {
    let rest = build_iceberg_config(
        "http://localhost:8181",
        "rest",
        Some("db.schema".to_string()),
        Some("events".to_string()),
        None,
    )
    .unwrap();
    assert_eq!(
        rest.catalog,
        CatalogType::Rest { uri: "http://localhost:8181".to_string(), warehouse: "/warehouse".to_string() }
    );
    assert_eq!(rest.namespace, names(&["db", "schema"]));
    assert_eq!(rest.table_name, "events");
    assert!(rest.properties.is_empty());
    let hms = build_iceberg_config(
        "thrift://h:9083",
        "hms",
        Some("db".to_string()),
        Some("t".to_string()),
        Some("s3://wh".to_string()),
    )
    .unwrap();
    assert_eq!(
        hms.catalog,
        CatalogType::Hms { uri: "thrift://h:9083".to_string(), warehouse: "s3://wh".to_string() }
    );
    let glue = build_iceberg_config(
        "s3://wh",
        "glue",
        Some("db".to_string()),
        Some("t".to_string()),
        Some("ignored".to_string()),
    )
    .unwrap();
    assert_eq!(
        glue.catalog,
        CatalogType::Glue { warehouse: "s3://wh".to_string(), catalog_id: None, region: None }
    );
    let fault = |catalog: &str, namespace: Option<&str>, table: Option<&str>| {
        build_iceberg_config(
            "src",
            catalog,
            namespace.map(|s| s.to_string()),
            table.map(|s| s.to_string()),
            None,
        )
        .unwrap_err()
    };
    assert_eq!(fault("rest", None, None), "Namespace is required for Iceberg init");
    assert_eq!(fault("nope", Some("db"), None), "Table name is required for Iceberg init");
    assert_eq!(
        fault("nope", Some("db"), Some("t")),
        "Unsupported catalog type: nope. Supported types: rest, glue, hms"
    );
    assert_eq!(fault("REST", Some("db"), Some("t")), "Unsupported catalog type: REST. Supported types: rest, glue, hms");
    assert_eq!(
        fault("rest", Some("db"), Some("")),
        "Invalid Iceberg configuration: table_name cannot be empty"
    );
    assert!(build_iceberg_config("s", "rest", Some("".to_string()), Some("t".to_string()), None).is_ok());
}

#[test]
fn configuration_faults_in_order() {
    let message = |r: Result<IcebergConfig, IcebergError>| r.unwrap_err().to_string();
    assert_eq!(
        message(IcebergConfig::builder().build()),
        "Invalid Iceberg configuration: catalog type is required"
    );
    assert_eq!(
        message(IcebergConfig::builder().file_io().build()),
        "Invalid Iceberg configuration: namespace is required"
    );
    assert_eq!(
        message(IcebergConfig::builder().file_io().namespace(vec![]).build()),
        "Invalid Iceberg configuration: table_name is required"
    );
    assert_eq!(
        message(IcebergConfig::builder().file_io().namespace(vec![]).table_name("").build()),
        "Invalid Iceberg configuration: table_name cannot be empty"
    );
    assert_eq!(
        message(IcebergConfig::builder().file_io().namespace(vec![]).table_name("t").build()),
        "Invalid Iceberg configuration: namespace cannot be empty"
    );
    let mut extra = Properties::new();
    extra.insert("a".to_string(), "1".to_string());
    let config = IcebergConfig::builder()
        .property("dropped", "x")
        .properties(extra.clone())
        .property("b", "2")
        .catalog(CatalogType::FileIO)
        .glue_catalog_with_options("s3://wh", Some("id".to_string()), None)
        .namespace(vec!["db".to_string()])
        .table_name("t")
        .build()
        .unwrap();
    assert_eq!(config.properties.get("a"), Some(&"1".to_string()));
    assert_eq!(config.properties.get("b"), Some(&"2".to_string()));
    assert_eq!(config.properties.get("dropped"), None);
    assert_eq!(config.warehouse(), Some("s3://wh"));
    assert_eq!(
        config.catalog,
        CatalogType::Glue { warehouse: "s3://wh".to_string(), catalog_id: Some("id".to_string()), region: None }
    );
    assert_eq!(extra.insert("a".to_string(), "3".to_string()), Some("1".to_string()));
    assert_eq!(extra.insert("z".to_string(), "9".to_string()), None);
    assert_eq!(extra.get("a"), Some(&"3".to_string()));
}

#[test]
fn every_iceberg_error_has_its_message() {
    let m = || "m".to_string();
    assert_eq!(IcebergError::ConnectionError(m()).to_string(), "Failed to connect to Iceberg catalog: m");
    assert_eq!(IcebergError::TableNotFound(m()).to_string(), "Iceberg table not found: m");
    assert_eq!(
        IcebergError::SchemaExtractionError(m()).to_string(),
        "Failed to extract schema from Iceberg table: m"
    );
    assert_eq!(
        IcebergError::TypeConversionError(m()).to_string(),
        "Failed to convert Iceberg type to DCE type: m"
    );
    assert_eq!(IcebergError::DataReadError(m()).to_string(), "Failed to read data from Iceberg table: m");
    assert_eq!(IcebergError::ConfigurationError(m()).to_string(), "Invalid Iceberg configuration: m");
    assert_eq!(IcebergError::UnsupportedOperation(m()).to_string(), "Unsupported Iceberg operation: m");
    assert_eq!(IcebergError::Other(m()).to_string(), "Iceberg error: m");
}

#[test]
fn formats_by_extension() {
    assert_eq!(format_of_extension(Some("yaml")), Ok(ContractFormat::Yaml));
    assert_eq!(format_of_extension(Some("YML")), Ok(ContractFormat::Yaml));
    assert_eq!(format_of_extension(Some("Toml")), Ok(ContractFormat::Toml));
    assert_eq!(format_of_extension(Some("JSON")), Err(ParserError::UnsupportedFormat("json".to_string())));
    assert_eq!(format_of_extension(Some("")), Err(ParserError::UnsupportedFormat("".to_string())));
    assert_eq!(format_of_extension(None), Err(ParserError::InvalidExtension));
    assert_eq!(detect_format("dir.d/contract.YAML"), Ok(ContractFormat::Yaml));
    assert_eq!(detect_format("a/b/contract.v2.toml"), Ok(ContractFormat::Toml));
    assert_eq!(detect_format(".yaml"), Err(ParserError::InvalidExtension));
    assert_eq!(detect_format("dir.yaml/contract"), Err(ParserError::InvalidExtension));
    assert_eq!(detect_format("contract"), Err(ParserError::InvalidExtension));
    assert_eq!(detect_format(""), Err(ParserError::InvalidExtension));
    assert_eq!(detect_format("a/b/"), Err(ParserError::InvalidExtension));
    assert_eq!(detect_format("contract.yaml/"), Ok(ContractFormat::Yaml));
    assert_eq!(detect_format("contract."), Err(ParserError::UnsupportedFormat("".to_string())));
    assert_eq!(
        detect_format("contract.txt").unwrap_err().to_string(),
        "Unsupported file format: txt"
    );
    assert_eq!(ParserError::InvalidExtension.to_string(), "Invalid or missing file extension");
    assert_eq!(ParserError::YamlError("m".to_string()).to_string(), "Failed to parse YAML: m");
    assert_eq!(ParserError::TomlError("m".to_string()).to_string(), "Failed to parse TOML: m");
    assert_eq!(ParserError::IoError("m".to_string()).to_string(), "File I/O error: m");
}

#[test]
fn table_locations_and_schemes() {
    let config = IcebergConfig::builder()
        .rest_catalog("http://localhost:8181", "s3://bucket/wh")
        .namespace(names(&["db", "schema"]))
        .table_name("events")
        .build()
        .unwrap();
    assert_eq!(config.table_location(), "s3://bucket/wh/db.schema/events");
    assert_eq!(config.qualified_name(), "db.schema.events");
    let direct = IcebergConfig::builder()
        .file_io()
        .namespace(names(&["local"]))
        .table_name("t")
        .build()
        .unwrap();
    assert_eq!(direct.table_location(), "local.t");
    for (warehouse, scheme) in [
        (Some("s3://bucket/wh"), "s3"),
        (Some("file:///tmp"), "file"),
        (Some("/local/path"), "/local/path"),
        (Some("a://b://c"), "a"),
        (Some("://x"), ""),
        (Some("s3:/x"), "s3:/x"),
        (Some(""), ""),
        (None, "file"),
    ] {
        assert_eq!(warehouse_scheme(warehouse), scheme, "for {:?}", warehouse);
    }
}

#[test]
fn merged_settings() {
    let mut base = Properties::new();
    base.insert("uri".to_string(), "http://a".to_string());
    base.insert("warehouse".to_string(), "s3://wh".to_string());
    let mut extra = Properties::new();
    extra.insert("token".to_string(), "t".to_string());
    extra.insert("uri".to_string(), "http://b".to_string());
    let merged = base.merged_with(&extra);
    assert_eq!(
        merged.to_pairs(),
        vec![
            ("uri".to_string(), "http://b".to_string()),
            ("warehouse".to_string(), "s3://wh".to_string()),
            ("token".to_string(), "t".to_string()),
        ]
    );
    assert_eq!(base.get("uri"), Some(&"http://a".to_string()));
    assert_eq!(base.merged_with(&Properties::new()), base);
    assert!(Properties::default().to_pairs().is_empty());
    assert!(!merged.is_empty());
    assert_eq!(merged.len(), 3);
    let mut other_order = Properties::new();
    other_order.insert("token".to_string(), "t".to_string());
    other_order.insert("warehouse".to_string(), "s3://wh".to_string());
    other_order.insert("uri".to_string(), "http://b".to_string());
    assert_eq!(merged, other_order);
    assert_ne!(merged, base);
    other_order.insert("uri".to_string(), "http://c".to_string());
    assert_ne!(merged, other_order);
}

#[test]
fn plans_and_defaults_of_the_command_line() {
    assert_eq!(plan_validation(&DataFormat::Iceberg, false), ValidationPlan::ReadTable);
    assert_eq!(
        plan_validation(&DataFormat::Iceberg, true),
        ValidationPlan::EmptyDataset(WithoutData::SchemaOnly)
    );
    for format in [DataFormat::Parquet, DataFormat::Csv, DataFormat::Custom("x".to_string())] {
        for schema_only in [false, true] {
            assert_eq!(
                plan_validation(&format, schema_only),
                ValidationPlan::EmptyDataset(WithoutData::FormatNotSupported)
            );
        }
    }
    assert_eq!(owner_or_default(None), "data-team");
    assert_eq!(owner_or_default(Some("me")), "me");
    assert_eq!(
        description_or_default(None, Some("db.s"), "t"),
        "Auto-generated contract from Iceberg table db.s.t"
    );
    assert_eq!(
        description_or_default(None, None, "t"),
        "Auto-generated contract from Iceberg table default.t"
    );
    assert_eq!(description_or_default(Some("mine".to_string()), Some("db"), "t"), "mine");
}

#[test]
fn names_of_the_quality_rules_of_a_contract() {
    let check = |n: &str| CustomCheck { name: n.to_string(), definition: "SELECT 1".to_string(), severity: None };
    let none = QualityChecks { completeness: None, uniqueness: None, freshness: None, custom_checks: Some(vec![]) };
    assert!(quality_rule_names(&none).is_empty());
    let some = QualityChecks {
        completeness: None,
        uniqueness: Some(UniquenessCheck { fields: vec![], scope: None }),
        freshness: Some(FreshnessCheck { max_delay: "1h".to_string(), metric: "ts".to_string() }),
        custom_checks: Some((0..12).map(|i| check(&i.to_string())).collect()),
    };
    assert_eq!(quality_rule_names(&some), vec!["uniqueness", "freshness", "12 custom"]);
}
