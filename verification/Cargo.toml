[package]
name = "iceberg_manager"
version = "0.1.0"
edition = "2021"
publish = false

[dependencies]
anyhow = "1"
arrow-array = "53"
arrow-schema = "53"
futures = "0.3"
iceberg = "0.4"
iceberg-catalog-rest = "0.4"
parquet = "53"
