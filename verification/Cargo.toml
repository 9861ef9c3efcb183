[package]
name = "parquet_footer"
version = "0.1.0"
edition = "2021"
publish = false

[dependencies]
thrift = { version = "0.17", default-features = false }
