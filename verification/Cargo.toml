[package]
name = "sail_iceberg"
version = "0.1.0"
edition = "2021"
publish = false

[dependencies]
async-trait = "=0.1.92"
bytes = "=1.12.1"
datafusion = { version = "=55.2.0", default-features = false }
datafusion-common = { version = "=55.2.0", default-features = false }
futures = "=0.3.34"
log = "=0.4.35"
object_store = { version = "=0.13.2", default-features = false }
parquet = { version = "=59.3.2", default-features = false, features = ["arrow", "async", "object_store"] }
pyo3 = { version = "=0.30.1", features = ["abi3-py39"] }
thiserror = "=2.0.21"
url = "=2.5.8"
uuid = { version = "=1.29.0", features = ["v4"] }
