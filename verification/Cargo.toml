[package]
name = "cdef_data_generator"
version = "1.0.0"
edition = "2021"
publish = false

[dependencies]
chrono = { version = "0.4", default-features = false, features = ["std"] }
clap = { version = "4", features = ["derive", "env"] }
once_cell = "1"
polars = { version = "0.43", default-features = false, features = ["parquet", "fmt", "dtype-i8", "dtype-i16"] }
rand = "0.8"
rayon = "1"
serde = { version = "1", features = ["derive"] }
serde_json = "1"
thiserror = "1"
