[package]
name = "cour_order_service"
version = "0.1.0"
edition = "2021"
publish = false

[dependencies]
hbase-thrift = "=1.2.0"
thrift = "=0.17.0"
kafka = { version = "=0.10.0", default-features = false }
actix-web = "=4.15.0"
serde = { version = "=1.0.229", features = ["derive"] }
serde_json = "=1.0.151"
