[package]
name = "ledger_iota"
version = "0.1.0"
edition = "2021"
publish = false

[dependencies]
byteorder = "=1.5.0"
hex = "=0.4.3"
sha2 = "=0.10.9"
thiserror = "=1.0.69"
hidapi = { version = "=2.6.7", default-features = false, features = ["linux-native-basic-udev"] }
iota-sdk-types = "=1.0.0-rc.2"
