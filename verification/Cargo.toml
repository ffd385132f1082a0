[package]
name = "mailctl"
version = "0.1.0"
edition = "2021"
publish = false

[dependencies]
base64 = "=0.22.1"
sha2 = "=0.10.9"
urlencoding = "=2.1.3"
rfc2047-decoder = "=1.1.2"
utf7-imap = "=0.3.2"
mail-parser = "=0.11.9"
serde_json = "=1.0.154"
serde = { version = "=1.0.229", features = ["derive"] }
keyring = { version = "=3.6.3", features = ["apple-native"] }
lettre = { version = "=0.11.23", default-features = false, features = ["builder", "hostname", "smtp-transport", "rustls-tls"] }
imap = "=2.4.1"
imap-proto = "=0.10.2"
native-tls = "=0.2.18"
clap = { version = "=4.6.7", features = ["derive"] }
directories = "=5.0.1"
rusqlite = { version = "=0.32.1", features = ["bundled"] }
toml = "=0.8.23"
ureq = { version = "=2.12.1", features = ["json"] }
rpassword = "=7.5.4"
