[package]
name = "spellcheck"
version = "0.1.0"
edition = "2021"
publish = false

[dependencies]
base64 = "0.13"
ispell = "0.3"
lettre = "0.9"
lettre_email = "0.9"
mailparse = "*"
select = "0.6"
toml = "0.5"
serde = "1"
serde_derive = "1"
