[package]
name = "gmail_inbox"
version = "0.1.0"
edition = "2021"
publish = false

[dependencies]
imap = "=2.4.1"
imap-proto = "=0.10.2"
lettre = "=0.11.23"
native-tls = "=0.2.18"
