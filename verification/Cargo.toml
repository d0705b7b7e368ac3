[package]
name = "letter_snake"
version = "0.1.0"
edition = "2021"
publish = false

[dependencies]
pc-keyboard = "=0.9.0"
pluggable_interrupt_os = "=0.4.3"
