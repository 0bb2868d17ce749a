[package]
name = "sm_ast"
version = "0.1.0"
edition = "2021"
publish = false

[dependencies]
num-bigint = "=0.2.6"
text-utils = "=0.4.3"
wolfram_wxf = "=0.3.2"
