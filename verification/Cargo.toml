[package]
name = "cells"
version = "0.1.0"
edition = "2021"
publish = false

[dependencies]
slab = "=0.4.12"
rand = "=0.8.8"
