[package]
name = "frugalos_service"
version = "0.1.0"
edition = "2021"
publish = false

[dependencies]
atomic_immut = "*"
cannyls = "*"
cannyls_rpc = "*"
fibers = "0.1"
fibers_rpc = "*"
fibers_tasque = "*"
futures = "0.1"
libfrugalos = "*"
prometrics = "0.1"
slog = "2"
trackable = "*"
