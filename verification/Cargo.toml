[package]
name = "pixi_conda"
version = "0.1.0"
edition = "2021"
publish = false

[dependencies]
clap = { version = "=4.6.7", default-features = false, features = ["derive", "std", "help", "usage", "error-context"] }
console = { version = "=0.16.6", default-features = false, features = ["std", "ansi-parsing"] }
dashmap = "=6.2.1"
dunce = "=1.0.5"
fs-err = "=3.3.2"
human_bytes = "=0.4.3"
humantime = "=2.4.0"
is_executable = "=1.0.6"
itertools = "=0.15.0"
miette = "=7.6.0"
parking_lot = "=0.12.5"
rattler = { version = "=0.55.0", default-features = false }
rattler_conda_types = "=0.57.1"
rattler_shell = "=0.29.5"
rattler_solve = { version = "=11.2.3", default-features = false, features = ["resolvo"] }
rattler_virtual_packages = "=8.1.3"
tabwriter = "=1.4.1"
thiserror = "=2.0.21"
tokio = { version = "=1.54.1", features = ["rt", "fs"] }
tracing = "=0.1.44"
