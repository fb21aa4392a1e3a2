[package]
name = "docker_fuse"
version = "0.1.0"
edition = "2021"
publish = false

[dependencies]
bollard = "=0.21.1"
ctrlc = "=3.5.2"
env_logger = "=0.11.11"
fuser = "=0.18.0"
libc = "=0.2.190"
log = "=0.4.34"
sys-mount = { version = "=3.1.0", default-features = false }
tokio = { version = "=1.53.2", features = ["full"] }
