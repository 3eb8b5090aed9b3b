[package]
name = "gst_rerun_tools"
version = "0.1.0"
edition = "2021"
rust-version = "1.95"
publish = false

[dependencies]
glib = "=0.21.5"
gstreamer = "=0.24.5"
gstreamer-base = "=0.24.5"
gstreamer-video = "=0.24.5"
kstring = "=2.0.2"
once_cell = "=1.21.4"
petgraph = "=0.8.3"
re_types = { version = "=0.26.2", default-features = false }
thiserror = "=2.0.21"
