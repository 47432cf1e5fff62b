[package]
name = "app_dirs2"
version = "2.5.5"
edition = "2021"
publish = false

[dependencies]
xdg = "2"
jni = "0.21"
ndk-context = "0.1"
