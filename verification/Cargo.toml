[package]
name = "jlink"
version = "0.1.0"
edition = "2021"
publish = false

[dependencies]
jaylink = "=0.1.5"
log = "0.4"
thiserror = "1"

# The build script of libusb1-sys 0.4, which jaylink links to, unpacks the
# libusb sources into a directory that it expects `tar` to create. Releases of
# `tar` that do so need a `libc` that still has `ENOATTR` on Linux.
tar = "=0.4.30"
libc = "=0.2.150"
