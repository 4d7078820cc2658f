[package]
name = "proc_watch"
version = "0.1.0"
edition = "2021"
publish = false

[dependencies]
proc-maps = "0.3"
structopt = "0.3"
sysinfo = "0.29"
termion = "2"
