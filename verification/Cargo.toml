[package]
name = "userutils"
version = "0.1.0"
edition = "2021"
publish = false

[dependencies]
clap = "2"
event = "*"
extra = "*"
libc = "*"
libredox = "*"
liner = "*"
plain = "*"
redox-daemon = "*"
redox-scheme = "*"
redox_syscall = "*"
redox_termios = "*"
redox_users = "*"
termion = "*"
