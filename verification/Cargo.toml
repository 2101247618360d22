[package]
name = "kanji_practice_sheet"
version = "0.1.0"
edition = "2021"
publish = false

[dependencies]
image = "0.23"
usvg = "0.22"
resvg = "0.22"
tiny-skia = "0.6"
genpdf = { version = "0.2", features = ["images"] }
relm4 = "0.6"
open = "5"
