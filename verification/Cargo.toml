[package]
name = "mpris_popup"
version = "0.1.0"
edition = "2021"
publish = false

[dependencies]
regex = "1"
nix = { version = "0.29", features = ["signal", "process"] }
ureq = "3"
glib = "0.18"
gio = "0.18"
gdk = "0.18"
gdk-pixbuf = "0.18"
gtk = "0.18"
gtk-layer-shell = "0.8"
