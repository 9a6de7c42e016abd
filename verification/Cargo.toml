[package]
name = "shp2geojson"
version = "0.1.0"
edition = "2021"
publish = false

[dependencies]
dbase = "*"
futures = "*"
geojson = "*"
indicatif = "*"
num_cpus = "*"
serde_json = "*"
shapefile = "*"
tokio = { version = "*", features = ["rt-multi-thread", "macros", "sync"] }
