[package]
name = "smartmail"
version = "0.1.0"
edition = "2021"
publish = false

[dependencies]
data-encoding = "=2.11.1"
serde_json = "=1.0.151"
log = "=0.4.34"
env_logger = "=0.11.11"
dotenv = "=0.15.0"
threema-gateway = "=0.21.0"
reqwest = { version = "=0.13.5", default-features = false, features = ["blocking"] }
rumqtt = "=0.31.0"
mqtt3 = "=0.1.4"
tokio = { version = "=1.53.2", features = ["rt"] }
