[package]
name = "pumicite"
version = "0.1.0"
edition = "2021"
publish = false

[dependencies]
ash = { version = "=0.38.0", default-features = false, features = ["std", "debug", "loaded"] }
bevy_app = { version = "=0.18.1", default-features = false, features = ["std"] }
bevy_ecs = { version = "=0.18.1", default-features = false, features = ["std"] }
bevy_platform = { version = "=0.18.1", default-features = false, features = ["std"] }
bevy_window = { version = "=0.18.1", default-features = false, features = ["std"] }
bytemuck = "=1.25.2"
ddsfile = "=0.5.2"
gltf = { version = "=1.4.1", default-features = false, features = ["names", "utils", "extensions"] }
glam = "=0.30.10"
image = { version = "=0.25.10", default-features = false, features = ["png", "jpeg", "tiff"] }
indexmap = "=2.14.2"
ktx2 = "=0.5.0"
png = "=0.18.1"
postcard = { version = "=1.1.3", features = ["use-std"] }
ron = "=0.12.3"
serde = { version = "=1.0.229", features = ["derive"] }
slotmap = "=1.1.1"
smallvec = "=1.16.4"
thiserror = "=2.0.21"
tracing = "=0.1.44"
