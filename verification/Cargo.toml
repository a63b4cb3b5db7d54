[package]
name = "hydration"
version = "0.1.0"
edition = "2021"
publish = false

[dependencies]
axum = { version = "=0.7.9", features = ["macros"] }
leptos = { version = "=0.6.15", features = ["ssr"] }
leptos_axum = "=0.6.15"
leptos_image = { version = "=0.2.0", features = ["ssr"] }
leptos_meta = { version = "=0.6.15", features = ["ssr"] }
leptos_query = { version = "=0.5.3", features = ["ssr"] }
leptos_router = { version = "=0.6.15", features = ["ssr"] }
tokio = { version = "=1.54.1", features = ["rt-multi-thread", "macros", "time", "net"] }
tower = { version = "=0.4.13", features = ["util"] }
tower-http = { version = "=0.5.2", features = ["fs"] }
