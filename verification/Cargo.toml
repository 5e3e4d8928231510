[package]
name = "book_catalog"
version = "0.1.0"
edition = "2021"
publish = false

[dependencies]
async-graphql = { version = "7", features = ["uuid"] }
async-graphql-poem = "7"
diesel = { version = "2", features = ["postgres", "r2d2", "uuid"] }
diesel-derive-enum = { version = "2", features = ["postgres"] }
dotenvy = "0.15"
poem = "3"
tokio = { version = "1", features = ["macros", "rt-multi-thread"] }
uuid = { version = "1", features = ["v4"] }
