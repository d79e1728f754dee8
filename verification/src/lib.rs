//! A server for ONNX models: between the requests of its HTTP and gRPC interfaces
//! and the tensors of the model.

pub mod adapter;
pub mod config;
pub mod grpc_service;
pub mod http;
pub mod input;
pub mod json;
pub mod laws;
pub mod numeral;
pub mod openapi;
pub mod outcome;
pub mod paths;
pub mod state;
pub mod string_map;
pub mod text;

pub use config::AppConfig;
pub use grpc_service::InferenceGrpcService;
pub use http::build_http_router;
pub use state::AppState;
