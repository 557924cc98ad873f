//! A template rendering engine: layered image templates whose references
//! may stand for many assets are expanded, enumerated and composited.

pub mod blueprint;
pub mod db;
pub mod models;
pub mod routes;
pub mod text;
