//! An image server's core: format resolution, path and cache-key derivation,
//! a bounded LRU memory cache, target-size computation, the raster pipeline
//! and the per-request decision steps.

pub mod config;
pub mod file_utils;
pub mod image_cache;
pub mod image_server;
pub mod img_util;
pub mod models;

pub use config::AppConfig;
pub use file_utils::{decimal_string, FileUtils};
pub use image_cache::ImageCache;
pub use image_server::{
    derive_image, lookup_request, plan_request, return_cached, return_image, return_internal_error,
    Encoded, Plan, Response,
};
pub use img_util::{
    encode_image, resize_image, scale_dimension, target_dimensions, DerivationError,
    PixelLayout, Raster,
};
pub use models::{ImageParams, OutputFormat};
