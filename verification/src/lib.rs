pub mod typeid;
pub mod handle;
pub mod error;
pub mod storage;
pub mod defaults;
pub mod buffer;
pub mod geometry;
pub mod draw_batch;
pub mod batcher;
pub mod submit;
pub mod binding;
pub mod shader;
pub mod resolve;
pub mod uniform;
pub mod config;
pub mod window;
pub mod texture;
pub mod sampler;
pub mod material;
pub mod time;
pub mod misc;
pub mod nova2d;
pub mod pipeline;
