pub mod text;
pub mod json;
pub mod pattern;
pub mod jobs;
pub mod config;
pub mod aliases;
pub mod ytdlp;
pub mod paths;
pub mod queue;
pub mod machine;
pub mod ffmpeg;
pub mod tasks;
pub mod rows;
pub mod requests;
pub mod progress;
