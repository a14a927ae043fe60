pub mod api;
pub mod codec;
pub mod database;
pub mod digest;
pub mod downloader;
pub mod file_ops;
pub mod history;
pub mod imaging;
pub mod language;
pub mod lists;
pub mod logger;
pub mod mangadex;
pub mod modes;
pub mod paths;
pub mod pdf;
pub mod pool;
pub mod processor;
pub mod profile;
pub mod scanner;
pub mod server;
pub mod sorting;
pub mod sync;
pub mod table;
pub mod text;
