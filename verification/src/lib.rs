//! Music downloader library: the specfile model, the URL rules of fetching and
//! downloading, track identifiers, tag construction, `ffmpeg` arguments and log
//! lines, log levels, and the plans that the command line carries out.

pub mod cli;
pub mod download;
pub mod fetch;
pub mod impls;
pub mod logger;
pub mod post;
pub mod specfile;
pub mod tag;
pub mod text;
pub mod url;
