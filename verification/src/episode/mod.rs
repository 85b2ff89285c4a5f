//! One episode: its file name and its download.

pub mod download;
pub mod filename;
pub mod hash;

pub use download::{
    partial_path, DownloadContext, DownloadResult, Transfer, TransferPhase, TransferStep,
    TransferView,
};
pub use filename::{
    collapse_separators, generate_filename, generate_filename_stem, get_audio_extension,
    is_valid_audio_extension, metadata_filename, mime_to_extension, sanitize_title,
    truncate_at_boundary, SeparatorType, MAX_TITLE_LENGTH,
};
