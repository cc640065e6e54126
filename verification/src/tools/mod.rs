pub mod pack;
pub mod patch_journal;
pub mod types;
