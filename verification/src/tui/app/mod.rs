pub mod activity;
pub mod asking;
pub mod browsing;
pub mod clockwork;
pub mod commands;
pub mod composer;
pub mod effects;
pub mod feed;
pub mod frames;
pub mod history;
pub mod input;
pub mod job_browser;
pub mod keys;
pub mod layout;
pub mod listings;
pub mod live;
pub mod marketplace;
pub mod mcp;
pub mod naming;
pub mod overlay;
pub mod replies;
pub mod run;
pub mod skill_picker;
pub mod skills;
pub mod slash;
pub mod state;
pub mod status_row;
pub mod survey;
pub mod titles;
pub mod typing;
