pub mod captcha;
pub mod drop;
pub mod eval;
pub mod grab_reminder;
pub mod message;
pub mod minigame;
pub mod series1;
pub mod series2;
pub mod wishlist_updaters;
pub mod wl_edit_updater;
