pub mod cards_handler;
pub mod config_data;
pub mod database_handler;
pub mod handler;
pub mod reminders;
pub mod series_handler;
pub mod ocr_captcha;
pub mod ocr_series;
