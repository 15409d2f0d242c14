//! Timers and services of the user's service manager, written the way a
//! crontab is: trigger expressions, unit files, and the table that lists
//! them.

pub mod add;
pub mod apply;
pub mod cron;
pub mod export;
pub mod init;
pub mod list;
pub mod number;
pub mod parse_unit;
pub mod sdtabfile;
pub mod split;
pub mod status;
pub mod systemctl;
pub mod text;
pub mod unit;
