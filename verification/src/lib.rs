pub mod text;
pub mod badging;
pub mod tools;
pub mod path;
pub mod adb;
pub mod cmdline;
pub mod adblog;
pub mod logname;
pub mod cygpath;
pub mod apkinfo;
pub mod apkex;
