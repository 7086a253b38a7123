//! Session, login and file-manager logic of the Broadway session manager,
//! with the database and container plumbing left to the surrounding program.

pub mod text;
pub mod models;
pub mod service_management;
pub mod user_management;
pub mod session;
pub mod login;
pub mod filemanager;
pub mod pages;
