pub mod text;
pub mod api;
pub mod textbuf;
pub mod collections;
pub mod state;
pub mod app;
pub mod num;
pub mod navigate;
pub mod channels;
pub mod incoming;
pub mod editing;
pub mod keys;
pub mod vim;
pub mod submit;
pub mod screens;
pub mod step;
pub mod gateway;
pub mod logs;
pub mod layout;
pub mod laws;
pub mod text_laws;
pub mod rest;
pub mod guard;
