#![allow(non_snake_case)]
#![allow(non_camel_case_types)]

pub mod strings;
pub mod numbers;
pub mod text;
pub mod settings;
pub mod outside;
pub mod media;
pub mod collection;
pub mod account;
pub mod task;
pub mod feed;
pub mod follow;
pub mod upload;
pub mod auth;
