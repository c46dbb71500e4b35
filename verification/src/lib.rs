//! Domain logic of a Minecraft launcher: Java runtime descriptions and their
//! version strings, Maven coordinates, request error classification, and the
//! decisions taken while installing or writing an instance.

pub mod instance;
pub mod java;
pub mod maven;
pub mod path;
pub mod request;
pub mod scan;
pub mod text;
pub mod unicode;
pub mod vanilla;
