//! A component-oriented static template compiler.
//!
//! The library turns markup that uses custom `x-` tags backed by
//! `<template>` definitions — with props, slots, scoped styles and scripts,
//! and data-driven repetition — into plain HTML/CSS/JS, and keeps the
//! incremental-build memory (content fingerprints and the reverse
//! linked-asset graph) that decides what must be reprocessed.

pub mod checksum;
pub mod data;
pub mod digits;
pub mod memory;
pub mod path;
pub mod props;
pub mod scan;
pub mod scope;
pub mod slots;
pub mod statica;
pub mod statica_t;
pub mod text;
pub mod tokens;
