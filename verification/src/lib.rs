//! The rules of a Vulkan renderer: what is set up, recorded, scheduled and
//! loaded, decided on plain values.
//!
//! The modules fall into a few groups:
//!
//! - [`instance`], [`physical_device`], [`device`], [`queue`] and [`swapchain`]
//!   choose what is created of a graphics device and its surfaces.
//! - [`memory`] and [`staging`] choose the memory of resources, and how their
//!   contents reach it.
//! - [`command`], [`query`] and [`system`] record commands and keep their states
//!   in order.
//! - [`graph`], [`grouping`], [`pass`] and [`plugin`] order the systems of a
//!   schedule into submissions and render passes.
//! - [`shader`], [`graphics`], [`dynamic_states`], [`rtx`] and [`blas`] describe
//!   pipelines, shader binding tables and acceleration structures.
//! - [`loader`], [`dds`], [`ktx`], [`png_loader`], [`tiff`], [`scene`],
//!   [`gltf_document`], [`gltf_scene`] and [`gltf_load`] read textures and scenes.
//! - [`egui`] plans the drawing of a user interface.
//!
//! Numbers of Vulkan stand in [`vk`] under the names of its registry. A floating
//! point number is held as its bits.

pub mod align;
pub mod bits;
pub mod blas;
pub mod bytes;
pub mod command;
pub mod dds;
pub mod device;
pub mod dynamic_states;
pub mod egui;
pub mod gltf_document;
pub mod gltf_load;
pub mod gltf_scene;
pub mod graph;
pub mod graphics;
pub mod grouping;
pub mod instance;
pub mod ktx;
pub mod loader;
pub mod memory;
pub mod names;
pub mod pass;
pub mod physical_device;
pub mod plugin;
pub mod png_loader;
pub mod query;
pub mod queue;
pub mod rtx;
pub mod scene;
pub mod shader;
pub mod staging;
pub mod swapchain;
pub mod system;
pub mod text;
pub mod tiff;
pub mod version;
pub mod vk;
