//! Control logic of a pocket USB-storage appliance: a window tree with focus,
//! event dispatch and action propagation, bitmap compositing, and the wizard
//! widgets that carve a storage pool into virtual drives.

pub mod action;
pub mod backend;
pub mod bitmap;
pub mod controller;
pub mod displaymanager;
pub mod error;
pub mod font;
pub mod input;
pub mod lvm;
pub mod newdrive;
pub mod piso;
pub mod provision;
pub mod render;
pub mod text;
pub mod theorems;
pub mod vdrive;
