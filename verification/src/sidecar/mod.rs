pub mod args;
pub mod interp;
pub mod rembg;
pub mod upscale;
pub mod vidsr;
pub mod docker;
pub mod progress;
pub mod handoff;
