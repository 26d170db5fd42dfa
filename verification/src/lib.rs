//! Verified core of the `wolfie` command-line front end for the Wolfram Kernel.

pub mod text;
pub mod native_wstp;
pub mod wl;
pub mod cli;
pub mod cli_laws;
pub mod graphical_output;
