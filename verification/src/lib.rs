//! Session provisioning for project terminals: working-directory resolution,
//! environment composition, Python virtual-environment discovery, and
//! synthesis of a safely quoted remote command line.

pub mod envmap;
pub mod quoting;
pub mod registry;
pub mod session;
pub mod ssh;
pub mod strutil;
pub mod venv;
