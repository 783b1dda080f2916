//! POS peripheral layer: ESC/POS printing over network / USB / Windows spooler,
//! cash-drawer kick, USB printer enumeration, and physical/virtual keyboard
//! handling.
//!
//! The functions here decide; the caller performs the I/O they ask for (opening
//! connections, reading device tables, spawning programs) and hands back what
//! it found.
pub mod keyboard;
pub mod printing;
pub mod text;
pub mod usb;
