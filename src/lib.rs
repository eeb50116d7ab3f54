//! CMSIS-DAP USB interface of a debug probe: the Microsoft OS 2.0 descriptors
//! that bind it to WinUSB, the command/response protocol of its bulk
//! endpoints, and the contract of the SWD transport underneath.
pub mod bytes;
pub mod class;
pub mod dap;
pub mod descriptor;
pub mod swdio;
