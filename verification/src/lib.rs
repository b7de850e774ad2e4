//! Log and control data between a small device and its host, over a
//! serial line that may lose or garble bytes.
//!
//! The device queues finished log frames without ever waiting
//! ([`frame_queue`], [`glob_log`]) and sends them framed under an opcode
//! ([`serial_device`]). The host puts frames back together from the byte
//! stream and gets over bad bytes by waiting for the line to fall quiet
//! ([`base_protocol_handler`]), then handles each frame by its opcode
//! ([`printer`]). Both ends share the frame format ([`base_protocol`])
//! and the opcodes ([`opcode_protocol`]).
pub mod add_protocol;
pub mod base_protocol;
pub mod base_protocol_handler;
pub mod defmt_printer;
pub mod dynamic_reader;
pub mod frame_queue;
pub mod glob_log;
pub mod opcode_protocol;
pub mod port_reader;
pub mod printer;
pub mod serial_device;
