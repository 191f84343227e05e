//! The live-world coordinator of a multiplayer game server, written without
//! I/O: every operation takes plain values and answers with the new state and
//! the packets to send, so that the rules of the world can be proved.

pub mod world;
