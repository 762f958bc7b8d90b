//! # Communications Library
//!
//! The byte formats spoken between the child process and the parent process
//! over the child's inherited streams.  The codecs work on bytes that are
//! already in memory: a [`stream::ByteReader`] stands for what has arrived, a
//! byte vector for what is to be sent.

pub mod event;
pub mod packet;
pub mod rwutil;
pub mod sizedpacket;
pub mod splitter;
pub mod stream;
