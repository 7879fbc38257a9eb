use vstd::prelude::*;

pub mod alex;
pub mod baudot;
pub mod boards;
pub mod bytes;
pub mod cic;
pub mod cw_keyer;
pub mod iq_stream;
pub mod juice;
pub mod p1_sender;
pub mod p1_start;
pub mod p2_receiver;
pub mod p2_sender;
pub mod p2_streams;
pub mod pacing;
pub mod protocol1;
pub mod protocol2;
pub mod queue;
pub mod recorder;
pub mod rigctl;
pub mod rtty_link;
pub mod rtty_rx;
pub mod rtty_tx;
pub mod rx200;
pub mod rx888;
pub mod rx_state;
pub mod session;
pub mod sysstats;
pub mod text;

verus! {

} // verus!
