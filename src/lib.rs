//! Session engine of a multi-player drawing-and-guessing game room.
//!
//! The room is a state machine: each event (a user joins or leaves, a client
//! message, a timer tick) changes the [`ServerState`] and yields the list of
//! [`Delivery`] values to send, one message per recipient. Connections,
//! channels and timers live outside; the decisions live here.

pub mod laws;
pub mod message;
pub mod round;
pub mod server;
pub mod text;
pub mod words;

pub use message::{
    CommandMsg, Delivery, InitialState, Line, Message, PlayerState, RoundView, ToClientMsg,
    ToServerMsg,
};
pub use round::{GuessOutcome, SkribblState, ROUND_DURATION};
pub use server::{GameState, ServerError, ServerEvent, ServerState};
pub use words::parse_words;
