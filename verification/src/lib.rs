//! A minimal TCP session core: a fixed-capacity receive accumulator, an
//! incremental message-framing dispatch loop, and the session/registry
//! state that backs a poll-based socket multiplexer.

mod accumulator;
mod decoders;
mod dispatch;
mod registry;
mod session;

pub use accumulator::CapacityError;
pub use accumulator::FixedAccumulator;
pub use accumulator::lemma_append_preserves_order;
pub use accumulator::lemma_consume_after_append;
pub use decoders::LengthPrefixedDecoder;
pub use decoders::SizedFrameDecoder;
pub use dispatch::FrameDecoder;
pub use dispatch::dispatch_frames;
pub use dispatch::lemma_fixed_size_framing;
pub use dispatch::lemma_fixed_size_framing_chunked;
pub use dispatch::spec_invocations;
pub use dispatch::spec_remaining;
pub use registry::SocketRegistry;
pub use session::AcceptEvent;
pub use session::DEFAULT_CAPACITY;
pub use session::Role;
pub use session::Session;
pub use session::SocketEvent;
pub use session::accept_new_client;
pub use session::client_registry;
pub use session::server_registry;
