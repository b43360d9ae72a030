use vstd::prelude::*;
use crate::event::ParameterUpdateEvent;
use crate::ring::EventRing;

verus! {

/// Length of the intermediate sample buffers shared with the engine.
pub const ENGINE_BUFFER_CAPACITY: usize = 10000;

/// A stream configuration that the render step cannot serve.
#[derive(Clone, Copy, Debug, PartialEq, Eq, Structural)]
pub enum SetupError {
    BufferBoundsViolation,
}

/// Signal the render step hands back to the audio backend.
#[derive(Clone, Copy, Debug, PartialEq, Eq, Structural)]
pub enum Continuation {
    Continue,
    Abort,
}

/// Buffer limits fixed when the stream is opened.
pub struct RenderConfig {
    frames_per_buffer: usize,
    channels: usize,
    capacity: usize,
}

impl RenderConfig {
    /// A period of the negotiated stream fits in the buffers.
    #[verifier::type_invariant]
    spec fn period_fits(&self) -> bool {
        self.frames_per_buffer * self.channels <= self.capacity
    }

    pub closed spec fn frames_spec(&self) -> nat {
        self.frames_per_buffer as nat
    }

    pub closed spec fn channels_spec(&self) -> nat {
        self.channels as nat
    }

    pub closed spec fn capacity_spec(&self) -> nat {
        self.capacity as nat
    }

    /// Checks a stream configuration against the engine's buffer capacity.
    ///
    /// Succeeds exactly when a period of `frames_per_buffer` frames of
    /// `channels` samples fits in `capacity` samples.
    pub fn negotiate(frames_per_buffer: usize, channels: usize, capacity: usize) -> (r: Result<
        RenderConfig,
        SetupError,
    >)
        ensures
            frames_per_buffer * channels <= capacity <==> r is Ok,
            match r {
                Ok(c) => c.frames_spec() == frames_per_buffer && c.channels_spec() == channels
                    && c.capacity_spec() == capacity,
                Err(e) => e == SetupError::BufferBoundsViolation,
            },
    {
        if channels == 0 || frames_per_buffer <= capacity / channels {
            proof {
                if channels > 0 {
                    assert(frames_per_buffer * channels <= (capacity / channels) * channels)
                        by (nonlinear_arith)
                        requires
                            frames_per_buffer <= capacity / channels,
                            channels > 0,
                    ;
                    assert((capacity / channels) * channels <= capacity) by (nonlinear_arith)
                        requires
                            channels > 0,
                    ;
                }
            }
            Ok(RenderConfig { frames_per_buffer, channels, capacity })
        } else {
            proof {
                assert(frames_per_buffer * channels > capacity) by (nonlinear_arith)
                    requires
                        frames_per_buffer > capacity / channels,
                        channels > 0,
                ;
            }
            Err(SetupError::BufferBoundsViolation)
        }
    }

    /// Samples per period of the negotiated stream.
    pub fn period_samples(&self) -> (r: usize)
        ensures
            r == self.frames_spec() * self.channels_spec(),
            r <= self.capacity_spec(),
    {
        proof {
            use_type_invariant(self);
        }
        self.frames_per_buffer * self.channels
    }

    /// Samples the intermediate buffers hold.
    pub fn capacity(&self) -> (r: usize)
        ensures
            r == self.capacity_spec(),
    {
        self.capacity
    }
}

/// What the render callback does in one audio period.
#[derive(Clone, Copy, Debug, PartialEq, Eq, Structural)]
pub struct RenderPlan {
    /// The parameter change to hand to the engine before computing, if any.
    pub update: Option<ParameterUpdateEvent>,
    /// The sample count to run the engine on; `None` leaves the engine idle.
    pub compute_len: Option<usize>,
    /// How many backend input samples to copy into the engine's input buffer;
    /// the rest of the period is silence.
    pub input_len: usize,
    pub signal: Continuation,
}

/// One invocation of the render callback for a backend output buffer of
/// `buffer_len` samples and an input buffer of `input_len` samples.
///
/// A buffer longer than the negotiated capacity aborts the stream without
/// touching the ring or the engine. Otherwise at most one pending event is
/// taken, and the engine runs on exactly `buffer_len` samples, of which the
/// first `min(input_len, buffer_len)` come from the backend's input.
pub fn render_step(
    ring: &mut EventRing,
    config: &RenderConfig,
    input_len: usize,
    buffer_len: usize,
) -> (r: RenderPlan)
    requires
        old(ring).wf(),
    ensures
        final(ring).wf(),
        final(ring).cap() == old(ring).cap(),
        final(ring).is_closed_spec() == old(ring).is_closed_spec(),
        buffer_len > config.capacity_spec() ==> r == (RenderPlan {
            update: None,
            compute_len: None,
            input_len: 0,
            signal: Continuation::Abort,
        }) && final(ring)@ == old(ring)@,
        buffer_len <= config.capacity_spec() ==> r.signal == Continuation::Continue
            && r.compute_len == Some(buffer_len) && r.input_len == (if input_len < buffer_len {
            input_len
        } else {
            buffer_len
        }),
        buffer_len <= config.capacity_spec() && old(ring)@.len() == 0 ==> r.update is None
            && final(ring)@ == old(ring)@,
        buffer_len <= config.capacity_spec() && old(ring)@.len() > 0 ==> r.update == Some(
            old(ring)@[0],
        ) && final(ring)@ == old(ring)@.drop_first(),
        match r.compute_len {
            Some(n) => n <= config.capacity_spec(),
            None => true,
        },
{
    if buffer_len > config.capacity() {
        return RenderPlan {
            update: None,
            compute_len: None,
            input_len: 0,
            signal: Continuation::Abort,
        };
    }
    let update = ring.try_receive();
    let copied = if input_len < buffer_len {
        input_len
    } else {
        buffer_len
    };
    RenderPlan {
        update,
        compute_len: Some(buffer_len),
        input_len: copied,
        signal: Continuation::Continue,
    }
}

} // verus!
