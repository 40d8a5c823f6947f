//! The unit of data carried through the system: an opaque block of bytes no
//! longer than `MAX_FRAME`.
use vstd::prelude::*;

verus! {

/// The largest payload a frame may carry, shared by every adapter.
pub const MAX_FRAME: usize = 65536;

/// Why a payload could not become a frame.
#[derive(Debug, Clone, Copy, PartialEq, Eq, Structural)]
pub enum FrameError {
    /// The payload is longer than `MAX_FRAME`.
    Oversized { length: usize },
}

/// An immutable payload of at most `MAX_FRAME` bytes.
pub struct Frame {
    bytes: Vec<u8>,
}

impl View for Frame {
    type V = Seq<u8>;

    closed spec fn view(&self) -> Seq<u8> {
        self.bytes@
    }
}

/// The payloads of `frames`, in order.
pub open spec fn views(frames: Seq<Frame>) -> Seq<Seq<u8>> {
    frames.map_values(|f: Frame| f@)
}

/// The payloads `parts` joined end to end.
pub open spec fn joined(parts: Seq<Seq<u8>>) -> Seq<u8>
    decreases parts.len(),
{
    if parts.len() == 0 {
        Seq::empty()
    } else {
        joined(parts.drop_last()) + parts.last()
    }
}

impl Frame {
    #[verifier::type_invariant]
    spec fn bounded(&self) -> bool {
        self.bytes@.len() <= MAX_FRAME
    }

    /// Wraps `data` as a frame, refusing it when it is longer than `MAX_FRAME`.
    pub fn new(data: Vec<u8>) -> (r: Result<Frame, FrameError>)
        ensures
            data@.len() <= MAX_FRAME <==> r is Ok,
            r matches Ok(f) ==> f@ == data@,
            r matches Err(e) ==> e == (FrameError::Oversized { length: data@.len() as usize }),
    {
        if data.len() <= MAX_FRAME {
            Ok(Frame { bytes: data })
        } else {
            Err(FrameError::Oversized { length: data.len() })
        }
    }

    /// The frames for a receive of `n` bytes into `buf`: the bytes cut into
    /// frames of `MAX_FRAME` bytes, the last one holding what remains. An
    /// empty receive, which ends a connection, gives no frame.
    pub fn from_received(buf: &[u8], n: usize) -> (r: Vec<Frame>)
        requires
            n <= buf@.len(),
        ensures
            r@.len() == 0 <==> n == 0,
            joined(views(r@)) == buf@.subrange(0, n as int),
            forall|i: int| 0 <= i < r@.len() ==> 0 < (#[trigger] r@[i])@.len(),
            forall|i: int| 0 <= i < r@.len() - 1 ==> (#[trigger] r@[i])@.len() == MAX_FRAME,
    {
        let mut out: Vec<Frame> = Vec::new();
        let mut start: usize = 0;
        while start < n
            invariant
                start <= n <= buf@.len(),
                out@.len() == 0 <==> start == 0,
                joined(views(out@)) == buf@.subrange(0, start as int),
                forall|i: int| 0 <= i < out@.len() ==> 0 < (#[trigger] out@[i])@.len(),
                start < n ==> forall|i: int| 0 <= i < out@.len() ==> (#[trigger] out@[i])@.len() == MAX_FRAME,
                forall|i: int| 0 <= i < out@.len() - 1 ==> (#[trigger] out@[i])@.len() == MAX_FRAME,
            decreases n - start,
        {
            let end: usize = if n - start <= MAX_FRAME {
                n
            } else {
                start + MAX_FRAME
            };
            let mut bytes: Vec<u8> = Vec::new();
            let mut i: usize = start;
            while i < end
                invariant
                    start <= i <= end <= n <= buf@.len(),
                    end - start <= MAX_FRAME,
                    bytes@ == buf@.subrange(start as int, i as int),
                decreases end - i,
            {
                bytes.push(buf[i]);
                i = i + 1;
                assert(bytes@ =~= buf@.subrange(start as int, i as int));
            }
            let f = Frame { bytes };
            let ghost before = out@;
            out.push(f);
            proof {
                assert(views(out@) =~= views(before).push(f@));
                assert(views(out@).drop_last() =~= views(before));
                assert(buf@.subrange(0, start as int) + buf@.subrange(start as int, end as int) =~= buf@.subrange(
                    0,
                    end as int,
                ));
            }
            start = end;
            if start < n {
                assert(f@.len() == MAX_FRAME);
            }
        }
        out
    }

    /// The number of payload bytes.
    pub fn len(&self) -> (r: usize)
        ensures
            r == self@.len(),
            r <= MAX_FRAME,
    {
        proof {
            use_type_invariant(self);
        }
        self.bytes.len()
    }

    /// The payload bytes.
    pub fn as_slice(&self) -> (r: &[u8])
        ensures
            r@ == self@,
    {
        self.bytes.as_slice()
    }
}

impl Clone for Frame {
    fn clone(&self) -> (r: Frame)
        ensures
            r@ == self@,
    {
        proof {
            use_type_invariant(self);
        }
        let mut bytes: Vec<u8> = Vec::new();
        let mut i: usize = 0;
        while i < self.bytes.len()
            invariant
                i <= self.bytes@.len() <= MAX_FRAME,
                bytes@ == self.bytes@.subrange(0, i as int),
            decreases self.bytes@.len() - i,
        {
            bytes.push(self.bytes[i]);
            i = i + 1;
            assert(bytes@ =~= self.bytes@.subrange(0, i as int));
        }
        assert(bytes@ =~= self.bytes@);
        Frame { bytes }
    }
}

} // verus!
