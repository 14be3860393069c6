use vstd::prelude::*;
use vstd::slice::*;
use vstd::string::*;
use vstd::utf8::*;

verus! {

/// The line terminator of the wire protocol.
pub const LINE_FEED: u8 = 0x0A;

/// The byte that may precede the terminator and is then not part of the line.
pub const CARRIAGE_RETURN: u8 = 0x0D;

/// What a completed line turned out to be.
#[derive(Clone, Debug, PartialEq, Eq)]
pub enum Frame {
    /// A non-empty line of text, without its terminator.
    Line(String),
    /// A non-empty line whose bytes are not UTF-8. It is reported so that
    /// the caller can note it; it is never answered.
    InvalidEncoding,
}

/// A frame with its text as a sequence of characters.
pub enum FrameModel {
    Line(Seq<char>),
    InvalidEncoding,
}

impl View for Frame {
    type V = FrameModel;

    open spec fn view(&self) -> FrameModel {
        match self {
            Frame::Line(text) => FrameModel::Line(text@),
            Frame::InvalidEncoding => FrameModel::InvalidEncoding,
        }
    }
}

/// The framer between two bytes: the bytes of the line so far, and whether
/// the line has already outgrown the buffer and is being skipped.
pub struct FramerModel {
    pub pending: Seq<u8>,
    pub discarding: bool,
}

/// The framer at the start of a line.
pub open spec fn fresh() -> FramerModel {
    FramerModel { pending: Seq::empty(), discarding: false }
}

/// The views of a sequence of frames.
pub open spec fn frames_model(frames: Seq<Frame>) -> Seq<FrameModel> {
    frames.map_values(|f: Frame| f@)
}

/// A line without one trailing carriage return, if it has one.
pub open spec fn trim_cr(raw: Seq<u8>) -> Seq<u8> {
    if raw.len() > 0 && raw.last() == CARRIAGE_RETURN {
        raw.drop_last()
    } else {
        raw
    }
}

/// The frame of a completed line that fitted the buffer: nothing for an
/// empty line, the decoded text where the bytes are UTF-8, and the
/// invalid-encoding mark otherwise.
pub open spec fn frame_of(raw: Seq<u8>) -> Option<FrameModel> {
    let line = trim_cr(raw);
    if line.len() == 0 {
        None
    } else if valid_utf8(line) {
        Some(FrameModel::Line(decode_utf8(line)))
    } else {
        Some(FrameModel::InvalidEncoding)
    }
}

/// Zero or one frame as a sequence.
pub open spec fn emitted(frame: Option<FrameModel>) -> Seq<FrameModel> {
    match frame {
        Some(f) => seq![f],
        None => Seq::empty(),
    }
}

/// One byte through the framer.
pub open spec fn step(capacity: nat, m: FramerModel, byte: u8) -> (FramerModel, Option<FrameModel>) {
    if byte == LINE_FEED {
        (
            fresh(),
            if m.discarding {
                None
            } else {
                frame_of(m.pending)
            },
        )
    } else if m.discarding {
        (m, None)
    } else if m.pending.len() < capacity {
        (FramerModel { pending: m.pending.push(byte), discarding: false }, None)
    } else {
        (FramerModel { pending: Seq::empty(), discarding: true }, None)
    }
}

/// A sequence of bytes through the framer: the framer afterwards, and the
/// frames in the order in which their terminators arrived.
pub open spec fn run(capacity: nat, m: FramerModel, bytes: Seq<u8>) -> (FramerModel, Seq<FrameModel>)
    decreases bytes.len(),
{
    if bytes.len() == 0 {
        (m, Seq::empty())
    } else {
        let (before, frames) = run(capacity, m, bytes.drop_last());
        let (after, frame) = step(capacity, before, bytes.last());
        (after, frames + emitted(frame))
    }
}

/// No byte of the sequence is a line feed.
pub open spec fn unterminated(bytes: Seq<u8>) -> bool {
    forall|i: int| 0 <= i < bytes.len() ==> bytes[i] != LINE_FEED
}

/// Whether a line that continues `m` with `body` is lost: it was already
/// being skipped, or it outgrows the buffer.
pub open spec fn overflows(capacity: nat, m: FramerModel, body: Seq<u8>) -> bool {
    m.discarding || m.pending.len() + body.len() > capacity
}

/// `core::str::from_utf8`: the bytes as text exactly when they are
/// well-formed UTF-8, and then the text is what they decode to.
#[verifier::external_body]
fn utf8_text(bytes: &[u8]) -> (text: Option<&str>)
    ensures
        text.is_some() == valid_utf8(bytes@),
        text matches Some(s) ==> s@ == decode_utf8(bytes@),
{
    match core::str::from_utf8(bytes) {
        Ok(text) => Some(text),
        Err(_) => None,
    }
}

/// Turns the bytes of a completed line into its frame: strips one trailing
/// carriage return, drops an empty line, and decodes the rest.
pub fn frame_line(raw: &[u8]) -> (frame: Option<Frame>)
    ensures
        frame.is_some() == frame_of(raw@).is_some(),
        frame matches Some(f) ==> frame_of(raw@) == Some(f@),
{
    let n: usize = raw.len();
    let line = if n > 0 && raw[n - 1] == CARRIAGE_RETURN {
        slice_subrange(raw, 0, n - 1)
    } else {
        raw
    };
    assert(line@ =~= trim_cr(raw@));
    if line.len() == 0 {
        None
    } else {
        match utf8_text(line) {
            Some(text) => Some(Frame::Line(text.to_owned())),
            None => Some(Frame::InvalidEncoding),
        }
    }
}

/// Accumulates the incoming bytes of one session into lines, in a buffer
/// that never grows beyond its capacity.
pub struct LineFramer {
    buf: Vec<u8>,
    capacity: usize,
    discarding: bool,
}

impl View for LineFramer {
    type V = FramerModel;

    closed spec fn view(&self) -> FramerModel {
        FramerModel { pending: self.buf@, discarding: self.discarding }
    }
}

impl LineFramer {
    /// The most bytes a line may have, its carriage return included.
    pub closed spec fn spec_capacity(&self) -> nat {
        self.capacity as nat
    }

    /// The buffered part of the line fits the capacity, and nothing is
    /// buffered of a line that is being skipped.
    pub open spec fn wf(&self) -> bool {
        &&& self@.pending.len() <= self.spec_capacity()
        &&& self@.discarding ==> self@.pending.len() == 0
    }

    /// An empty framer for lines of up to `capacity` bytes.
    pub fn new(capacity: usize) -> (framer: Self)
        ensures
            framer.wf(),
            framer@ == fresh(),
            framer.spec_capacity() == capacity,
    {
        LineFramer { buf: Vec::with_capacity(capacity), capacity, discarding: false }
    }

    /// The capacity the framer was made with.
    pub fn capacity(&self) -> (capacity: usize)
        ensures
            capacity == self.spec_capacity(),
    {
        self.capacity
    }

    /// The number of bytes buffered of the current line.
    pub fn buffered(&self) -> (len: usize)
        ensures
            len == self@.pending.len(),
    {
        self.buf.len()
    }

    /// Whether the current line has outgrown the buffer and is being skipped.
    pub fn is_discarding(&self) -> (discarding: bool)
        ensures
            discarding == self@.discarding,
    {
        self.discarding
    }

    /// Takes the next bytes of the stream and returns the frames of the
    /// lines that they complete, in order. Bytes of an unfinished line stay
    /// buffered for the next call.
    pub fn feed(&mut self, bytes: &[u8]) -> (frames: Vec<Frame>)
        requires
            old(self).wf(),
        ensures
            final(self).wf(),
            final(self).spec_capacity() == old(self).spec_capacity(),
            (final(self)@, frames_model(frames@)) == run(
                old(self).spec_capacity(),
                old(self)@,
                bytes@,
            ),
    {
        let mut frames: Vec<Frame> = Vec::new();
        let mut i: usize = 0;
        assert(frames_model(frames@) =~= Seq::empty());
        while i < bytes.len()
            invariant
                i <= bytes.len(),
                self.wf(),
                self.spec_capacity() == old(self).spec_capacity(),
                (self@, frames_model(frames@)) == run(
                    old(self).spec_capacity(),
                    old(self)@,
                    bytes@.take(i as int),
                ),
            decreases bytes.len() - i,
        {
            let byte: u8 = bytes[i];
            let ghost before = self@;
            let ghost seen = frames_model(frames@);
            proof {
                assert(bytes@.take(i + 1).drop_last() =~= bytes@.take(i as int));
                assert(bytes@.take(i + 1).last() == byte);
            }
            if byte == LINE_FEED {
                if !self.discarding {
                    match frame_line(self.buf.as_slice()) {
                        Some(frame) => {
                            frames.push(frame);
                            assert(frames_model(frames@) =~= seen + emitted(Some(frame@)));
                        },
                        None => {
                            assert(seen + emitted(None) =~= seen);
                        },
                    }
                } else {
                    assert(seen + emitted(None) =~= seen);
                }
                self.buf.clear();
                self.discarding = false;
                assert(self@.pending =~= fresh().pending);
            } else {
                if !self.discarding {
                    if self.buf.len() < self.capacity {
                        self.buf.push(byte);
                    } else {
                        self.buf.clear();
                        self.discarding = true;
                        assert(self@.pending =~= Seq::<u8>::empty());
                    }
                }
                assert(seen + emitted(None) =~= seen);
            }
            assert((self@, frames_model(frames@)) == (
                step(old(self).spec_capacity(), before, byte).0,
                seen + emitted(step(old(self).spec_capacity(), before, byte).1),
            ));
            i += 1;
        }
        assert(bytes@.take(i as int) =~= bytes@);
        frames
    }
}

/// Feeding a stream in two pieces gives the frames of feeding it in one:
/// where a read ends does not matter.
pub proof fn lemma_run_concat(capacity: nat, m: FramerModel, first: Seq<u8>, second: Seq<u8>)
    ensures
        run(capacity, m, first + second) == ({
            let (mid, head) = run(capacity, m, first);
            let (end, tail) = run(capacity, mid, second);
            (end, head + tail)
        }),
    decreases second.len(),
{
    let (mid, head) = run(capacity, m, first);
    if second.len() == 0 {
        assert(first + second =~= first);
        assert(head + Seq::<FrameModel>::empty() =~= head);
    } else {
        lemma_run_concat(capacity, m, first, second.drop_last());
        assert((first + second).drop_last() =~= first + second.drop_last());
        assert((first + second).last() == second.last());
        let (prev, tail) = run(capacity, mid, second.drop_last());
        let frame = step(capacity, prev, second.last()).1;
        assert((head + tail) + emitted(frame) =~= head + (tail + emitted(frame)));
    }
}

/// Bytes without a terminator complete no line: they are appended to the
/// line so far, or the whole line is given up once it outgrows the buffer.
pub proof fn lemma_run_unterminated(capacity: nat, m: FramerModel, body: Seq<u8>)
    requires
        unterminated(body),
        m.pending.len() <= capacity,
        m.discarding ==> m.pending.len() == 0,
    ensures
        run(capacity, m, body) == (
            if body.len() == 0 {
                m
            } else if overflows(capacity, m, body) {
                FramerModel { pending: Seq::empty(), discarding: true }
            } else {
                FramerModel { pending: m.pending + body, discarding: false }
            },
            Seq::<FrameModel>::empty(),
        ),
    decreases body.len(),
{
    if body.len() > 0 {
        let front = body.drop_last();
        lemma_run_unterminated(capacity, m, front);
        let (before, frames) = run(capacity, m, front);
        assert(body.last() != LINE_FEED);
        assert(frames + emitted(None) =~= Seq::<FrameModel>::empty());
        if front.len() == 0 {
            assert(m.pending + body =~= m.pending.push(body.last()));
            if m.discarding {
                assert(m.pending =~= Seq::<u8>::empty());
            }
        } else if !overflows(capacity, m, front) {
            assert(m.pending + body =~= (m.pending + front).push(body.last()));
        }
    }
}

/// The whole of the framer's behaviour on one line: a line that is
/// terminated leaves the framer fresh, and yields its frame unless it was
/// too long for the buffer, in which case nothing of it is kept.
pub proof fn lemma_run_line(capacity: nat, m: FramerModel, body: Seq<u8>)
    requires
        unterminated(body),
        m.pending.len() <= capacity,
        m.discarding ==> m.pending.len() == 0,
    ensures
        run(capacity, m, body.push(LINE_FEED)) == (
            fresh(),
            if overflows(capacity, m, body) {
                Seq::<FrameModel>::empty()
            } else {
                emitted(frame_of(m.pending + body))
            },
        ),
{
    lemma_run_unterminated(capacity, m, body);
    let line = body.push(LINE_FEED);
    assert(line.drop_last() =~= body);
    assert(line.last() == LINE_FEED);
    let (before, frames) = run(capacity, m, body);
    let frame = step(capacity, before, LINE_FEED).1;
    assert(frames + emitted(frame) =~= emitted(frame));
    if body.len() == 0 {
        assert(m.pending + body =~= m.pending);
    }
}

/// A line longer than the buffer is lost whole, and the line right after it
/// is framed as if the long one had never been sent.
pub proof fn lemma_oversized_line_is_lost(
    capacity: nat,
    m: FramerModel,
    long: Seq<u8>,
    next: Seq<u8>,
)
    requires
        unterminated(long),
        unterminated(next),
        m.pending.len() <= capacity,
        m.discarding ==> m.pending.len() == 0,
        m.pending.len() + long.len() > capacity,
        next.len() <= capacity,
    ensures
        run(capacity, m, long.push(LINE_FEED) + next.push(LINE_FEED)) == (
            fresh(),
            emitted(frame_of(next)),
        ),
{
    lemma_run_line(capacity, m, long);
    lemma_run_line(capacity, fresh(), next);
    lemma_run_concat(capacity, m, long.push(LINE_FEED), next.push(LINE_FEED));
    assert(fresh().pending + next =~= next);
    assert(Seq::<FrameModel>::empty() + emitted(frame_of(next)) =~= emitted(frame_of(next)));
}

/// A line that is not UTF-8 yields the invalid-encoding mark and nothing
/// else, and the line right after it is framed as if it stood alone.
pub proof fn lemma_invalid_line_is_contained(capacity: nat, bad: Seq<u8>, next: Seq<u8>)
    requires
        unterminated(bad),
        unterminated(next),
        bad.len() <= capacity,
        next.len() <= capacity,
        trim_cr(bad).len() > 0,
        !valid_utf8(trim_cr(bad)),
    ensures
        run(capacity, fresh(), bad.push(LINE_FEED)) == (
            fresh(),
            seq![FrameModel::InvalidEncoding],
        ),
        run(capacity, fresh(), bad.push(LINE_FEED) + next.push(LINE_FEED)) == (
            fresh(),
            seq![FrameModel::InvalidEncoding] + emitted(frame_of(next)),
        ),
{
    lemma_run_line(capacity, fresh(), bad);
    lemma_run_line(capacity, fresh(), next);
    lemma_run_concat(capacity, fresh(), bad.push(LINE_FEED), next.push(LINE_FEED));
    assert(fresh().pending + bad =~= bad);
    assert(fresh().pending + next =~= next);
}

} // verus!
