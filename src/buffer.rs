//! Handles on a document's buffers and views, and the resolution cells that
//! memoise each buffer's bytes.

use crate::cell::{
    after_request, carried, completion, settled, final_phase, lemma_one_outcome_for_all, next, outcome_view, replies,
    request_reply, reply, terminal, Action, Event, Phase, Reply, ResolutionCell,
    ResolveError,
};
use crate::data::{BufferData, ViewData};
use crate::document::{view_fits, BufferRecord, Document, Target, ViewRecord};
use vstd::prelude::*;
use vstd::view::View as _;

verus! {

/// The cells after event `ev` happened to the cell of buffer `index`.
pub open spec fn apply_at(cells: Seq<Phase>, index: int, ev: Event) -> Seq<Phase> {
    cells.update(index, next(cells[index], ev))
}

/// One resolution cell per buffer of a document.
pub struct Resolutions {
    cells: Vec<ResolutionCell>,
}

impl vstd::view::View for Resolutions {
    type V = Seq<Phase>;

    closed spec fn view(&self) -> Seq<Phase> {
        self.cells@.map_values(|c: ResolutionCell| c@)
    }
}

impl Resolutions {
    /// `count` cells, none started.
    pub fn new(count: usize) -> (r: Resolutions)
        ensures
            r@ == Seq::new(count as nat, |i: int| Phase::Unstarted),
    {
        let mut cells: Vec<ResolutionCell> = Vec::new();
        let mut i: usize = 0;
        while i < count
            invariant
                i <= count,
                cells@.len() == i,
                forall|j: int| 0 <= j < i ==> (#[trigger] cells@[j])@ == Phase::Unstarted,
            decreases count - i,
        {
            cells.push(ResolutionCell::new());
            i = i + 1;
        }
        let r = Resolutions { cells };
        assert(r@ =~= Seq::new(count as nat, |i: int| Phase::Unstarted));
        r
    }

    /// A cell for each buffer of `document`, none started.
    pub fn for_document(document: &Document) -> (r: Resolutions)
        ensures
            r@ == Seq::new(document.spec_buffers().len(), |i: int| Phase::Unstarted),
    {
        Resolutions::new(document.buffer_count())
    }

    pub fn len(&self) -> (r: usize)
        ensures
            r == self@.len(),
    {
        self.cells.len()
    }

    /// A request for the bytes of buffer `index`; no other cell changes.
    pub fn request(&mut self, index: usize) -> (r: Action)
        requires
            index < old(self)@.len(),
        ensures
            final(self)@ == apply_at(old(self)@, index as int, Event::Request),
            r.reply() == request_reply(old(self)@[index as int]),
    {
        let mut cell = self.cells.remove(index);
        let r = cell.request();
        self.cells.insert(index, cell);
        assert(self@ =~= apply_at(old(self)@, index as int, Event::Request));
        r
    }

    /// The resolver's result for buffer `index`; no other cell changes.
    pub fn complete(&mut self, index: usize, result: Result<Vec<u8>, ResolveError>) -> (r: Option<
        Result<BufferData, ResolveError>,
    >)
        requires
            index < old(self)@.len(),
        ensures
            final(self)@ == apply_at(old(self)@, index as int, completion(result)),
            reply(old(self)@[index as int], completion(result)) == settled(r),
    {
        let ghost ev = completion(result);
        let mut cell = self.cells.remove(index);
        let r = cell.complete(result);
        self.cells.insert(index, cell);
        assert(self@ =~= apply_at(old(self)@, index as int, ev));
        r
    }
}

/// Why a view's bytes could not be had.
#[derive(Debug)]
pub enum DataError {
    /// The buffer's bytes could not be resolved.
    Resolution(ResolveError),
    /// The resolved buffer is shorter than the view's declared range.
    OutOfBounds { begin: usize, end: usize, available: usize },
}

/// A view's outcome, from its declared range and its buffer's outcome.
pub open spec fn window_outcome(offset: int, length: int, o: Result<Seq<u8>, ResolveError>) -> Result<
    Seq<u8>,
    DataError,
> {
    match o {
        Ok(b) => if offset + length <= b.len() {
            Ok(b.subrange(offset, offset + length))
        } else {
            Err(
                DataError::OutOfBounds {
                    begin: offset as usize,
                    end: (offset + length) as usize,
                    available: b.len() as usize,
                },
            )
        },
        Err(e) => Err(DataError::Resolution(e)),
    }
}

pub open spec fn data_view(r: Result<ViewData, DataError>) -> Result<Seq<u8>, DataError> {
    match r {
        Ok(v) => Ok(v@),
        Err(e) => Err(e),
    }
}

/// What a request for a view's bytes asks of the cells' owner.
pub enum ViewAction {
    /// Start the resolver of the view's buffer.
    StartResolver,
    /// The buffer's resolver runs: wait for its outcome.
    Wait,
    /// The view's outcome, at once.
    Ready(Result<ViewData, DataError>),
}

impl ViewAction {
    /// Whether this answers the buffer's reply `rep` for a view of this range.
    pub open spec fn answers(self, offset: int, length: int, rep: Reply) -> bool {
        match rep {
            Reply::Start => self is StartResolver,
            Reply::Wait => self is Wait,
            Reply::Ready(o) => self matches ViewAction::Ready(x) && data_view(x) == window_outcome(
                offset,
                length,
                o,
            ),
            Reply::Settled(_) => false,
        }
    }
}

/// A buffer of a document: binary data of a declared length.
pub struct Buffer<'a> {
    document: &'a Document,
    index: usize,
}

impl<'a> Buffer<'a> {
    #[verifier::type_invariant]
    spec fn inv(self) -> bool {
        self.index < self.document.spec_buffers().len()
    }

    pub closed spec fn spec_index(&self) -> usize {
        self.index
    }

    pub closed spec fn spec_document(&self) -> &'a Document {
        self.document
    }

    pub open spec fn record(&self) -> BufferRecord {
        self.spec_document().spec_buffers()[self.spec_index() as int]
    }

    /// The handle on buffer `index` of `document`.
    pub fn new(document: &'a Document, index: usize) -> (r: Buffer<'a>)
        requires
            index < document.spec_buffers().len(),
        ensures
            r.spec_document() == document,
            r.spec_index() == index,
    {
        Buffer { document, index }
    }

    /// The declared record.
    pub fn as_json(&self) -> (r: &'a BufferRecord)
        ensures
            *r == self.record(),
    {
        proof {
            use_type_invariant(self);
        }
        self.document.buffer_record(self.index)
    }

    /// Position of the buffer in the document.
    pub fn index(&self) -> (r: usize)
        ensures
            r == self.spec_index(),
    {
        self.index
    }

    /// The declared length in bytes.
    pub fn length(&self) -> (r: usize)
        ensures
            r == self.record().byte_length,
    {
        self.as_json().byte_length
    }

    /// Where the bytes come from.
    pub fn uri(&self) -> (r: Option<&'a str>)
        ensures
            r matches Some(s) ==> self.record().uri matches Some(u) && s@ == u@,
            r is None ==> self.record().uri is None,
    {
        match &self.as_json().uri {
            Some(s) => Some(s.as_str()),
            None => None,
        }
    }

    /// Optional user-defined name.
    pub fn name(&self) -> (r: Option<&'a str>)
        ensures
            r matches Some(s) ==> self.record().name matches Some(u) && s@ == u@,
            r is None ==> self.record().name is None,
    {
        match &self.as_json().name {
            Some(s) => Some(s.as_str()),
            None => None,
        }
    }

    /// Extension-specific data.
    pub fn extensions(&self) -> (r: &'a Option<String>)
        ensures
            *r == self.record().extensions,
    {
        &self.as_json().extensions
    }

    /// Optional application-specific data.
    pub fn extras(&self) -> (r: &'a Option<String>)
        ensures
            *r == self.record().extras,
    {
        &self.as_json().extras
    }

    /// A request for the buffer's bytes, on the document's cells.
    pub fn data(&self, cells: &mut Resolutions) -> (r: Action)
        requires
            old(cells)@.len() == self.spec_document().spec_buffers().len(),
        ensures
            final(cells)@ == apply_at(old(cells)@, self.spec_index() as int, Event::Request),
            r.reply() == request_reply(old(cells)@[self.spec_index() as int]),
    {
        proof {
            use_type_invariant(self);
        }
        cells.request(self.index)
    }

    /// Hands the resolver's result for this buffer to its cell.
    pub fn complete(&self, cells: &mut Resolutions, result: Result<Vec<u8>, ResolveError>) -> (r: Option<
        Result<BufferData, ResolveError>,
    >)
        requires
            old(cells)@.len() == self.spec_document().spec_buffers().len(),
        ensures
            final(cells)@ == apply_at(old(cells)@, self.spec_index() as int, completion(result)),
            reply(old(cells)@[self.spec_index() as int], completion(result)) == settled(r),
    {
        proof {
            use_type_invariant(self);
        }
        cells.complete(self.index, result)
    }
}

impl Document {
    /// The handle on buffer `index`, if there is one.
    pub fn buffer(&self, index: usize) -> (r: Option<Buffer<'_>>)
        ensures
            r is Some <==> index < self.spec_buffers().len(),
            r matches Some(b) ==> b.spec_document() == self && b.spec_index() == index,
    {
        if index < self.buffer_count() {
            Some(Buffer::new(self, index))
        } else {
            None
        }
    }
}

/// A view of a document: a byte range of one of its buffers.
pub struct View<'a> {
    document: &'a Document,
    index: usize,
}

impl<'a> View<'a> {
    #[verifier::type_invariant]
    spec fn inv(self) -> bool {
        self.index < self.document.spec_views().len() && self.document.wf()
    }

    pub closed spec fn spec_index(&self) -> usize {
        self.index
    }

    pub closed spec fn spec_document(&self) -> &'a Document {
        self.document
    }

    pub open spec fn record(&self) -> ViewRecord {
        self.spec_document().spec_views()[self.spec_index() as int]
    }

    /// The handle on view `index` of `document`.
    pub fn new(document: &'a Document, index: usize) -> (r: View<'a>)
        requires
            index < document.spec_views().len(),
        ensures
            r.spec_document() == document,
            r.spec_index() == index,
    {
        proof {
            use_type_invariant(document);
        }
        View { document, index }
    }

    /// The declared record.
    pub fn as_json(&self) -> (r: &'a ViewRecord)
        ensures
            *r == self.record(),
    {
        proof {
            use_type_invariant(self);
        }
        self.document.view_record(self.index)
    }

    /// Position of the view in the document.
    pub fn index(&self) -> (r: usize)
        ensures
            r == self.spec_index(),
    {
        self.index
    }

    /// The buffer that the view lies in.
    pub fn buffer(&self) -> (r: Buffer<'a>)
        ensures
            r.spec_document() == self.spec_document(),
            r.spec_index() == self.record().buffer,
            self.record().byte_offset + self.record().byte_length <= r.record().byte_length,
    {
        proof {
            use_type_invariant(self);
            assert(view_fits(self.document.spec_views()[self.index as int], self.document.spec_buffers()));
        }
        Buffer::new(self.document, self.as_json().buffer)
    }

    /// The length of the view in bytes.
    pub fn length(&self) -> (r: usize)
        ensures
            r == self.record().byte_length,
    {
        self.as_json().byte_length
    }

    /// The offset into the buffer in bytes.
    pub fn offset(&self) -> (r: usize)
        ensures
            r == self.record().byte_offset,
    {
        self.as_json().byte_offset
    }

    /// The distance in bytes between the starts of interleaved elements; none
    /// when the data is tightly packed.
    pub fn stride(&self) -> (r: Option<usize>)
        ensures
            r == self.record().byte_stride,
    {
        self.as_json().byte_stride
    }

    /// The binding that the data is meant for, if declared.
    pub fn target(&self) -> (r: Option<Target>)
        ensures
            r == self.record().target,
    {
        self.as_json().target
    }

    /// Optional user-defined name.
    pub fn name(&self) -> (r: Option<&'a str>)
        ensures
            r matches Some(s) ==> self.record().name matches Some(u) && s@ == u@,
            r is None ==> self.record().name is None,
    {
        match &self.as_json().name {
            Some(s) => Some(s.as_str()),
            None => None,
        }
    }

    /// Extension-specific data.
    pub fn extensions(&self) -> (r: &'a Option<String>)
        ensures
            *r == self.record().extensions,
    {
        &self.as_json().extensions
    }

    /// Optional application-specific data.
    pub fn extras(&self) -> (r: &'a Option<String>)
        ensures
            *r == self.record().extras,
    {
        &self.as_json().extras
    }

    /// The view's window into its buffer's resolved bytes, sharing them. A
    /// buffer shorter than the declared range is an error, not a short window.
    pub fn window(&self, buffer: BufferData) -> (r: Result<ViewData, DataError>)
        ensures
            data_view(r) == window_outcome(
                self.record().byte_offset as int,
                self.record().byte_length as int,
                Ok(buffer@),
            ),
            r matches Ok(v) ==> v.spec_buffer() == buffer@ && v.spec_begin() == self.record().byte_offset,
    {
        proof {
            use_type_invariant(self);
            assert(view_fits(self.document.spec_views()[self.index as int], self.document.spec_buffers()));
        }
        let begin = self.offset();
        let end = begin + self.length();
        let available = buffer.len();
        if end <= available {
            Ok(ViewData::new(buffer, begin, end))
        } else {
            Err(DataError::OutOfBounds { begin, end, available })
        }
    }

    /// The view's outcome from its buffer's outcome: the window on success,
    /// the buffer's error unchanged on failure.
    pub fn data_from(&self, outcome: Result<BufferData, ResolveError>) -> (r: Result<ViewData, DataError>)
        ensures
            data_view(r) == window_outcome(
                self.record().byte_offset as int,
                self.record().byte_length as int,
                outcome_view(outcome),
            ),
    {
        match outcome {
            Ok(buffer) => self.window(buffer),
            Err(e) => Err(DataError::Resolution(e)),
        }
    }

    /// A request for the view's bytes: a request on its buffer's cell, whose
    /// outcome, if known, is narrowed to the view's window.
    pub fn data(&self, cells: &mut Resolutions) -> (r: ViewAction)
        requires
            old(cells)@.len() == self.spec_document().spec_buffers().len(),
        ensures
            final(cells)@ == apply_at(old(cells)@, self.record().buffer as int, Event::Request),
            r.answers(
                self.record().byte_offset as int,
                self.record().byte_length as int,
                request_reply(old(cells)@[self.record().buffer as int]),
            ),
    {
        let buffer = self.buffer();
        match buffer.data(cells) {
            Action::StartResolver => ViewAction::StartResolver,
            Action::Wait => ViewAction::Wait,
            Action::Ready(outcome) => ViewAction::Ready(self.data_from(outcome)),
        }
    }
}

impl Document {
    /// The handle on view `index`, if there is one.
    pub fn view(&self, index: usize) -> (r: Option<View<'_>>)
        ensures
            r is Some <==> index < self.spec_views().len(),
            r matches Some(v) ==> v.spec_document() == self && v.spec_index() == index,
    {
        if index < self.view_count() {
            Some(View::new(self, index))
        } else {
            None
        }
    }
}

/// A view inside its resolved buffer gets exactly the bytes of its range.
pub proof fn lemma_window_exact(bytes: Seq<u8>, offset: int, length: int)
    requires
        0 <= offset,
        0 <= length,
        offset + length <= bytes.len(),
    ensures
        window_outcome(offset, length, Ok(bytes)) == Ok::<Seq<u8>, DataError>(
            bytes.subrange(offset, offset + length),
        ),
        forall|k: int|
            0 <= k < length ==> bytes.subrange(offset, offset + length)[k] == #[trigger] bytes[offset + k],
{
}

/// When a buffer's resolver fails with `e`, every view over it that is handed
/// an outcome gets that error, whatever its range, and no bytes.
pub proof fn lemma_failure_reaches_every_view(
    evs: Seq<Event>,
    e: ResolveError,
    offset: int,
    length: int,
    i: int,
)
    requires
        final_phase(Phase::Unstarted, evs) == Phase::Failed(e),
        0 <= i < evs.len(),
        carried(replies(Phase::Unstarted, evs)[i]) is Some,
    ensures
        window_outcome(offset, length, carried(replies(Phase::Unstarted, evs)[i]).unwrap())
            == Err::<Seq<u8>, DataError>(DataError::Resolution(e)),
{
    lemma_one_outcome_for_all(Phase::Unstarted, evs, i, i);
}

/// What happens to one buffer's cell neither changes another buffer's cell
/// nor depends on it: events on two buffers commute.
pub proof fn lemma_buffers_independent(cells: Seq<Phase>, a: int, b: int, ea: Event, eb: Event)
    requires
        0 <= a < cells.len(),
        0 <= b < cells.len(),
        a != b,
    ensures
        apply_at(cells, a, ea)[b] == cells[b],
        reply(apply_at(cells, a, ea)[b], eb) == reply(cells[b], eb),
        apply_at(apply_at(cells, a, ea), b, eb) == apply_at(apply_at(cells, b, eb), a, ea),
{
    assert(apply_at(apply_at(cells, a, ea), b, eb) =~= apply_at(apply_at(cells, b, eb), a, ea));
}

/// Once a buffer is settled, a request changes nothing and is answered with
/// the settled outcome, so every later request for a view gets an equal window.
pub proof fn lemma_rerequest_settled(p: Phase, offset: int, length: int)
    requires
        terminal(p) is Some,
    ensures
        after_request(p) == p,
        request_reply(p) == Reply::Ready(terminal(p).unwrap()),
        request_reply(after_request(p)) == request_reply(p),
        window_outcome(offset, length, terminal(after_request(p)).unwrap()) == window_outcome(
            offset,
            length,
            terminal(p).unwrap(),
        ),
{
}

} // verus!
