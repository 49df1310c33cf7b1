//! The declared buffers and views of a scene document, as plain records.

use vstd::prelude::*;

verus! {

/// The binding that a view's data is meant for.
#[derive(Clone, Copy, Debug, PartialEq, Eq, Structural)]
pub enum Target {
    /// Vertex attributes.
    ArrayBuffer,
    /// Vertex indices.
    ElementArrayBuffer,
}

pub const ARRAY_BUFFER: u32 = 34962;

pub const ELEMENT_ARRAY_BUFFER: u32 = 34963;

impl Target {
    /// The graphics-API code of the target.
    pub fn as_gl_enum(self) -> (r: u32)
        ensures
            r == (match self {
                Target::ArrayBuffer => ARRAY_BUFFER,
                Target::ElementArrayBuffer => ELEMENT_ARRAY_BUFFER,
            }),
    {
        match self {
            Target::ArrayBuffer => ARRAY_BUFFER,
            Target::ElementArrayBuffer => ELEMENT_ARRAY_BUFFER,
        }
    }

    /// The target with a graphics-API code, if there is one.
    pub fn from_gl_enum(code: u32) -> (r: Option<Target>)
        ensures
            code == ARRAY_BUFFER ==> r == Some(Target::ArrayBuffer),
            code == ELEMENT_ARRAY_BUFFER ==> r == Some(Target::ElementArrayBuffer),
            code != ARRAY_BUFFER && code != ELEMENT_ARRAY_BUFFER ==> r is None,
    {
        if code == ARRAY_BUFFER {
            Some(Target::ArrayBuffer)
        } else if code == ELEMENT_ARRAY_BUFFER {
            Some(Target::ElementArrayBuffer)
        } else {
            None
        }
    }
}

/// A declared buffer.
pub struct BufferRecord {
    /// Declared length in bytes.
    pub byte_length: usize,
    /// Where the bytes come from; read only by the byte resolver.
    pub uri: Option<String>,
    pub name: Option<String>,
    /// Extension payload, as raw text.
    pub extensions: Option<String>,
    /// Application payload, as raw text.
    pub extras: Option<String>,
}

/// A declared view: a byte range of one buffer.
pub struct ViewRecord {
    /// Index of the buffer in the document.
    pub buffer: usize,
    pub byte_offset: usize,
    pub byte_length: usize,
    /// Distance between the starts of interleaved elements; none when packed.
    pub byte_stride: Option<usize>,
    pub target: Option<Target>,
    pub name: Option<String>,
    /// Extension payload, as raw text.
    pub extensions: Option<String>,
    /// Application payload, as raw text.
    pub extras: Option<String>,
}

/// Whether a view names an existing buffer and lies inside its declared length.
pub open spec fn view_fits(v: ViewRecord, buffers: Seq<BufferRecord>) -> bool {
    v.buffer < buffers.len() && v.byte_offset + v.byte_length <= buffers[v.buffer as int].byte_length
}

/// Why a document was refused.
#[derive(Clone, Copy, Debug, PartialEq, Eq, Structural)]
pub enum DocumentError {
    /// The view names a buffer that does not exist.
    MissingBuffer { view: usize, buffer: usize },
    /// The view reaches past its buffer's declared length.
    ViewOutOfBounds { view: usize },
}

/// The error for view `i`, which does not fit.
pub open spec fn view_error(views: Seq<ViewRecord>, buffers: Seq<BufferRecord>, i: int) -> DocumentError {
    if views[i].buffer < buffers.len() {
        DocumentError::ViewOutOfBounds { view: i as usize }
    } else {
        DocumentError::MissingBuffer { view: i as usize, buffer: views[i].buffer }
    }
}

/// Declared buffers and views, every view inside its buffer.
pub struct Document {
    buffers: Vec<BufferRecord>,
    views: Vec<ViewRecord>,
}

impl Document {
    #[verifier::type_invariant]
    pub(crate) open spec fn inv(self) -> bool {
        self.wf()
    }

    pub closed spec fn spec_buffers(&self) -> Seq<BufferRecord> {
        self.buffers@
    }

    pub closed spec fn spec_views(&self) -> Seq<ViewRecord> {
        self.views@
    }

    pub open spec fn wf(&self) -> bool {
        forall|i: int|
            0 <= i < self.spec_views().len() ==> view_fits(
                #[trigger] self.spec_views()[i],
                self.spec_buffers(),
            )
    }

    /// A document over these records. The first view, in order, that names a
    /// missing buffer or reaches past its buffer's length is refused.
    pub fn new(buffers: Vec<BufferRecord>, views: Vec<ViewRecord>) -> (r: Result<Document, DocumentError>)
        ensures
            r is Ok <==> forall|i: int| 0 <= i < views@.len() ==> view_fits(#[trigger] views@[i], buffers@),
            r matches Ok(d) ==> d.spec_buffers() == buffers@ && d.spec_views() == views@ && d.wf(),
            r matches Err(e) ==> exists|i: int|
                0 <= i < views@.len() && !view_fits(views@[i], buffers@) && (forall|j: int|
                    0 <= j < i ==> view_fits(#[trigger] views@[j], buffers@)) && e == view_error(
                    views@,
                    buffers@,
                    i,
                ),
    {
        let mut i: usize = 0;
        while i < views.len()
            invariant
                i <= views@.len(),
                forall|j: int| 0 <= j < i ==> view_fits(#[trigger] views@[j], buffers@),
            decreases views@.len() - i,
        {
            let v = &views[i];
            if v.buffer >= buffers.len() {
                let e = DocumentError::MissingBuffer { view: i, buffer: v.buffer };
                assert(!view_fits(views@[i as int], buffers@) && e == view_error(views@, buffers@, i as int));
                return Err(e);
            }
            let fits = match v.byte_offset.checked_add(v.byte_length) {
                Some(end) => end <= buffers[v.buffer].byte_length,
                None => false,
            };
            if !fits {
                let e = DocumentError::ViewOutOfBounds { view: i };
                assert(!view_fits(views@[i as int], buffers@) && e == view_error(views@, buffers@, i as int));
                return Err(e);
            }
            i = i + 1;
        }
        Ok(Document { buffers, views })
    }

    pub fn buffer_count(&self) -> (r: usize)
        ensures
            r == self.spec_buffers().len(),
    {
        self.buffers.len()
    }

    pub fn view_count(&self) -> (r: usize)
        ensures
            r == self.spec_views().len(),
    {
        self.views.len()
    }

    pub fn buffer_record(&self, index: usize) -> (r: &BufferRecord)
        requires
            index < self.spec_buffers().len(),
        ensures
            *r == self.spec_buffers()[index as int],
    {
        &self.buffers[index]
    }

    pub fn view_record(&self, index: usize) -> (r: &ViewRecord)
        requires
            index < self.spec_views().len(),
        ensures
            *r == self.spec_views()[index as int],
    {
        &self.views[index]
    }
}

} // verus!
