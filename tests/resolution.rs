use gltf_buffers::{
    Action, BufferData, BufferRecord, DataError, Document, DocumentError, ResolutionCell,
    ResolveError, Resolutions, Target, ViewAction, ViewRecord,
};

fn buffer_record(byte_length: usize) -> BufferRecord {
    BufferRecord {
        byte_length,
        uri: Some("data.bin".to_string()),
        name: Some("geometry".to_string()),
        extensions: None,
        extras: Some("{\"k\":1}".to_string()),
    }
}

fn view_record(buffer: usize, byte_offset: usize, byte_length: usize) -> ViewRecord {
    ViewRecord {
        buffer,
        byte_offset,
        byte_length,
        byte_stride: None,
        target: None,
        name: None,
        extensions: None,
        extras: None,
    }
}

fn twelve_bytes() -> Vec<u8> {
    (0u8..12).collect()
}

fn ready(action: ViewAction) -> Result<Vec<u8>, DataError> {
    match action {
        ViewAction::Ready(r) => r.map(|v| v.as_slice().to_vec()),
        _ => panic!("expected an outcome"),
    }
}

#[test]
fn two_views_one_resolver_call() {
    let doc = Document::new(
        vec![buffer_record(12)],
        vec![view_record(0, 0, 6), view_record(0, 6, 6)],
    )
    .unwrap();
    let mut cells = Resolutions::for_document(&doc);
    let view1 = doc.view(0).unwrap();
    let view2 = doc.view(1).unwrap();
    let mut resolver_calls = 0;
    let first = view1.data(&mut cells);
    let second = view2.data(&mut cells);
    for action in [&first, &second] {
        if let ViewAction::StartResolver = action {
            resolver_calls += 1;
        }
    }
    assert!(matches!(first, ViewAction::StartResolver));
    assert!(matches!(second, ViewAction::Wait));
    let outcome = view1.buffer().complete(&mut cells, Ok(twelve_bytes())).unwrap();
    let bytes1 = view1
        .data_from(gltf_buffers::share_outcome(&outcome))
        .unwrap();
    let bytes2 = view2.data_from(outcome).unwrap();
    assert_eq!(resolver_calls, 1);
    assert_eq!(bytes1.as_slice(), &[0u8, 1, 2, 3, 4, 5]);
    assert_eq!(bytes2.as_slice(), &[6u8, 7, 8, 9, 10, 11]);
    // both windows share one allocation
    assert_eq!(bytes1.buffer().as_slice().as_ptr(), bytes2.buffer().as_slice().as_ptr());
    // a later request is answered at once, without the resolver
    assert_eq!(ready(view2.data(&mut cells)).unwrap(), vec![6u8, 7, 8, 9, 10, 11]);
}

#[test]
fn failure_reaches_both_requesters() {
    let doc = Document::new(vec![buffer_record(4)], vec![view_record(0, 0, 4)]).unwrap();
    let mut cells = Resolutions::for_document(&doc);
    let view = doc.view(0).unwrap();
    assert!(matches!(view.data(&mut cells), ViewAction::StartResolver));
    assert!(matches!(view.data(&mut cells), ViewAction::Wait));
    let outcome = view
        .buffer()
        .complete(&mut cells, Err(ResolveError::new("no such file".to_string())))
        .unwrap();
    let a = view.data_from(gltf_buffers::share_outcome(&outcome));
    let b = view.data_from(outcome);
    for r in [a, b] {
        match r {
            Err(DataError::Resolution(e)) => assert_eq!(e.message(), "no such file"),
            _ => panic!("expected the resolver's error"),
        }
    }
    // later requests get the cached failure, the resolver is not started again
    match ready(view.data(&mut cells)) {
        Err(DataError::Resolution(e)) => assert_eq!(e.message(), "no such file"),
        _ => panic!("expected the resolver's error"),
    }
}

#[test]
fn cell_starts_resolver_once() {
    let mut cell = ResolutionCell::new();
    let mut starts = 0;
    for _ in 0..5 {
        if let Action::StartResolver = cell.request() {
            starts += 1;
        }
    }
    assert_eq!(starts, 1);
    assert!(cell.outcome().is_none());
    let settled = cell.complete(Ok(vec![1, 2, 3])).unwrap().unwrap();
    assert_eq!(settled.as_slice(), &[1u8, 2, 3]);
    // a second completion does not replace the outcome
    let again = cell.complete(Ok(vec![9])).unwrap().unwrap();
    assert_eq!(again.as_slice(), &[1u8, 2, 3]);
    for _ in 0..3 {
        match cell.request() {
            Action::Ready(Ok(b)) => assert_eq!(b.as_slice(), &[1u8, 2, 3]),
            _ => panic!("expected the settled bytes"),
        }
    }
}

#[test]
fn completion_without_start_is_ignored() {
    let mut cell = ResolutionCell::new();
    assert!(cell.complete(Ok(vec![1])).is_none());
    assert!(matches!(cell.request(), Action::StartResolver));
}

#[test]
fn buffers_resolve_independently() {
    let doc = Document::new(
        vec![buffer_record(2), buffer_record(3)],
        vec![view_record(0, 0, 2), view_record(1, 1, 2)],
    )
    .unwrap();
    let mut cells = Resolutions::for_document(&doc);
    let va = doc.view(0).unwrap();
    let vb = doc.view(1).unwrap();
    assert!(matches!(va.data(&mut cells), ViewAction::StartResolver));
    assert!(matches!(vb.data(&mut cells), ViewAction::StartResolver));
    doc.buffer(1).unwrap().complete(&mut cells, Err(ResolveError::new("lost".to_string())));
    assert!(matches!(va.data(&mut cells), ViewAction::Wait));
    doc.buffer(0).unwrap().complete(&mut cells, Ok(vec![7, 8]));
    assert_eq!(ready(va.data(&mut cells)).unwrap(), vec![7u8, 8]);
    assert!(matches!(ready(vb.data(&mut cells)), Err(DataError::Resolution(_))));
}

#[test]
fn rerequest_gives_equal_windows() {
    let doc = Document::new(vec![buffer_record(5)], vec![view_record(0, 1, 3)]).unwrap();
    let mut cells = Resolutions::for_document(&doc);
    let view = doc.view(0).unwrap();
    view.data(&mut cells);
    view.buffer().complete(&mut cells, Ok(vec![10, 11, 12, 13, 14]));
    let first = ready(view.data(&mut cells)).unwrap();
    let second = ready(view.data(&mut cells)).unwrap();
    assert_eq!(first, vec![11u8, 12, 13]);
    assert_eq!(first, second);
}

#[test]
fn short_buffer_is_out_of_bounds() {
    let doc = Document::new(vec![buffer_record(8)], vec![view_record(0, 4, 4)]).unwrap();
    let view = doc.view(0).unwrap();
    match view.window(BufferData::new(vec![0; 6])) {
        Err(DataError::OutOfBounds { begin, end, available }) => {
            assert_eq!((begin, end, available), (4, 8, 6));
        }
        _ => panic!("expected an out-of-bounds error"),
    }
}

#[test]
fn empty_view_window() {
    let doc = Document::new(vec![buffer_record(0)], vec![view_record(0, 0, 0)]).unwrap();
    let window = doc.view(0).unwrap().window(BufferData::new(Vec::new())).unwrap();
    assert_eq!(window.len(), 0);
    assert!(window.as_slice().is_empty());
}

#[test]
fn document_refuses_missing_buffer() {
    let r = Document::new(vec![buffer_record(4)], vec![view_record(0, 0, 4), view_record(3, 0, 1)]);
    assert_eq!(r.err(), Some(DocumentError::MissingBuffer { view: 1, buffer: 3 }));
}

#[test]
fn document_refuses_view_past_buffer() {
    let r = Document::new(vec![buffer_record(4)], vec![view_record(0, 2, 3), view_record(5, 0, 1)]);
    assert_eq!(r.err(), Some(DocumentError::ViewOutOfBounds { view: 0 }));
    let r = Document::new(vec![buffer_record(4)], vec![view_record(0, usize::MAX, 2)]);
    assert_eq!(r.err(), Some(DocumentError::ViewOutOfBounds { view: 0 }));
}

#[test]
fn accessors_forward_records() {
    let mut v = view_record(0, 2, 4);
    v.byte_stride = Some(8);
    v.target = Some(Target::ElementArrayBuffer);
    v.name = Some("indices".to_string());
    let doc = Document::new(vec![buffer_record(16)], vec![v]).unwrap();
    let view = doc.view(0).unwrap();
    assert_eq!(view.offset(), 2);
    assert_eq!(view.length(), 4);
    assert_eq!(view.stride(), Some(8));
    assert_eq!(view.target(), Some(Target::ElementArrayBuffer));
    assert_eq!(view.name(), Some("indices"));
    assert_eq!(view.extras(), &None);
    let buffer = view.buffer();
    assert_eq!(buffer.index(), 0);
    assert_eq!(buffer.length(), 16);
    assert_eq!(buffer.name(), Some("geometry"));
    assert_eq!(buffer.uri(), Some("data.bin"));
    assert_eq!(buffer.extras(), &Some("{\"k\":1}".to_string()));
    assert!(doc.view(1).is_none());
    assert!(doc.buffer(1).is_none());
}

#[test]
fn target_codes() {
    assert_eq!(Target::ArrayBuffer.as_gl_enum(), 34962);
    assert_eq!(Target::ElementArrayBuffer.as_gl_enum(), 34963);
    assert_eq!(Target::from_gl_enum(34963), Some(Target::ElementArrayBuffer));
    assert_eq!(Target::from_gl_enum(1), None);
}

#[test]
fn shared_bytes_are_not_copied() {
    let data = BufferData::new(vec![5, 6, 7]);
    let other = data.share();
    assert_eq!(other.as_slice(), &[5u8, 6, 7]);
    assert_eq!(other.len(), 3);
    assert_eq!(data.as_slice().as_ptr(), other.as_slice().as_ptr());
}
