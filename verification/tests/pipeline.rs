use netpipe::handler::{AsciiChecker, Doubler, Handler, LayerTranslatorError, MsgType, Stage};
use netpipe::pipeline::{Pipeline, PipelineError, PipelineState};
use netpipe::transport::{Transport, TransportError};
use netpipe::util::FakeNetwork;

#[test]
fn can_send() {
    let fake_network = FakeNetwork::new();

    let mut pipeline: Pipeline<FakeNetwork, Doubler> = Pipeline::new(1, fake_network);
    pipeline.handler_add_first(Doubler::new()).unwrap();
    pipeline.write("one".as_bytes().to_vec()).unwrap();

    assert_eq!(pipeline.transport.recv().unwrap(), "oonnee".as_bytes())
}

#[test]
fn doubler_write_duplicates_each_byte() {
    let doubler = Doubler::new();
    let out = doubler.write("one".as_bytes().to_vec()).unwrap();
    assert_eq!(out, "oonnee".as_bytes());
}

#[test]
fn doubler_read_inverts_write() {
    let doubler = Doubler::new();
    let back = doubler.read("oonnee".as_bytes().to_vec()).unwrap();
    assert_eq!(back, "one".as_bytes());

    for input in [
        b"".to_vec(),
        b"xy".to_vec(),
        b"round trip".to_vec(),
        vec![0u8, 255u8, 7u8, 7u8],
    ] {
        let doubled = doubler.write(input.clone()).unwrap();
        assert_eq!(doubler.read(doubled).unwrap(), input);
    }
}

#[test]
fn doubler_read_rejects_odd_length_and_preserves_input() {
    let doubler = Doubler::new();
    let (returned, err) = doubler.read(b"abc".to_vec()).unwrap_err();
    assert_eq!(returned, b"abc".to_vec());
    assert_eq!(err, LayerTranslatorError::Incomplete);
}

#[test]
fn ascii_checker_rejects_non_ascii_and_preserves_input() {
    let checker = AsciiChecker::new();
    let payload = vec![b'h', b'i', 200u8];
    let (returned, err) = checker.write(payload.clone()).unwrap_err();
    assert_eq!(returned, payload);
    assert_eq!(err, LayerTranslatorError::Malformed);

    let (returned, err) = checker.read(payload.clone()).unwrap_err();
    assert_eq!(returned, payload);
    assert_eq!(err, LayerTranslatorError::Malformed);

    assert_eq!(checker.write(b"plain".to_vec()).unwrap(), b"plain".to_vec());
}

#[test]
fn empty_chain_round_trip() {
    let mut pipeline: Pipeline<FakeNetwork, Doubler> = Pipeline::new(0, FakeNetwork::new());
    pipeline.write(b"hello".to_vec()).unwrap();
    assert_eq!(pipeline.transport.recv().unwrap(), b"hello".to_vec());

    pipeline.transport.send(b"world".to_vec());
    assert_eq!(pipeline.read(16).unwrap(), b"world".to_vec());
}

#[test]
fn pipeline_read_translates_inbound_traffic() {
    let mut pipeline: Pipeline<FakeNetwork, Doubler> = Pipeline::new(1, FakeNetwork::new());
    pipeline.handler_add_first(Doubler::new()).unwrap();
    pipeline.transport.send("oonnee".as_bytes().to_vec());
    assert_eq!(pipeline.read(32).unwrap(), "one".as_bytes().to_vec());
}

#[test]
fn pipeline_read_reports_not_ready_without_data() {
    let mut pipeline: Pipeline<FakeNetwork, Doubler> = Pipeline::new(0, FakeNetwork::new());
    let (recovered, err) = pipeline.read(8).unwrap_err();
    assert!(recovered.is_empty());
    assert_eq!(err, PipelineError::NotReady);
}

#[test]
fn pipeline_read_surfaces_translation_failure_with_input() {
    let mut pipeline: Pipeline<FakeNetwork, Doubler> = Pipeline::new(1, FakeNetwork::new());
    pipeline.handler_add_first(Doubler::new()).unwrap();
    pipeline.transport.send(b"odd".to_vec());
    let (recovered, err) = pipeline.read(8).unwrap_err();
    assert_eq!(recovered, b"odd".to_vec());
    assert_eq!(
        err,
        PipelineError::Translation(LayerTranslatorError::Incomplete)
    );
}

#[test]
fn pipeline_write_surfaces_translation_failure_with_input() {
    let mut pipeline: Pipeline<FakeNetwork, AsciiChecker> = Pipeline::new(1, FakeNetwork::new());
    pipeline.handler_add_first(AsciiChecker::new()).unwrap();
    let payload = vec![1u8, 2u8, 250u8];
    let (recovered, err) = pipeline.write(payload.clone()).unwrap_err();
    assert_eq!(recovered, payload);
    assert_eq!(
        err,
        PipelineError::Translation(LayerTranslatorError::Malformed)
    );
    // Nothing reached the transport.
    assert_eq!(
        pipeline.transport.recv().unwrap_err(),
        TransportError::WouldBlock
    );
}

#[test]
fn mismatched_handler_is_rejected_and_chain_unchanged() {
    // The checker's upstream side speaks Text, so a byte-speaking stage
    // cannot sit above it.
    assert_eq!(AsciiChecker::new().declared_up(), MsgType::Text);
    assert_eq!(Doubler::new().declared_down(), MsgType::Bytes);

    let mut pipeline: Pipeline<FakeNetwork, Stage> = Pipeline::new(2, FakeNetwork::new());
    pipeline
        .handler_add_last(Stage::Ascii(AsciiChecker::new()))
        .unwrap();

    let (returned, err) = pipeline
        .handler_add_last(Stage::Double(Doubler::new()))
        .unwrap_err();
    assert!(matches!(returned, Stage::Double(_)));
    assert_eq!(err, PipelineError::Configuration);
    assert_eq!(pipeline.handlers.len(), 1);
    assert!(matches!(pipeline.handlers[0], Stage::Ascii(_)));

    let (returned, err) = pipeline
        .handler_add_first(Stage::Ascii(AsciiChecker::new()))
        .unwrap_err();
    assert!(matches!(returned, Stage::Ascii(_)));
    assert_eq!(err, PipelineError::Configuration);
    assert_eq!(pipeline.handlers.len(), 1);
}

#[test]
fn matched_stages_compose_and_carry_traffic() {
    let mut pipeline: Pipeline<FakeNetwork, Stage> = Pipeline::new(2, FakeNetwork::new());
    pipeline
        .handler_add_first(Stage::Double(Doubler::new()))
        .unwrap();
    pipeline
        .handler_add_last(Stage::Ascii(AsciiChecker::new()))
        .unwrap();
    assert!(pipeline.well_formed());

    pipeline.write(b"ab".to_vec()).unwrap();
    assert_eq!(pipeline.transport.recv().unwrap(), b"aabb".to_vec());
}

#[test]
fn insertion_after_traffic_is_rejected() {
    let mut pipeline: Pipeline<FakeNetwork, Doubler> = Pipeline::new(1, FakeNetwork::new());
    pipeline.write(b"go".to_vec()).unwrap();
    assert_eq!(pipeline.state, PipelineState::Active);

    let (_, err) = pipeline.handler_add_first(Doubler::new()).unwrap_err();
    assert_eq!(err, PipelineError::Configuration);
    let (_, err) = pipeline.handler_add_last(Doubler::new()).unwrap_err();
    assert_eq!(err, PipelineError::Configuration);
    assert_eq!(pipeline.handlers.len(), 0);
}

#[test]
fn closed_transport_is_terminal_for_the_pipeline() {
    let mut pipeline: Pipeline<FakeNetwork, Doubler> = Pipeline::new(0, FakeNetwork::new());
    pipeline.transport.close();

    let (recovered, err) = pipeline.write(b"late".to_vec()).unwrap_err();
    assert_eq!(recovered, b"late".to_vec());
    assert_eq!(err, PipelineError::Transport(TransportError::Closed));
    assert_eq!(pipeline.state, PipelineState::Closed);

    // Every later call keeps failing the same way, without blocking.
    for _ in 0..3 {
        let (_, err) = pipeline.write(b"again".to_vec()).unwrap_err();
        assert_eq!(err, PipelineError::Transport(TransportError::Closed));
        let (_, err) = pipeline.read(8).unwrap_err();
        assert_eq!(err, PipelineError::Transport(TransportError::Closed));
    }
}
