use middleware_chain::chain::Chain;
use middleware_chain::chain::ChainError;
use middleware_chain::chain::Response;
use middleware_chain::chain::StageKind;
use middleware_chain::logger::LoggerHandle;
use middleware_chain::logger::Sink;
use middleware_chain::state::StateImpl;
use middleware_chain::store::Extensions;

fn root_fields() -> Vec<(String, String)> {
    vec![("app".to_owned(), "middleware-chain".to_owned())]
}

fn app_state() -> StateImpl {
    StateImpl { log: LoggerHandle::root(root_fields()) }
}

fn is_correlation_id(s: &str) -> bool {
    s.len() == 32 && s.chars().all(|c| matches!(c, '0'..='9' | 'a'..='f'))
}

#[test]
fn single_request_installs_logger_and_identifier() {
    let state = app_state();
    let chain = Chain::standard();
    let mut ext = Extensions::new();
    let mut sink = Sink::new();

    let resp = chain.run(&state, &mut ext, &mut sink, Response { status: 200 });
    assert_eq!(resp, Ok(Response { status: 200 }));

    let id = ext.get_request_id().expect("identifier stored").0.clone();
    assert!(is_correlation_id(&id));

    let logger = ext.get_logger().expect("logger stored");
    let fields = logger.0.fields();
    assert_eq!(fields.len(), 2);
    assert_eq!(fields[0], ("app".to_owned(), "middleware-chain".to_owned()));
    assert_eq!(fields[1], ("request_id".to_owned(), id.clone()));
}

#[test]
fn diagnostic_record_emitted_exactly_once() {
    let state = app_state();
    let chain = Chain::standard();
    let mut ext = Extensions::new();
    let mut sink = Sink::new();

    chain.run(&state, &mut ext, &mut sink, Response { status: 200 }).unwrap();

    assert_eq!(sink.len(), 1);
    let record = sink.record_at(0);
    assert_eq!(record.message, "Generated request ID");
    let id = ext.get_request_id().expect("identifier stored").0.clone();
    assert_eq!(
        &record.fields,
        &vec![
            ("app".to_owned(), "middleware-chain".to_owned()),
            ("request_id".to_owned(), id),
        ]
    );
}

#[test]
fn correlation_identifier_is_32_lowercase_hex() {
    let state = app_state();
    let chain = Chain::standard();
    for _ in 0..50 {
        let mut ext = Extensions::new();
        let mut sink = Sink::new();
        chain.run(&state, &mut ext, &mut sink, Response { status: 200 }).unwrap();
        let id = &ext.get_request_id().expect("identifier stored").0;
        assert!(is_correlation_id(id), "not a correlation identifier: {id}");
    }
}

#[test]
fn many_requests_get_distinct_identifiers_without_cross_contamination() {
    let state = app_state();
    let chain = Chain::standard();
    let mut seen = std::collections::HashSet::new();
    for _ in 0..1000 {
        let mut ext = Extensions::new();
        let mut sink = Sink::new();
        chain.run(&state, &mut ext, &mut sink, Response { status: 200 }).unwrap();
        let id = ext.get_request_id().expect("identifier stored").0.clone();
        assert!(seen.insert(id.clone()), "identifier repeated: {id}");

        // The final handle carries this request's identifier and no other.
        let logger = ext.get_logger().expect("logger stored");
        let id_fields: Vec<&(String, String)> =
            logger.0.fields().iter().filter(|f| f.0 == "request_id").collect();
        assert_eq!(id_fields.len(), 1);
        assert_eq!(id_fields[0].1, id);
    }
    assert_eq!(seen.len(), 1000);
}

#[test]
fn exactly_one_derivation_hop_each_run() {
    let state = app_state();
    let chain = Chain::standard();
    let root_len = state.log.len();
    // However many times the chain runs in one process, each request's
    // final handle is exactly one hop below the root.
    for _ in 0..5 {
        let mut ext = Extensions::new();
        let mut sink = Sink::new();
        chain.run(&state, &mut ext, &mut sink, Response { status: 200 }).unwrap();
        let logger = ext.get_logger().expect("logger stored");
        assert_eq!(logger.0.len(), root_len + 1);
    }
}

#[test]
fn reversed_order_fails_fast() {
    let state = app_state();
    let mut chain = Chain::new();
    chain.register(StageKind::RequestId);
    chain.register(StageKind::LogInitializer);

    let mut ext = Extensions::new();
    let mut sink = Sink::new();
    let resp = chain.run(&state, &mut ext, &mut sink, Response { status: 200 });
    assert_eq!(resp, Err(ChainError::MissingLogger));
    // No logger was fabricated and nothing was emitted.
    assert!(ext.get_logger().is_none());
    assert_eq!(sink.len(), 0);
    // The identifier had already been minted and stored when the stage
    // found the broken ordering.
    let id = &ext.get_request_id().expect("identifier stored").0;
    assert!(is_correlation_id(id));
}

#[test]
fn handler_response_passes_back_through_the_chain() {
    let state = app_state();
    let chain = Chain::standard();
    let mut ext = Extensions::new();
    let mut sink = Sink::new();
    let resp = chain.run(&state, &mut ext, &mut sink, Response { status: 418 });
    assert_eq!(resp, Ok(Response { status: 418 }));
}
