use middleware_chain::chain::ChainError;
use middleware_chain::log_initializer;
use middleware_chain::logger::LoggerHandle;
use middleware_chain::logger::Sink;
use middleware_chain::request_id;
use middleware_chain::state::StateImpl;
use middleware_chain::store::ExtensionTag;
use middleware_chain::store::ExtensionValue;
use middleware_chain::store::Extensions;

fn handle(fields: Vec<(&str, &str)>) -> LoggerHandle {
    LoggerHandle::root(
        fields.into_iter().map(|(k, v)| (k.to_owned(), v.to_owned())).collect(),
    )
}

#[test]
fn store_set_get_remove_round_trip() {
    let mut ext = Extensions::new();
    assert!(ext.get_logger().is_none());
    assert!(ext.get_request_id().is_none());

    ext.set(ExtensionValue::RequestId(request_id::Extension("abc".to_owned())));
    assert_eq!(ext.get_request_id().unwrap().0, "abc");

    let removed = ext.remove(ExtensionTag::RequestId);
    match removed {
        Some(ExtensionValue::RequestId(e)) => assert_eq!(e.0, "abc"),
        _ => panic!("expected the stored identifier back"),
    }
    assert!(ext.get_request_id().is_none());
}

#[test]
fn store_insert_under_occupied_tag_replaces() {
    let mut ext = Extensions::new();
    ext.set(ExtensionValue::RequestId(request_id::Extension("first".to_owned())));
    ext.set(ExtensionValue::RequestId(request_id::Extension("second".to_owned())));
    assert_eq!(ext.get_request_id().unwrap().0, "second");

    ext.set(ExtensionValue::Logger(log_initializer::Extension(handle(vec![("a", "1")]))));
    ext.set(ExtensionValue::Logger(log_initializer::Extension(handle(vec![("b", "2")]))));
    let logger = ext.get_logger().unwrap();
    assert_eq!(logger.0.fields(), &vec![("b".to_owned(), "2".to_owned())]);
    // The other tag's slot was untouched.
    assert_eq!(ext.get_request_id().unwrap().0, "second");
}

#[test]
fn store_remove_absent_tag_yields_none() {
    let mut ext = Extensions::new();
    assert!(ext.remove(ExtensionTag::Logger).is_none());
    assert!(ext.remove(ExtensionTag::RequestId).is_none());
}

#[test]
fn child_handle_appends_fields_and_leaves_parent_alone() {
    let parent = handle(vec![("app", "demo")]);
    let extra = vec![("request_id".to_owned(), "00ff".to_owned())];
    let child = parent.child(&extra);
    assert_eq!(
        child.fields(),
        &vec![
            ("app".to_owned(), "demo".to_owned()),
            ("request_id".to_owned(), "00ff".to_owned()),
        ]
    );
    // Derivation never mutates the parent.
    assert_eq!(parent.fields(), &vec![("app".to_owned(), "demo".to_owned())]);
}

#[test]
fn record_carries_handle_fields_plus_call_fields() {
    let h = handle(vec![("app", "demo")]);
    let call = vec![("request_id".to_owned(), "1234".to_owned())];
    let record = h.record("Generated request ID".to_owned(), &call);
    assert_eq!(record.message, "Generated request ID");
    assert_eq!(
        record.fields,
        vec![
            ("app".to_owned(), "demo".to_owned()),
            ("request_id".to_owned(), "1234".to_owned()),
        ]
    );
}

#[test]
fn sink_appends_in_order() {
    let h = handle(vec![]);
    let mut sink = Sink::new();
    sink.append(h.record("first".to_owned(), &vec![]));
    sink.append(h.record("second".to_owned(), &vec![]));
    assert_eq!(sink.len(), 2);
    assert_eq!(sink.record_at(0).message, "first");
    assert_eq!(sink.record_at(1).message, "second");
}

#[test]
fn manually_removed_logger_fails_only_that_request() {
    let state = StateImpl { log: handle(vec![("app", "demo")]) };
    let li = log_initializer::Middleware;
    let ri = request_id::Middleware;

    // Request A: its logger entry is removed between the two stages.
    let mut ext_a = Extensions::new();
    let mut sink_a = Sink::new();
    li.start(&state, &mut ext_a);
    ext_a.remove(ExtensionTag::Logger);
    let r_a = ri.start(&mut ext_a, &mut sink_a);
    assert_eq!(r_a, Err(ChainError::MissingLogger));
    assert_eq!(sink_a.len(), 0);

    // Request B, processed around it, is unaffected.
    let mut ext_b = Extensions::new();
    let mut sink_b = Sink::new();
    li.start(&state, &mut ext_b);
    let r_b = ri.start(&mut ext_b, &mut sink_b);
    assert!(r_b.is_ok());
    assert!(ext_b.get_logger().is_some());
    assert_eq!(sink_b.len(), 1);
}
