use classroom_fanout::failure::Disposition;
use classroom_fanout::failure::FailureKind;

#[test]
fn category_and_bridge_failures_are_recovered() {
    assert_eq!(FailureKind::SubResourceFetch.disposition(), Disposition::Recovered);
    assert_eq!(FailureKind::BridgeCall.disposition(), Disposition::Recovered);
    assert!(!FailureKind::SubResourceFetch.is_fatal());
    assert!(!FailureKind::BridgeCall.is_fatal());
}

#[test]
fn listing_and_credential_failures_end_the_run() {
    assert_eq!(FailureKind::ParentList.disposition(), Disposition::Fatal);
    assert_eq!(FailureKind::Credential.disposition(), Disposition::Fatal);
    assert!(FailureKind::ParentList.is_fatal());
    assert!(FailureKind::Credential.is_fatal());
}

#[test]
fn render_and_output_failures_end_the_run() {
    assert_eq!(FailureKind::Render.disposition(), Disposition::Fatal);
    assert_eq!(FailureKind::OutputSink.disposition(), Disposition::Fatal);
    assert!(FailureKind::Render.is_fatal());
    assert!(FailureKind::OutputSink.is_fatal());
}
