use carillon_backend::imap::session::{probe, ProbeStage, SessionCapability};
use io_imap::types::response::Capability;

#[test]
fn qresync_and_condstore_atoms_map_correctly() {
    let qresync = io_imap::types::core::Atom::try_from("QRESYNC").expect("valid atom");
    assert_eq!(
        Capability::from(qresync),
        Capability::QResync,
        "QRESYNC must parse to Capability::QResync (patched imap-types)",
    );

    let condstore = io_imap::types::core::Atom::try_from("CONDSTORE").expect("valid atom");
    assert_eq!(
        Capability::from(condstore),
        Capability::CondStore,
        "CONDSTORE must parse to Capability::CondStore (patched imap-types)",
    );

    let unselect = io_imap::types::core::Atom::try_from("UNSELECT").expect("valid atom");
    assert_eq!(Capability::from(unselect), Capability::Unselect);
}

#[test]
fn probes_report_their_stage() {
    let down = probe(ProbeStage::Unreachable("no route".into()));
    assert!(!down.reachable && !down.watchable());
    assert_eq!(down.error.as_deref(), Some("no route"));
    let refused = probe(ProbeStage::Refused("bad login".into()));
    assert!(refused.reachable && !refused.authenticated);
    let poor = probe(ProbeStage::SignedIn(vec![SessionCapability::CondStore]));
    assert!(poor.authenticated && poor.condstore && !poor.watchable());
    assert_eq!(poor.missing(), vec!["IDLE"]);
    let good = probe(ProbeStage::SignedIn(vec![SessionCapability::Other, SessionCapability::Idle]));
    assert!(good.watchable() && !good.qresync);
    assert!(good.missing().is_empty());
}
