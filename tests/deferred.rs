use wgpu_3dgs_viewer_app::deferred::{ExportDownloadReceiver, Loadable, Unloaded};

#[test]
fn loadable_stays_pending_until_sent_then_keeps_value() {
    let mut cell: Loadable<u32, String> = Loadable::unloaded();
    assert!(!cell.is_loaded());
    cell.try_advance();
    assert!(matches!(cell, Loadable::Unloaded(Unloaded { err: None, .. })));
    let tx = match &cell {
        Loadable::Unloaded(u) => u.tx.clone(),
        Loadable::Loaded(_) => unreachable!(),
    };
    tx.send(Ok(7)).unwrap();
    cell.try_advance();
    assert!(matches!(cell, Loadable::Loaded(7)));
    tx.send(Ok(8)).unwrap_or(());
    cell.try_advance();
    cell.try_advance();
    assert!(matches!(cell, Loadable::Loaded(7)));
    assert!(cell.is_loaded());
}

#[test]
fn loadable_records_failed_attempt_and_stays_pending() {
    let mut cell: Loadable<u32, String> = Loadable::unloaded();
    if let Loadable::Unloaded(u) = &cell {
        u.tx.send(Err("bad file".to_string())).unwrap();
    }
    cell.try_advance();
    match &cell {
        Loadable::Unloaded(u) => assert_eq!(u.err.as_deref(), Some("bad file")),
        Loadable::Loaded(_) => panic!("a failed load must not complete the cell"),
    }
    if let Loadable::Unloaded(u) = &cell {
        u.tx.send(Ok(3)).unwrap();
    }
    cell.try_advance();
    assert!(matches!(cell, Loadable::Loaded(3)));
}

#[test]
fn loadable_constructors() {
    let e: Loadable<u32, String> = Loadable::error("x".to_string());
    assert!(matches!(&e, Loadable::Unloaded(Unloaded { err: Some(m), .. }) if m == "x"));
    let l: Loadable<u32, String> = Loadable::loaded(5);
    assert!(matches!(l, Loadable::Loaded(5)));
    let mut l = l;
    l.advance_with(Some(Ok(6)));
    assert!(matches!(l, Loadable::Loaded(5)));
}

#[test]
fn download_receiver_single_assignment() {
    let (tx, rx) = oneshot::channel::<Vec<u8>>();
    let mut cell = ExportDownloadReceiver::new(rx);
    cell.try_recv();
    assert!(!cell.is_downloaded());
    tx.send(vec![1, 2, 3]).unwrap();
    cell.try_recv();
    assert!(matches!(&cell, ExportDownloadReceiver::Downloaded(v) if *v == vec![1, 2, 3]));
    cell.try_recv();
    cell.advance_with(Some(vec![9]));
    assert!(matches!(&cell, ExportDownloadReceiver::Downloaded(v) if *v == vec![1, 2, 3]));
}

#[test]
fn loadable_default_is_pending() {
    let cell: Loadable<u32, String> = Loadable::default();
    assert!(matches!(cell, Loadable::Unloaded(Unloaded { err: None, .. })));
}
