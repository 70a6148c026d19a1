use std::io::Read;
use wgpu_3dgs_viewer_app::export::{
    build_archive, export_file_name, export_models, export_plan_of, export_selection_of, single_file_name_from, ExportColumn, ExportItem,
    ExportModal, ExportSettings, ExportStage,
};

fn names(n: &[&str]) -> Vec<String> {
    n.iter().map(|s| s.to_string()).collect()
}

fn entry_names(bytes: Vec<u8>) -> Vec<(String, Vec<u8>)> {
    let mut archive = zip::ZipArchive::new(std::io::Cursor::new(bytes)).unwrap();
    let mut out = Vec::new();
    for i in 0..archive.len() {
        let mut f = archive.by_index(i).unwrap();
        let mut data = Vec::new();
        f.read_to_end(&mut data).unwrap();
        out.push((f.name().to_string(), data));
    }
    out
}

#[test]
fn export_plan_keeps_marked_models_in_order() {
    let settings = vec![
        ExportSettings { export: true, edit: false, mask: true },
        ExportSettings { export: false, edit: true, mask: true },
        ExportSettings { export: true, edit: true, mask: false },
    ];
    let plan = export_plan_of(&settings);
    assert_eq!(
        plan,
        vec![ExportItem { index: 0, edit: false, mask: true }, ExportItem { index: 2, edit: true, mask: false }]
    );
    assert_eq!(ExportSettings::default(), ExportSettings { export: true, edit: true, mask: true });
}

#[test]
fn archive_holds_exactly_the_confirmed_models() {
    let mut modal: ExportModal<u32, String> = ExportModal::new(3);
    modal.settings[1].export = false;
    let (edits_tx, masks_tx) = modal.confirm();
    // switches made after confirmation do not reach the export
    modal.set_all(ExportColumn::Export, true);
    assert!(modal.all(ExportColumn::Export));
    edits_tx.send(vec![vec![1], vec![2], vec![3]]).unwrap();
    assert!(modal.poll_downloads().is_none());
    masks_tx.send(vec![vec![0], vec![0], vec![0]]).unwrap();
    let save_tx = modal.poll_downloads().expect("both downloads are in");
    assert!(matches!(modal.stage, Some(ExportStage::Save { .. })));
    assert!(modal.poll_save().is_none());
    save_tx.send(Some("out.zip".to_string())).unwrap();
    let ready = modal.poll_save().expect("destination chosen");
    assert!(modal.stage.is_none());
    assert_eq!(ready.file, "out.zip");
    assert_eq!(ready.edits, vec![vec![1], vec![2], vec![3]]);
    let plan = export_plan_of(&ready.settings);
    assert_eq!(plan.iter().map(|p| p.index).collect::<Vec<_>>(), vec![0, 2]);
    let model_names = names(&["a.ply", "b.ply", "c.ply"]);
    let payloads = vec![Ok(b"AAA".to_vec()), Ok(b"CC".to_vec())];
    let bytes = export_models(&plan, &model_names, payloads).unwrap();
    assert_eq!(
        entry_names(bytes),
        vec![("a.ply".to_string(), b"AAA".to_vec()), ("c.ply".to_string(), b"CC".to_vec())]
    );
}

#[test]
fn downloads_wait_for_both() {
    let mut modal: ExportModal<u32, String> = ExportModal::new(1);
    assert!(modal.poll_downloads().is_none());
    let (edits_tx, masks_tx) = modal.confirm();
    masks_tx.send(vec![vec![5]]).unwrap();
    assert!(modal.poll_downloads().is_none());
    assert!(matches!(modal.stage, Some(ExportStage::Downloads { .. })));
    edits_tx.send(vec![vec![4]]).unwrap();
    assert!(modal.poll_downloads().is_some());
    match &modal.stage {
        Some(ExportStage::Save { edits, masks, .. }) => {
            assert_eq!(edits, &vec![vec![4]]);
            assert_eq!(masks, &vec![vec![5]]);
        }
        _ => panic!("expected the save stage"),
    }
}

#[test]
fn single_model_is_written_directly() {
    let plan = vec![ExportItem { index: 1, edit: true, mask: true }];
    let out = export_models(&plan, &names(&["a", "b"]), vec![Ok(b"PLY".to_vec())]);
    assert_eq!(out, Ok(b"PLY".to_vec()));
    let out = export_models(&plan, &names(&["a", "b"]), vec![Err("write failed".to_string())]);
    assert_eq!(out, Err("write failed".to_string()));
}

#[test]
fn archive_fails_fast_on_a_failed_model() {
    let plan = vec![
        ExportItem { index: 0, edit: true, mask: true },
        ExportItem { index: 1, edit: true, mask: true },
    ];
    let out = export_models(&plan, &names(&["a", "b"]), vec![Ok(b"x".to_vec()), Err("disk".to_string())]);
    assert_eq!(out, Err("disk".to_string()));
    assert!(matches!(
        build_archive(&plan, &names(&["a", "b"]), &vec![Ok(vec![1]), Err("first".to_string())]),
        Err(e) if e == "first"
    ));
    let out = export_models(&plan, &names(&["a", "b"]), vec![Err("one".to_string()), Err("two".to_string())]);
    assert_eq!(out, Err("one".to_string()));
}

#[test]
fn duplicate_entry_names_are_refused() {
    let plan = vec![
        ExportItem { index: 0, edit: true, mask: true },
        ExportItem { index: 1, edit: true, mask: true },
    ];
    let out = export_models(&plan, &names(&["a", "a"]), vec![Ok(b"x".to_vec()), Ok(b"y".to_vec())]);
    assert!(out.is_err());
}

#[test]
fn empty_plan_gives_empty_archive() {
    let out = export_models(&vec![], &names(&["a"]), vec![]).unwrap();
    assert!(entry_names(out).is_empty());
}

#[test]
fn export_file_names() {
    assert_eq!(single_file_name_from(&"scene.PLY".to_string(), &"scene.ply".to_string()), "scene.PLY");
    assert_eq!(single_file_name_from(&"scene".to_string(), &"scene".to_string()), "scene.ply");
    let one = vec![ExportItem { index: 0, edit: true, mask: true }];
    assert_eq!(export_file_name(&one, &names(&["Bike.PLY"])), "Bike.PLY");
    assert_eq!(export_file_name(&one, &names(&["Bike"])), "Bike.ply");
    let two = vec![ExportItem { index: 0, edit: true, mask: true }, ExportItem { index: 1, edit: true, mask: true }];
    assert_eq!(export_file_name(&two, &names(&["a", "b"])), "models.zip");
}

#[test]
fn set_all_switches_one_column() {
    let mut modal: ExportModal<u32, String> = ExportModal::new(2);
    modal.set_all(ExportColumn::Mask, false);
    assert!(!modal.all(ExportColumn::Mask));
    assert!(modal.all(ExportColumn::Edit));
    assert_eq!(modal.settings[0], ExportSettings { export: true, edit: true, mask: false });
}

#[test]
fn lone_loaded_model_is_exported_whatever_its_flag() {
    let settings = vec![ExportSettings { export: false, edit: false, mask: true }];
    assert_eq!(export_selection_of(&settings), vec![ExportItem { index: 0, edit: false, mask: true }]);
    let two = vec![
        ExportSettings { export: false, edit: true, mask: true },
        ExportSettings { export: true, edit: true, mask: false },
    ];
    assert_eq!(export_selection_of(&two), vec![ExportItem { index: 1, edit: true, mask: false }]);
}

#[test]
fn archive_bytes_are_written_when_names_are_distinct() {
    let plan = vec![
        ExportItem { index: 0, edit: true, mask: true },
        ExportItem { index: 1, edit: true, mask: true },
        ExportItem { index: 2, edit: true, mask: true },
    ];
    let out = export_models(&plan, &names(&["x", "y", "z"]), vec![Ok(vec![]), Ok(vec![7; 10000]), Ok(b"z".to_vec())]);
    let entries = entry_names(out.unwrap());
    assert_eq!(entries.iter().map(|e| e.0.as_str()).collect::<Vec<_>>(), vec!["x", "y", "z"]);
    assert_eq!(entries[1].1, vec![7; 10000]);
    let long = "n".repeat(70000);
    let out = export_models(&plan, &vec![long, "y".to_string(), "z".to_string()], vec![Ok(vec![]), Ok(vec![]), Ok(vec![])]);
    assert!(out.is_err());
}

#[test]
fn step_functions_take_given_values() {
    let mut modal: ExportModal<u32, String> = ExportModal::new(2);
    let (_e, _m) = modal.confirm();
    assert!(modal.advance_downloads(Some(vec![vec![1]]), None).is_none());
    assert!(matches!(modal.stage, Some(ExportStage::Downloads { .. })));
    let tx = modal.advance_downloads(None, Some(vec![vec![2]]));
    assert!(tx.is_some());
    assert!(modal.accept_save(None).is_none());
    assert!(modal.accept_save(Some(None)).is_none());
    assert!(matches!(modal.stage, Some(ExportStage::Save { .. })));
    let ready = modal.accept_save(Some(Some("f".to_string()))).unwrap();
    assert_eq!(ready.file, "f");
    assert_eq!(ready.masks, vec![vec![2]]);
    assert!(modal.stage.is_none());
}
