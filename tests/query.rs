use wgpu_3dgs_viewer_app::query::{
    accept_located_hit, begin_query, finish_query, receive_located_hit, Action, FrameInput, MeasurementHitMethod,
    Modifiers, Query, QueryResult, QuerySelectionAction, QuerySelectionOp, QueryToolsetTool, SceneInput, Selection,
    SelectionMethod,
};

type P = (i32, i32);
type V = [f32; 3];

fn input(held: bool, released: bool, shift: bool, command: bool) -> FrameInput<P> {
    FrameInput {
        click: None,
        hover: Some((10, 20)),
        primary_down: held,
        primary_released: released,
        scroll_step: 0,
        modifiers: Modifiers { shift_only: shift, command_only: command },
    }
}

fn selection_parts(q: &Query<P, V>) -> (Option<QuerySelectionAction>, QuerySelectionOp, u32) {
    match q {
        Query::Selection { action, op, brush_radius, .. } => (*action, *op, *brush_radius),
        _ => panic!("expected a selection query"),
    }
}

#[test]
fn operation_follows_modifier_edges() {
    let mut scene = SceneInput::new();
    let mut sel = Selection::new();
    let mut q: Query<P, V> = Query::none();
    let action: Option<Action<V>> = Some(Action::Selection);
    let mut ops = Vec::new();
    for shift in [false, true, false] {
        scene.handle_action(&action, &mut sel, MeasurementHitMethod::MostAlpha, &mut q, input(true, false, shift, false));
        ops.push(selection_parts(&q).1);
    }
    assert_eq!(ops, vec![QuerySelectionOp::Replace, QuerySelectionOp::Add, QuerySelectionOp::Replace]);
}

#[test]
fn operation_is_not_reset_while_no_modifier_changes() {
    let mut scene = SceneInput::new();
    let mut sel = Selection::new();
    sel.operation = QuerySelectionOp::Remove;
    let mut q: Query<P, V> = Query::none();
    let action: Option<Action<V>> = Some(Action::Selection);
    scene.handle_action(&action, &mut sel, MeasurementHitMethod::MostAlpha, &mut q, input(false, false, false, false));
    assert_eq!(sel.operation, QuerySelectionOp::Remove);
    scene.handle_action(&action, &mut sel, MeasurementHitMethod::MostAlpha, &mut q, input(false, false, false, true));
    assert_eq!(sel.operation, QuerySelectionOp::Remove);
    scene.handle_action(&action, &mut sel, MeasurementHitMethod::MostAlpha, &mut q, input(false, false, false, false));
    assert_eq!(sel.operation, QuerySelectionOp::Replace);
}

#[test]
fn selection_starts_continues_and_ends() {
    let mut scene = SceneInput::new();
    let mut sel = Selection::new();
    sel.method = SelectionMethod::Brush;
    let mut q: Query<P, V> = Query::none();
    let action: Option<Action<V>> = Some(Action::Selection);
    let mut actions = Vec::new();
    for (held, released) in [(false, false), (true, false), (true, false), (true, false), (false, true), (false, false)] {
        scene.handle_action(&action, &mut sel, MeasurementHitMethod::MostAlpha, &mut q, input(held, released, false, false));
        actions.push(selection_parts(&q).0);
    }
    assert_eq!(
        actions,
        vec![
            None,
            Some(QuerySelectionAction::Start(QueryToolsetTool::Brush)),
            Some(QuerySelectionAction::Continue),
            Some(QuerySelectionAction::Continue),
            Some(QuerySelectionAction::End),
            None,
        ]
    );
}

#[test]
fn pointer_outside_viewport_gives_idle_query() {
    let mut scene = SceneInput::new();
    let mut sel = Selection::new();
    let mut q: Query<P, V> = Query::none();
    let action: Option<Action<V>> = Some(Action::Selection);
    let mut i = input(true, false, true, false);
    i.hover = None;
    scene.handle_action(&action, &mut sel, MeasurementHitMethod::MostAlpha, &mut q, i);
    assert!(matches!(q, Query::Idle));
    assert_eq!(sel, Selection::new());
    assert_eq!(scene.prev_modifiers, Modifiers { shift_only: true, command_only: false });
}

#[test]
fn brush_radius_is_clamped() {
    let mut scene = SceneInput::new();
    let mut sel = Selection::new();
    sel.method = SelectionMethod::Brush;
    sel.brush_radius = 2;
    let mut q: Query<P, V> = Query::none();
    let action: Option<Action<V>> = Some(Action::Selection);
    for _ in 0..3 {
        let mut i = input(false, false, false, false);
        i.scroll_step = -1;
        scene.handle_action(&action, &mut sel, MeasurementHitMethod::MostAlpha, &mut q, i);
    }
    assert_eq!(sel.brush_radius, 1);
    sel.brush_radius = 199;
    for _ in 0..3 {
        let mut i = input(false, false, false, false);
        i.scroll_step = 1;
        scene.handle_action(&action, &mut sel, MeasurementHitMethod::MostAlpha, &mut q, i);
    }
    assert_eq!(sel.brush_radius, 200);
    assert_eq!(selection_parts(&q).2, 200);
    sel.method = SelectionMethod::Rect;
    let mut i = input(false, false, false, false);
    i.scroll_step = -1;
    scene.handle_action(&action, &mut sel, MeasurementHitMethod::MostAlpha, &mut q, i);
    assert_eq!(sel.brush_radius, 200);
}

#[test]
fn locate_hit_needs_a_click_inside() {
    let (tx, rx) = std::sync::mpsc::channel::<V>();
    let mut action: Option<Action<V>> = Some(Action::MeasurementLocateHit { hit_pair_index: 2, hit_index: 1, tx, rx });
    let mut scene = SceneInput::new();
    let mut sel = Selection::new();
    let mut q: Query<P, V> = Query::none();
    scene.handle_action(&action, &mut sel, MeasurementHitMethod::Closest, &mut q, input(false, false, false, false));
    assert!(matches!(q, Query::Idle));
    let mut i = input(false, false, false, false);
    i.click = Some((3, 4));
    scene.handle_action(&action, &mut sel, MeasurementHitMethod::Closest, &mut q, i);
    let sender = match &q {
        Query::MeasurementLocateHit { pos, hit_method, tx } => {
            assert_eq!(*pos, (3, 4));
            assert_eq!(*hit_method, MeasurementHitMethod::Closest);
            tx.clone()
        }
        _ => panic!("expected a locate-hit query"),
    };
    assert!(receive_located_hit(&mut action).is_none());
    assert!(action.is_some());
    sender.send([1.0, 2.0, 3.0]).unwrap();
    let hit = receive_located_hit(&mut action).expect("position sent");
    assert_eq!((hit.hit_pair_index, hit.hit_index, hit.pos), (2, 1, [1.0, 2.0, 3.0]));
    assert!(action.is_none());
    scene.handle_action(&action, &mut sel, MeasurementHitMethod::Closest, &mut q, i_clicked());
    assert!(matches!(q, Query::Idle));
}

fn i_clicked() -> FrameInput<P> {
    let mut i = input(false, false, false, false);
    i.click = Some((1, 1));
    i
}

#[test]
fn accept_located_hit_ignores_other_actions() {
    let mut action: Option<Action<V>> = Some(Action::Selection);
    assert!(accept_located_hit(&mut action, Some([0.0; 3])).is_none());
    assert!(matches!(action, Some(Action::Selection)));
}

#[test]
fn locate_hit_result_is_read_back_once() {
    let (tx, _rx) = std::sync::mpsc::channel::<V>();
    let q: Query<P, V> = Query::measurement_locate_hit((5, 6), MeasurementHitMethod::MostAlpha, tx);
    let mut result: Option<QueryResult> = None;
    assert!(begin_query(&mut result, &q));
    assert!(matches!(result, Some(QueryResult::MeasurementLocateHit)));
    assert!(!begin_query(&mut result, &q));
    let job = finish_query(&mut result, &q).expect("a read-back job");
    assert_eq!(job.pos, (5, 6));
    assert!(matches!(result, Some(QueryResult::Downloading(_))));
    assert!(finish_query(&mut result, &q).is_none());
    assert!(matches!(result, Some(QueryResult::Downloading(_))));
    job.done.send(()).unwrap();
    assert!(finish_query(&mut result, &q).is_none());
    assert!(result.is_none());
    let idle: Query<P, V> = Query::none();
    assert!(begin_query(&mut result, &idle));
    assert!(result.is_none());
}

#[test]
fn held_modifier_does_not_overwrite_operation() {
    let mut scene = SceneInput::new();
    let mut sel = Selection::new();
    let mut q: Query<P, V> = Query::none();
    let action: Option<Action<V>> = Some(Action::Selection);
    scene.handle_action(&action, &mut sel, MeasurementHitMethod::MostAlpha, &mut q, input(true, false, true, false));
    assert_eq!(sel.operation, QuerySelectionOp::Add);
    sel.operation = QuerySelectionOp::Replace;
    scene.handle_action(&action, &mut sel, MeasurementHitMethod::MostAlpha, &mut q, input(true, false, true, false));
    assert_eq!(sel.operation, QuerySelectionOp::Replace);
    scene.handle_action(&action, &mut sel, MeasurementHitMethod::MostAlpha, &mut q, input(true, false, false, true));
    assert_eq!(sel.operation, QuerySelectionOp::Remove);
}
