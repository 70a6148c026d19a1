//! The per-frame interaction query: what the scene asks of the GPU query pipeline in each
//! frame, rebuilt from the input of that frame and the query of the frame before.
use crate::channel::{mpsc_sender_clone, mpsc_try_recv, oneshot_channel, oneshot_try_recv};
use vstd::prelude::*;

verus! {

/// The selection tool chosen in the settings.
#[derive(Clone, Copy, PartialEq, Eq, Structural, Debug)]
pub enum SelectionMethod {
    /// Rectangle selection.
    Rect,
    /// Brush selection.
    Brush,
}

/// How a new selection combines with the current one.
#[derive(Clone, Copy, PartialEq, Eq, Structural, Debug)]
pub enum QuerySelectionOp {
    /// Replace the current selection.
    Replace,
    Add,
    Remove,
}

/// The tool that a selection is drawn with.
#[derive(Clone, Copy, PartialEq, Eq, Structural, Debug)]
pub enum QueryToolsetTool {
    Rect,
    Brush,
}

/// What the selection tool does in a frame.
#[derive(Clone, Copy, PartialEq, Eq, Structural, Debug)]
pub enum QuerySelectionAction {
    /// Starts drawing with a tool.
    Start(QueryToolsetTool),
    /// Goes on drawing: the pointer is held.
    Continue,
    /// Ends the drawing: the pointer was released.
    End,
}

/// Which sample a locate-hit query picks.
#[derive(Clone, Copy, PartialEq, Eq, Structural, Debug)]
pub enum MeasurementHitMethod {
    /// The sample with the greatest accumulated alpha.
    MostAlpha,
    /// The sample closest to the camera.
    Closest,
}

impl Default for MeasurementHitMethod {
    fn default() -> (r: Self)
        ensures
            r == MeasurementHitMethod::MostAlpha,
    {
        MeasurementHitMethod::MostAlpha
    }
}

/// The smallest brush radius, in pixels.
pub const MIN_BRUSH_RADIUS: u32 = 1;

/// The largest brush radius, in pixels.
pub const MAX_BRUSH_RADIUS: u32 = 200;

/// The selection settings that the query reads and updates.
#[derive(Clone, Copy, PartialEq, Eq, Structural, Debug)]
pub struct Selection {
    pub method: SelectionMethod,
    pub operation: QuerySelectionOp,
    /// Select while drawing, rather than when the drawing ends.
    pub immediate: bool,
    pub brush_radius: u32,
    pub show_unedited: bool,
}

pub open spec fn default_selection() -> Selection {
    Selection {
        method: SelectionMethod::Rect,
        operation: QuerySelectionOp::Replace,
        immediate: false,
        brush_radius: 40,
        show_unedited: false,
    }
}

impl Selection {
    /// Rectangle selection that replaces the current one, with a brush radius of 40.
    pub fn new() -> (r: Self)
        ensures
            r == default_selection(),
    {
        Selection {
            method: SelectionMethod::Rect,
            operation: QuerySelectionOp::Replace,
            immediate: false,
            brush_radius: 40,
            show_unedited: false,
        }
    }
}

impl Default for Selection {
    fn default() -> (r: Self)
        ensures
            r == default_selection(),
    {
        Self::new()
    }
}

/// The modifier keys of a frame, as far as the selection reads them.
#[derive(Clone, Copy, PartialEq, Eq, Structural, Debug)]
pub struct Modifiers {
    /// Shift and no other modifier.
    pub shift_only: bool,
    /// The platform's command key and no other modifier.
    pub command_only: bool,
}

/// The pointer and keyboard input of one frame. Positions are relative to the viewport and
/// present only when inside it.
pub struct FrameInput<P> {
    /// Where the primary button clicked this frame.
    pub click: Option<P>,
    /// Where the pointer hovers.
    pub hover: Option<P>,
    /// The primary button is held.
    pub primary_down: bool,
    /// The primary button was released this frame.
    pub primary_released: bool,
    /// The sign of the vertical scroll: -1, 0 or 1.
    pub scroll_step: i32,
    pub modifiers: Modifiers,
}

/// The query that the scene hands to the GPU query pipeline for one frame.
#[verifier::reject_recursive_types(V)]
pub enum Query<P, V> {
    /// Nothing to query.
    Idle,
    /// Locate the sample under a pixel; the position found goes to `tx`.
    MeasurementLocateHit { pos: P, hit_method: MeasurementHitMethod, tx: std::sync::mpsc::Sender<V> },
    /// Draw or update a selection.
    Selection {
        action: Option<QuerySelectionAction>,
        op: QuerySelectionOp,
        immediate: bool,
        brush_radius: u32,
        pos: P,
    },
}

impl<P, V> Query<P, V> {
    /// The query that asks nothing.
    pub fn none() -> (r: Self)
        ensures
            r is Idle,
    {
        Query::Idle
    }

    /// A locate-hit query at `pos`.
    pub fn measurement_locate_hit(pos: P, hit_method: MeasurementHitMethod, tx: std::sync::mpsc::Sender<V>) -> (r: Self)
        ensures
            r == (Query::<P, V>::MeasurementLocateHit { pos, hit_method, tx }),
    {
        Query::MeasurementLocateHit { pos, hit_method, tx }
    }

    /// A selection query.
    pub fn selection(
        action: Option<QuerySelectionAction>,
        op: QuerySelectionOp,
        immediate: bool,
        brush_radius: u32,
        pos: P,
    ) -> (r: Self)
        ensures
            r == (Query::<P, V>::Selection { action, op, immediate, brush_radius, pos }),
    {
        Query::Selection { action, op, immediate, brush_radius, pos }
    }
}

/// The pending interaction that decides which query a frame builds.
#[verifier::reject_recursive_types(V)]
pub enum Action<V> {
    /// Waiting for a click that locates one end of a measurement.
    MeasurementLocateHit {
        hit_pair_index: usize,
        /// 0 or 1: which end of the pair.
        hit_index: usize,
        tx: std::sync::mpsc::Sender<V>,
        rx: std::sync::mpsc::Receiver<V>,
    },
    /// Selecting.
    Selection,
}

/// The operation after a frame. It changes only on a frame whose modifiers differ from those
/// of the frame before: pressing shift asks for `Add`, pressing command for `Remove`, and
/// letting go of either goes back to `Replace`. On any other frame the operation is left as
/// it is, so a choice made elsewhere is not overwritten while a key stays held.
pub open spec fn next_operation(op: QuerySelectionOp, prev: Modifiers, cur: Modifiers) -> QuerySelectionOp {
    if cur == prev {
        op
    } else if cur.shift_only {
        QuerySelectionOp::Add
    } else if cur.command_only {
        QuerySelectionOp::Remove
    } else if prev.shift_only || prev.command_only {
        QuerySelectionOp::Replace
    } else {
        op
    }
}

/// The brush radius moved by a scroll step, kept within its bounds.
pub open spec fn next_brush_radius(radius: u32, step: i32) -> u32 {
    let r = radius as int + step as int;
    if r < MIN_BRUSH_RADIUS as int {
        MIN_BRUSH_RADIUS
    } else if r > MAX_BRUSH_RADIUS as int {
        MAX_BRUSH_RADIUS
    } else {
        r as u32
    }
}

pub open spec fn tool_of(method: SelectionMethod) -> QueryToolsetTool {
    match method {
        SelectionMethod::Rect => QueryToolsetTool::Rect,
        SelectionMethod::Brush => QueryToolsetTool::Brush,
    }
}

/// Whether the query of the frame before was drawing a selection.
pub open spec fn drawing<P, V>(q: Query<P, V>) -> bool {
    q matches Query::Selection { action: Some(a), .. } && (a matches QuerySelectionAction::Start(_)
        || a == QuerySelectionAction::Continue)
}

/// The selection tool's action: `End` on release, nothing while the pointer is up, `Start`
/// when it goes down, and `Continue` while it is held after that.
pub open spec fn next_selection_action<P, V>(
    prev: Query<P, V>,
    method: SelectionMethod,
    primary_down: bool,
    primary_released: bool,
) -> Option<QuerySelectionAction> {
    if primary_released {
        Some(QuerySelectionAction::End)
    } else if !primary_down {
        None
    } else if drawing(prev) {
        Some(QuerySelectionAction::Continue)
    } else {
        Some(QuerySelectionAction::Start(tool_of(method)))
    }
}

/// The selection settings after a frame of selecting with the pointer inside the viewport.
pub open spec fn next_selection(sel: Selection, prev: Modifiers, input_modifiers: Modifiers, scroll_step: i32) -> Selection {
    Selection {
        brush_radius: if sel.method == SelectionMethod::Brush {
            next_brush_radius(sel.brush_radius, scroll_step)
        } else {
            sel.brush_radius
        },
        operation: next_operation(sel.operation, prev, input_modifiers),
        ..sel
    }
}

/// A located measurement end, to be stored by the caller.
pub struct LocatedHit<V> {
    pub hit_pair_index: usize,
    pub hit_index: usize,
    pub pos: V,
}

/// The per-frame input state of the scene.
#[derive(Clone, Copy, PartialEq, Eq, Structural, Debug)]
pub struct SceneInput {
    pub focused: bool,
    /// The modifiers of the frame before.
    pub prev_modifiers: Modifiers,
}

fn brush_radius_after(radius: u32, step: i32) -> (r: u32)
    ensures
        r == next_brush_radius(radius, step),
{
    let r: i64 = radius as i64 + step as i64;
    if r < MIN_BRUSH_RADIUS as i64 {
        MIN_BRUSH_RADIUS
    } else if r > MAX_BRUSH_RADIUS as i64 {
        MAX_BRUSH_RADIUS
    } else {
        r as u32
    }
}

fn operation_after(op: QuerySelectionOp, prev: Modifiers, cur: Modifiers) -> (r: QuerySelectionOp)
    ensures
        r == next_operation(op, prev, cur),
{
    if cur.shift_only == prev.shift_only && cur.command_only == prev.command_only {
        op
    } else if cur.shift_only {
        QuerySelectionOp::Add
    } else if cur.command_only {
        QuerySelectionOp::Remove
    } else if prev.shift_only || prev.command_only {
        QuerySelectionOp::Replace
    } else {
        op
    }
}

impl SceneInput {
    /// Not focused, no modifier seen yet.
    pub fn new() -> (r: Self)
        ensures
            r == (SceneInput { focused: false, prev_modifiers: Modifiers { shift_only: false, command_only: false } }),
    {
        SceneInput { focused: false, prev_modifiers: Modifiers { shift_only: false, command_only: false } }
    }

    /// Builds the query of this frame from the pending action, the input and the query of
    /// the frame before, updates the selection settings, and remembers the modifiers.
    pub fn handle_action<P, V>(
        &mut self,
        action: &Option<Action<V>>,
        selection: &mut Selection,
        hit_method: MeasurementHitMethod,
        query: &mut Query<P, V>,
        input: FrameInput<P>,
    )
        ensures
            final(self).prev_modifiers == input.modifiers,
            final(self).focused == old(self).focused,
            match *action {
                None => *final(query) is Idle && *final(selection) == *old(selection),
                Some(Action::MeasurementLocateHit { .. }) => *final(selection) == *old(selection) && match input.click {
                    Some(p) => *final(query) matches Query::MeasurementLocateHit { pos, hit_method: m, .. } && pos == p
                        && m == hit_method,
                    None => *final(query) is Idle,
                },
                Some(Action::Selection) => match input.hover {
                    None => *final(query) is Idle && *final(selection) == *old(selection),
                    Some(p) => {
                        let sel = next_selection(*old(selection), old(self).prev_modifiers, input.modifiers, input.scroll_step);
                        &&& *final(selection) == sel
                        &&& *final(query) == (Query::<P, V>::Selection {
                            action: next_selection_action(*old(query), old(selection).method, input.primary_down, input.primary_released),
                            op: sel.operation,
                            immediate: sel.immediate,
                            brush_radius: sel.brush_radius,
                            pos: p,
                        })
                    },
                },
            },
    {
        let prev = self.prev_modifiers;
        self.prev_modifiers = input.modifiers;
        match action {
            None => {
                *query = Query::none();
            },
            Some(Action::MeasurementLocateHit { tx, .. }) => {
                match input.click {
                    Some(p) => {
                        *query = Query::measurement_locate_hit(p, hit_method, mpsc_sender_clone(tx));
                    },
                    None => {
                        *query = Query::none();
                    },
                }
            },
            Some(Action::Selection) => {
                match input.hover {
                    None => {
                        *query = Query::none();
                    },
                    Some(p) => {
                        if selection.method == SelectionMethod::Brush {
                            selection.brush_radius = brush_radius_after(selection.brush_radius, input.scroll_step);
                        }
                        selection.operation = operation_after(selection.operation, prev, input.modifiers);
                        let tool = match selection.method {
                            SelectionMethod::Rect => QueryToolsetTool::Rect,
                            SelectionMethod::Brush => QueryToolsetTool::Brush,
                        };
                        let was_drawing = match query {
                            Query::Selection { action: Some(QuerySelectionAction::Start(_)), .. } => true,
                            Query::Selection { action: Some(QuerySelectionAction::Continue), .. } => true,
                            _ => false,
                        };
                        let next_action = if input.primary_released {
                            Some(QuerySelectionAction::End)
                        } else if !input.primary_down {
                            None
                        } else if was_drawing {
                            Some(QuerySelectionAction::Continue)
                        } else {
                            Some(QuerySelectionAction::Start(tool))
                        };
                        *query = Query::selection(
                            next_action,
                            selection.operation,
                            selection.immediate,
                            selection.brush_radius,
                            p,
                        );
                    },
                }
            },
        }
    }
}


/// A frame's step of a pending locate-hit action that `received` came back for (`None`:
/// nothing came): the action ends, and `r` names the measurement end and the position.
pub open spec fn located_hit_step<V>(
    before: Option<Action<V>>,
    after: Option<Action<V>>,
    received: Option<V>,
    r: Option<LocatedHit<V>>,
) -> bool {
    match (before, received) {
        (Some(Action::MeasurementLocateHit { hit_pair_index, hit_index, .. }), Some(v)) => after is None && r == Some(
            LocatedHit { hit_pair_index, hit_index, pos: v },
        ),
        _ => after == before && r is None,
    }
}

/// Takes in the position that came back for a pending locate-hit action (`received`, or
/// `None` when nothing came): the action is then over, and the caller stores the position
/// at the returned measurement end.
pub fn accept_located_hit<V>(action: &mut Option<Action<V>>, received: Option<V>) -> (r: Option<LocatedHit<V>>)
    ensures
        located_hit_step(*old(action), *final(action), received, r),
{
    let (hit_pair_index, hit_index) = match action {
        Some(Action::MeasurementLocateHit { hit_pair_index, hit_index, .. }) => (*hit_pair_index, *hit_index),
        _ => return None,
    };
    match received {
        Some(v) => {
            *action = None;
            Some(LocatedHit { hit_pair_index, hit_index, pos: v })
        },
        None => None,
    }
}

/// Polls a pending locate-hit action for its position, without blocking.
pub fn receive_located_hit<V>(action: &mut Option<Action<V>>) -> (r: Option<LocatedHit<V>>)
    ensures
        exists|received: Option<V>| #[trigger] located_hit_step(*old(action), *final(action), received, r),
{
    let received = match action {
        Some(Action::MeasurementLocateHit { rx, .. }) => mpsc_try_recv(rx),
        _ => None,
    };
    accept_located_hit(action, received)
}

/// The retrieval of a query's result from the GPU, which spans frames.
pub enum QueryResult {
    /// The result is being read back; the receiver hears when that is done.
    Downloading(oneshot::Receiver<()>),
    /// A locate-hit query was dispatched; its result is to be read back.
    MeasurementLocateHit,
}

/// A read-back of a locate-hit result for the caller to run: pick the sample at `pos` by
/// `hit_method`, send its position on `tx`, then signal `done`.
#[verifier::reject_recursive_types(V)]
pub struct LocateHitJob<P, V> {
    pub pos: P,
    pub hit_method: MeasurementHitMethod,
    pub tx: std::sync::mpsc::Sender<V>,
    pub done: oneshot::Sender<()>,
}

/// Before a frame's query is dispatched: no query goes out while a result is still being
/// retrieved (returns `false`); a dispatched locate-hit query is remembered for read-back.
pub fn begin_query<P, V>(query_result: &mut Option<QueryResult>, query: &Query<P, V>) -> (r: bool)
    ensures
        r == (*old(query_result) is None),
        *old(query_result) is None && *query is MeasurementLocateHit ==> *final(query_result) == Some(
            QueryResult::MeasurementLocateHit,
        ),
        !(*old(query_result) is None && *query is MeasurementLocateHit) ==> *final(query_result) == *old(query_result),
{
    if query_result.is_some() {
        return false;
    }
    if let Query::MeasurementLocateHit { .. } = query {
        *query_result = Some(QueryResult::MeasurementLocateHit);
    }
    true
}

/// After a frame: a dispatched locate-hit query becomes a read-back job for the caller (its
/// `tx` is another sender into the query's channel), and a finished read-back clears the
/// way for the next query.
pub fn finish_query<P: Copy, V>(query_result: &mut Option<QueryResult>, query: &Query<P, V>) -> (r: Option<LocateHitJob<P, V>>)
    ensures
        match *old(query_result) {
            Some(QueryResult::MeasurementLocateHit) => match *query {
                Query::MeasurementLocateHit { pos, hit_method, .. } => (r matches Some(job) && job.pos == pos
                    && job.hit_method == hit_method) && *final(query_result) matches Some(QueryResult::Downloading(_)),
                _ => r is None && *final(query_result) is None,
            },
            Some(QueryResult::Downloading(_)) => r is None && (*final(query_result) is None || *final(query_result)
                == *old(query_result)),
            None => r is None && *final(query_result) is None,
        },
{
    if let Some(QueryResult::MeasurementLocateHit) = query_result {
        match query {
            Query::MeasurementLocateHit { pos, hit_method, tx } => {
                let (done, done_rx) = oneshot_channel();
                *query_result = Some(QueryResult::Downloading(done_rx));
                return Some(LocateHitJob { pos: *pos, hit_method: *hit_method, tx: mpsc_sender_clone(tx), done });
            },
            _ => {
                *query_result = None;
                return None;
            },
        }
    }
    let finished = match query_result {
        Some(QueryResult::Downloading(rx)) => oneshot_try_recv(rx).is_some(),
        _ => false,
    };
    if finished {
        *query_result = None;
    }
    None
}

/// The operation changes only on a frame whose modifiers differ from those of the frame
/// before: with the same modifiers on two frames in a row it stays whatever it is.
pub proof fn lemma_operation_changes_on_modifier_edges(op: QuerySelectionOp, prev: Modifiers, cur: Modifiers)
    ensures
        prev == cur ==> next_operation(op, prev, cur) == op,
        next_operation(op, prev, cur) != op ==> prev != cur,
{
}

} // verus!
