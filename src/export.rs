//! The export pipeline: which models go out, the downloads it waits for, the save
//! destination, and the archive it writes.
use crate::archive::{archive_entries, archive_open, entry_names, finish_archive, zip_bytes_of, io_error_text, new_archive, start_entry, write_entry_data, zip_error_text, Archive};
use crate::channel::{oneshot_channel, oneshot_try_recv};
use crate::deferred::{download_advanced, ExportDownloadReceiver};
use crate::mask::chars_of;
use vstd::prelude::*;
use vstd::string::*;
use vstd::utf8::encode_utf8;

verus! {

/// What to do with one model on export.
#[derive(Clone, Copy, PartialEq, Eq, Structural, Debug)]
pub struct ExportSettings {
    /// Export the model or not.
    pub export: bool,
    /// Bake the per-point edits in or not.
    pub edit: bool,
    /// Drop the masked-out points or not.
    pub mask: bool,
}

pub open spec fn default_export_settings() -> ExportSettings {
    ExportSettings { export: true, edit: true, mask: true }
}

impl ExportSettings {
    /// Everything on: export, with edits and mask applied.
    pub fn new() -> (r: Self)
        ensures
            r == default_export_settings(),
    {
        ExportSettings { export: true, edit: true, mask: true }
    }
}

impl Default for ExportSettings {
    fn default() -> (r: Self)
        ensures
            r == default_export_settings(),
    {
        Self::new()
    }
}

/// A column of the settings table, which can be switched for all models at once.
#[derive(Clone, Copy, PartialEq, Eq, Structural, Debug)]
pub enum ExportColumn {
    Export,
    Edit,
    Mask,
}

pub open spec fn column_value(s: ExportSettings, c: ExportColumn) -> bool {
    match c {
        ExportColumn::Export => s.export,
        ExportColumn::Edit => s.edit,
        ExportColumn::Mask => s.mask,
    }
}

pub open spec fn with_column(s: ExportSettings, c: ExportColumn, value: bool) -> ExportSettings {
    match c {
        ExportColumn::Export => ExportSettings { export: value, ..s },
        ExportColumn::Edit => ExportSettings { edit: value, ..s },
        ExportColumn::Mask => ExportSettings { mask: value, ..s },
    }
}

/// One model that goes out, with the flags that decide how it is written.
#[derive(Clone, Copy, PartialEq, Eq, Structural, Debug)]
pub struct ExportItem {
    /// Position of the model in the ordered model list.
    pub index: usize,
    pub edit: bool,
    pub mask: bool,
}

/// The models whose `export` flag is set, in order, each with its own flags.
pub open spec fn export_plan(settings: Seq<ExportSettings>) -> Seq<ExportItem>
    decreases settings.len(),
{
    if settings.len() == 0 {
        seq![]
    } else {
        let n = settings.len() - 1;
        let rest = export_plan(settings.take(n));
        let s = settings[n];
        if s.export {
            rest.push(ExportItem { index: n as usize, edit: s.edit, mask: s.mask })
        } else {
            rest
        }
    }
}

/// The export plan of `settings`.
pub fn export_plan_of(settings: &Vec<ExportSettings>) -> (r: Vec<ExportItem>)
    ensures
        r@ == export_plan(settings@),
{
    let mut out: Vec<ExportItem> = Vec::new();
    let mut i: usize = 0;
    while i < settings.len()
        invariant
            i <= settings.len(),
            out@ == export_plan(settings@.take(i as int)),
        decreases settings.len() - i,
    {
        let s = settings[i];
        proof {
            assert(settings@.take(i + 1).take(i as int) =~= settings@.take(i as int));
        }
        if s.export {
            out.push(ExportItem { index: i, edit: s.edit, mask: s.mask });
        }
        i = i + 1;
    }
    proof {
        assert(settings@.take(settings@.len() as int) =~= settings@);
    }
    out
}

/// The models that an export writes. With one model loaded, that model is written (with its
/// own flags) whatever its `export` flag; otherwise the models whose flag is set.
pub open spec fn export_selection(settings: Seq<ExportSettings>) -> Seq<ExportItem> {
    if settings.len() == 1 {
        seq![ExportItem { index: 0, edit: settings[0].edit, mask: settings[0].mask }]
    } else {
        export_plan(settings)
    }
}

/// The models that an export with `settings` writes.
pub fn export_selection_of(settings: &Vec<ExportSettings>) -> (r: Vec<ExportItem>)
    ensures
        r@ == export_selection(settings@),
{
    if settings.len() == 1 {
        let r = vec![ExportItem { index: 0, edit: settings[0].edit, mask: settings[0].mask }];
        proof {
            assert(r@ =~= export_selection(settings@));
        }
        r
    } else {
        export_plan_of(settings)
    }
}

/// The entries that an archive of `plan` holds: each planned model's name with its bytes.
pub open spec fn planned_entries(
    plan: Seq<ExportItem>,
    names: Seq<String>,
    payloads: Seq<Result<Vec<u8>, String>>,
) -> Seq<(Seq<char>, Seq<u8>)> {
    Seq::new(plan.len(), |k: int| (names[plan[k].index as int]@, payloads[k]->Ok_0@))
}

pub open spec fn all_serialized(payloads: Seq<Result<Vec<u8>, String>>) -> bool {
    forall|k: int| 0 <= k < payloads.len() ==> (#[trigger] payloads[k]) is Ok
}

/// The index of the first failed payload from `k` on.
pub open spec fn first_failure(payloads: Seq<Result<Vec<u8>, String>>, k: int) -> Option<int>
    decreases payloads.len() - k,
{
    if k < 0 || k >= payloads.len() {
        None
    } else if payloads[k] is Err {
        Some(k)
    } else {
        first_failure(payloads, k + 1)
    }
}

/// The entry names of an archive of `plan`.
pub open spec fn planned_names(plan: Seq<ExportItem>, names: Seq<String>) -> Seq<Seq<char>> {
    Seq::new(plan.len(), |k: int| names[plan[k].index as int]@)
}

/// Whether every entry name fits the 65535 bytes that a zip entry name may take.
pub open spec fn names_fit(n: Seq<Seq<char>>) -> bool {
    forall|k: int| 0 <= k < n.len() ==> encode_utf8(#[trigger] n[k]).len() <= 0xFFFF
}

/// When an archive of `plan` can be written: every name fits and no two are the same.
pub open spec fn archivable(plan: Seq<ExportItem>, names: Seq<String>) -> bool {
    names_fit(planned_names(plan, names)) && planned_names(plan, names).no_duplicates()
}

proof fn lemma_first_failure(payloads: Seq<Result<Vec<u8>, String>>, k: int)
    requires
        0 <= k <= payloads.len(),
        forall|j: int| 0 <= j < k ==> (#[trigger] payloads[j]) is Ok,
    ensures
        first_failure(payloads, 0) == first_failure(payloads, k),
        first_failure(payloads, k) is None <==> forall|j: int| k <= j < payloads.len() ==> (#[trigger] payloads[j]) is Ok,
        first_failure(payloads, k) matches Some(f) ==> k <= f < payloads.len() && payloads[f] is Err,
    decreases k,
{
    lemma_first_failure_from(payloads, k);
    if k > 0 {
        lemma_first_failure(payloads, k - 1);
    }
}

proof fn lemma_first_failure_from(payloads: Seq<Result<Vec<u8>, String>>, k: int)
    requires
        0 <= k <= payloads.len(),
    ensures
        first_failure(payloads, k) is None <==> forall|j: int| k <= j < payloads.len() ==> (#[trigger] payloads[j]) is Ok,
        first_failure(payloads, k) matches Some(f) ==> k <= f < payloads.len() && payloads[f] is Err,
    decreases payloads.len() - k,
{
    if k < payloads.len() {
        lemma_first_failure_from(payloads, k + 1);
    }
}

/// Writes one archive entry per planned model; `payloads[k]` is the serialized model of
/// `plan[k]`. A failed payload ends the work before anything is written, with the error of
/// the first one; otherwise the archive is written exactly when every name fits and no two
/// are the same.
pub fn build_archive(
    plan: &Vec<ExportItem>,
    names: &Vec<String>,
    payloads: &Vec<Result<Vec<u8>, String>>,
) -> (r: Result<Archive, String>)
    requires
        payloads@.len() == plan@.len(),
        forall|k: int| 0 <= k < plan@.len() ==> (#[trigger] plan@[k]).index < names@.len(),
    ensures
        match first_failure(payloads@, 0) {
            Some(k) => r == Err::<Archive, String>(payloads@[k]->Err_0),
            None => (r is Ok <==> archivable(plan@, names@)),
        },
        r matches Ok(a) ==> archive_entries(a) == planned_entries(plan@, names@, payloads@),
{
    let mut j: usize = 0;
    while j < payloads.len()
        invariant
            j <= payloads@.len(),
            forall|i: int| 0 <= i < j ==> (#[trigger] payloads@[i]) is Ok,
        decreases payloads.len() - j,
    {
        if let Err(e) = &payloads[j] {
            proof {
                lemma_first_failure(payloads@, j as int);
            }
            return Err(e.clone());
        }
        j = j + 1;
    }
    proof {
        lemma_first_failure(payloads@, j as int);
    }
    let ghost pn = planned_names(plan@, names@);
    let mut archive = new_archive();
    let mut k: usize = 0;
    while k < plan.len()
        invariant
            k <= plan@.len(),
            payloads@.len() == plan@.len(),
            forall|i: int| 0 <= i < plan@.len() ==> (#[trigger] plan@[i]).index < names@.len(),
            all_serialized(payloads@),
            first_failure(payloads@, 0) is None,
            pn == planned_names(plan@, names@),
            archive_entries(archive) == planned_entries(plan@, names@, payloads@).take(k as int),
            entry_names(archive_entries(archive)) == pn.take(k as int),
            pn.take(k as int).no_duplicates(),
            names_fit(pn.take(k as int)),
            k > 0 ==> archive_open(archive),
        decreases plan.len() - k,
    {
        let data = match &payloads[k] {
            Ok(d) => d,
            Err(e) => return Err(e.clone()),
        };
        let name = &names[plan[k].index];
        let name_bytes = name.as_str().as_bytes();
        if name_bytes.len() > 0xFFFF {
            proof {
                assert(pn[k as int] == name@);
                assert(encode_utf8(pn[k as int]).len() > 0xFFFF);
                assert(!names_fit(pn));
            }
            return Err(String::from_str("entry name too long"));
        }
        let ghost before = archive_entries(archive);
        match start_entry(&mut archive, name) {
            Ok(()) => {},
            Err(e) => {
                proof {
                    let i = choose|i: int| 0 <= i < pn.take(k as int).len() && pn.take(k as int)[i] == name@;
                    assert(pn[i] == pn[k as int]);
                    assert(!pn.no_duplicates());
                }
                return Err(zip_error_text(&e));
            },
        }
        match write_entry_data(&mut archive, data) {
            Ok(()) => {},
            Err(e) => return Err(io_error_text(&e)),
        }
        proof {
            assert(Seq::<u8>::empty() + data@ =~= data@);
            assert(archive_entries(archive) =~= planned_entries(plan@, names@, payloads@).take(k + 1));
            assert(entry_names(archive_entries(archive)) =~= pn.take(k + 1));
            assert(pn.take(k + 1) =~= pn.take(k as int).push(name@));
            let t = pn.take(k + 1);
            let u = pn.take(k as int);
            assert forall|a: int, b: int| 0 <= a < t.len() && 0 <= b < t.len() && a != b implies #[trigger] t[a] != #[trigger] t[b] by {
                if b == k {
                    assert(u[a] == t[a]);
                    assert(u.contains(u[a]));
                } else if a == k {
                    assert(u[b] == t[b]);
                    assert(u.contains(u[b]));
                } else {
                    assert(u[a] != u[b]);
                }
            }
            assert(t.no_duplicates());
            assert(names_fit(pn.take(k + 1)));
        }
        k = k + 1;
    }
    proof {
        assert(planned_entries(plan@, names@, payloads@).take(k as int) =~= planned_entries(plan@, names@, payloads@));
        assert(pn.take(k as int) =~= pn);
    }
    Ok(archive)
}

/// The name of the file that a lone exported model is saved as: its own name, with `.ply`
/// added unless the name already ends so (compared in lower case).
pub open spec fn single_file_name(name: Seq<char>, lowered: Seq<char>) -> Seq<char> {
    if ends_with_ply(lowered) {
        name
    } else {
        name + seq!['.', 'p', 'l', 'y']
    }
}

pub open spec fn ends_with_ply(s: Seq<char>) -> bool {
    s.len() >= 4 && s.subrange(s.len() - 4, s.len() as int) == seq!['.', 'p', 'l', 'y']
}

/// The name of the archive that several exported models go into.
pub open spec fn archive_file_name() -> Seq<char> {
    seq!['m', 'o', 'd', 'e', 'l', 's', '.', 'z', 'i', 'p']
}

/// What `str::to_lowercase` makes of a text.
pub uninterp spec fn lowercase_of(s: Seq<char>) -> Seq<char>;

/// Relies on `str::to_lowercase`: the lower-case form, which depends on the text alone.
#[verifier::external_body]
fn to_lowercase(s: &str) -> (r: String)
    ensures
        r@ == lowercase_of(s@),
{
    s.to_lowercase()
}

/// The file name for a lone model named `name`, given `lowered`, its lower-case form.
pub fn single_file_name_from(name: &String, lowered: &String) -> (r: String)
    ensures
        r@ == single_file_name(name@, lowered@),
{
    let l = chars_of(lowered.as_str());
    let n = l.len();
    let ends = n >= 4 && l[n - 4] == '.' && l[n - 3] == 'p' && l[n - 2] == 'l' && l[n - 1] == 'y';
    proof {
        reveal_strlit(".ply");
        if n >= 4 {
            assert(ends == (l@.subrange(n - 4, n as int) =~= seq!['.', 'p', 'l', 'y']));
        }
    }
    if ends {
        name.clone()
    } else {
        name.clone().concat(".ply")
    }
}

/// The suggested file name for saving an export of `plan`: the model's own file for a lone
/// model, else an archive.
pub fn export_file_name(plan: &Vec<ExportItem>, names: &Vec<String>) -> (r: String)
    requires
        forall|k: int| 0 <= k < plan@.len() ==> (#[trigger] plan@[k]).index < names@.len(),
    ensures
        plan@.len() == 1 ==> r@ == single_file_name(names@[plan@[0].index as int]@, lowercase_of(names@[plan@[0].index as int]@)),
        plan@.len() != 1 ==> r@ == archive_file_name(),
{
    if plan.len() == 1 {
        let name = &names[plan[0].index];
        let lowered = to_lowercase(name.as_str());
        single_file_name_from(name, &lowered)
    } else {
        proof {
            reveal_strlit("models.zip");
        }
        let r = String::from_str("models.zip");
        proof {
            assert(r@ =~= archive_file_name());
        }
        r
    }
}

/// Serializes an export of `plan`: a lone model is written as its own bytes, several (or
/// none) go into one archive with an entry per model. `payloads[k]` is the serialized model
/// of `plan[k]`; a failed one fails the whole export with its error, and nothing is written.
pub fn export_models(
    plan: &Vec<ExportItem>,
    names: &Vec<String>,
    payloads: Vec<Result<Vec<u8>, String>>,
) -> (r: Result<Vec<u8>, String>)
    requires
        payloads@.len() == plan@.len(),
        forall|k: int| 0 <= k < plan@.len() ==> (#[trigger] plan@[k]).index < names@.len(),
    ensures
        plan@.len() == 1 ==> r == payloads@[0],
        plan@.len() != 1 ==> match first_failure(payloads@, 0) {
            Some(k) => r == Err::<Vec<u8>, String>(payloads@[k]->Err_0),
            None => (r is Ok <==> archivable(plan@, names@)) && (r matches Ok(b) ==> b@ == zip_bytes_of(
                planned_entries(plan@, names@, payloads@),
            )),
        },
{
    if plan.len() == 1 {
        let mut payloads = payloads;
        return payloads.remove(0);
    }
    let archive = build_archive(plan, names, &payloads)?;
    match finish_archive(archive) {
        Ok(bytes) => Ok(bytes),
        Err(e) => Err(zip_error_text(&e)),
    }
}


/// Where a confirmed export stands. Both stages keep the settings as they were when the
/// export was confirmed.
#[verifier::reject_recursive_types(E)]
#[verifier::reject_recursive_types(F)]
#[allow(inconsistent_fields)]
pub enum ExportStage<E, F> {
    /// Waiting for the edit and the mask downloads, one buffer per model each.
    Downloads {
        settings: Vec<ExportSettings>,
        edits: ExportDownloadReceiver<Vec<E>>,
        masks: ExportDownloadReceiver<Vec<u32>>,
    },
    /// Both downloads are in; waiting for the save destination.
    Save {
        settings: Vec<ExportSettings>,
        rx: oneshot::Receiver<Option<F>>,
        edits: Vec<Vec<E>>,
        masks: Vec<Vec<u32>>,
    },
}

/// Everything needed to write an export once its destination is known.
pub struct ExportReady<E, F> {
    /// The destination.
    pub file: F,
    /// The settings as confirmed.
    pub settings: Vec<ExportSettings>,
    pub edits: Vec<Vec<E>>,
    pub masks: Vec<Vec<u32>>,
}

/// The export dialog: per-model settings, and the pipeline once confirmed.
#[verifier::reject_recursive_types(E)]
#[verifier::reject_recursive_types(F)]
pub struct ExportModal<E, F> {
    pub settings: Vec<ExportSettings>,
    pub stage: Option<ExportStage<E, F>>,
}

/// One poll of the download stage: each download takes in what came off its channel
/// (`edits_in`, `masks_in`); the stage moves on to waiting for a destination exactly when
/// both have arrived, and carries the confirmed settings and the downloaded data along.
pub open spec fn downloads_polled<E, F>(
    before: ExportStage<E, F>,
    after: ExportStage<E, F>,
    edits_in: Option<Vec<Vec<E>>>,
    masks_in: Option<Vec<Vec<u32>>>,
) -> bool {
    match before {
        ExportStage::Downloads { settings, edits, masks } => {
            let e = download_advanced(edits, edits_in);
            let m = download_advanced(masks, masks_in);
            match (e, m) {
                (ExportDownloadReceiver::Downloaded(ev), ExportDownloadReceiver::Downloaded(mv)) => after matches ExportStage::Save {
                    settings: s2,
                    edits: ev2,
                    masks: mv2,
                    ..
                } && s2@ == settings@ && ev2 == ev && mv2 == mv,
                _ => after == ExportStage::<E, F>::Downloads { settings, edits: e, masks: m },
            }
        },
        ExportStage::Save { .. } => after == before,
    }
}

impl<E, F> ExportModal<E, F> {
    /// A dialog for `count` models, all set to be exported with edits and mask applied.
    pub fn new(count: usize) -> (r: Self)
        ensures
            r.settings@ == Seq::new(count as nat, |i: int| default_export_settings()),
            r.stage is None,
    {
        let mut settings: Vec<ExportSettings> = Vec::new();
        let mut i: usize = 0;
        while i < count
            invariant
                i <= count,
                settings@ == Seq::new(i as nat, |j: int| default_export_settings()),
            decreases count - i,
        {
            settings.push(ExportSettings::new());
            i = i + 1;
            proof {
                assert(settings@ =~= Seq::new(i as nat, |j: int| default_export_settings()));
            }
        }
        ExportModal { settings, stage: None }
    }

    /// Whether `column` is on for every model.
    pub fn all(&self, column: ExportColumn) -> (r: bool)
        ensures
            r == forall|i: int| 0 <= i < self.settings@.len() ==> column_value(#[trigger] self.settings@[i], column),
    {
        let mut i: usize = 0;
        while i < self.settings.len()
            invariant
                i <= self.settings@.len(),
                forall|j: int| 0 <= j < i ==> column_value(#[trigger] self.settings@[j], column),
            decreases self.settings.len() - i,
        {
            let s = self.settings[i];
            let v = match column {
                ExportColumn::Export => s.export,
                ExportColumn::Edit => s.edit,
                ExportColumn::Mask => s.mask,
            };
            if !v {
                return false;
            }
            i = i + 1;
        }
        true
    }

    /// Switches `column` to `value` for every model. A confirmed export keeps its own copy
    /// of the settings and is not affected.
    pub fn set_all(&mut self, column: ExportColumn, value: bool)
        ensures
            final(self).settings@ == old(self).settings@.map_values(|s: ExportSettings| with_column(s, column, value)),
            final(self).stage == old(self).stage,
    {
        let ghost start = self.settings@;
        let mut i: usize = 0;
        while i < self.settings.len()
            invariant
                i <= self.settings@.len(),
                self.settings@.len() == start.len(),
                self.stage == old(self).stage,
                start == old(self).settings@,
                forall|j: int| 0 <= j < i ==> self.settings@[j] == with_column(start[j], column, value),
                forall|j: int| i <= j < start.len() ==> self.settings@[j] == start[j],
            decreases self.settings.len() - i,
        {
            let s = self.settings[i];
            let t = match column {
                ExportColumn::Export => ExportSettings { export: value, ..s },
                ExportColumn::Edit => ExportSettings { edit: value, ..s },
                ExportColumn::Mask => ExportSettings { mask: value, ..s },
            };
            self.settings.set(i, t);
            i = i + 1;
        }
        proof {
            assert(self.settings@ =~= start.map_values(|s: ExportSettings| with_column(s, column, value)));
        }
    }

    /// Confirms the export: the settings as they are now are kept for the whole export, and
    /// the two downloads are awaited. Returns the senders that the download work fills.
    pub fn confirm(&mut self) -> (r: (oneshot::Sender<Vec<Vec<E>>>, oneshot::Sender<Vec<Vec<u32>>>))
        ensures
            final(self).settings == old(self).settings,
            final(self).stage matches Some(ExportStage::Downloads { settings, edits, masks })
                && settings@ == old(self).settings@
                && edits is Downloading
                && masks is Downloading,
    {
        let (edits_tx, edits_rx) = oneshot_channel();
        let (masks_tx, masks_rx) = oneshot_channel();
        let mut snapshot: Vec<ExportSettings> = Vec::new();
        let mut i: usize = 0;
        while i < self.settings.len()
            invariant
                i <= self.settings@.len(),
                snapshot@ == self.settings@.take(i as int),
            decreases self.settings.len() - i,
        {
            snapshot.push(self.settings[i]);
            i = i + 1;
            proof {
                assert(snapshot@ =~= self.settings@.take(i as int));
            }
        }
        proof {
            assert(snapshot@ =~= self.settings@);
        }
        self.stage = Some(
            ExportStage::Downloads {
                settings: snapshot,
                edits: ExportDownloadReceiver::new(edits_rx),
                masks: ExportDownloadReceiver::new(masks_rx),
            },
        );
        (edits_tx, masks_tx)
    }

    /// Takes in what came off the two download channels this frame (`None`: nothing came).
    /// When both downloads are then in, the export moves on to waiting for its destination
    /// and the sender for that destination is returned.
    pub fn advance_downloads(
        &mut self,
        edits_in: Option<Vec<Vec<E>>>,
        masks_in: Option<Vec<Vec<u32>>>,
    ) -> (r: Option<oneshot::Sender<Option<F>>>)
        ensures
            final(self).settings == old(self).settings,
            match old(self).stage {
                Some(before) => final(self).stage matches Some(after) && downloads_polled(before, after, edits_in, masks_in),
                None => final(self).stage is None,
            },
            r is Some <==> (old(self).stage matches Some(ExportStage::Downloads { .. })
                && final(self).stage matches Some(ExportStage::Save { .. })),
    {
        let mut stage: Option<ExportStage<E, F>> = None;
        std::mem::swap(&mut self.stage, &mut stage);
        match stage {
            Some(ExportStage::Downloads { settings, edits, masks }) => {
                let mut edits = edits;
                let mut masks = masks;
                edits.advance_with(edits_in);
                masks.advance_with(masks_in);
                match (edits, masks) {
                    (ExportDownloadReceiver::Downloaded(ev), ExportDownloadReceiver::Downloaded(mv)) => {
                        let (tx, rx) = oneshot_channel();
                        self.stage = Some(ExportStage::Save { settings, rx, edits: ev, masks: mv });
                        Some(tx)
                    },
                    (edits, masks) => {
                        self.stage = Some(ExportStage::Downloads { settings, edits, masks });
                        None
                    },
                }
            },
            other => {
                self.stage = other;
                None
            },
        }
    }

    /// Polls both downloads once and takes in what came (see `advance_downloads`).
    pub fn poll_downloads(&mut self) -> (r: Option<oneshot::Sender<Option<F>>>)
        ensures
            final(self).settings == old(self).settings,
            match old(self).stage {
                Some(before) => final(self).stage matches Some(after) && exists|ei: Option<Vec<Vec<E>>>, mi: Option<Vec<Vec<u32>>>|
                    downloads_polled(before, after, ei, mi),
                None => final(self).stage is None,
            },
            r is Some <==> (old(self).stage matches Some(ExportStage::Downloads { .. })
                && final(self).stage matches Some(ExportStage::Save { .. })),
    {
        let (edits_in, masks_in) = match &self.stage {
            Some(ExportStage::Downloads { edits, masks, .. }) => (edits.poll(), masks.poll()),
            _ => (None, None),
        };
        self.advance_downloads(edits_in, masks_in)
    }

    /// Takes in what came off the destination channel this frame (`None`: nothing came;
    /// `Some(None)`: the choice was dismissed, which is ignored). When a destination came
    /// while waiting for one, the export is done here and everything needed to write it is
    /// returned.
    pub fn accept_save(&mut self, received: Option<Option<F>>) -> (r: Option<ExportReady<E, F>>)
        ensures
            final(self).settings == old(self).settings,
            r is Some <==> (old(self).stage matches Some(ExportStage::Save { .. }) && received matches Some(Some(_))),
            match r {
                Some(ready) => final(self).stage is None && ready.file == received->Some_0->Some_0 && (old(
                    self,
                ).stage matches Some(ExportStage::Save { settings, edits, masks, .. }) && ready.settings@ == settings@
                    && ready.edits == edits && ready.masks == masks),
                None => final(self).stage == old(self).stage,
            },
    {
        let mut stage: Option<ExportStage<E, F>> = None;
        std::mem::swap(&mut self.stage, &mut stage);
        match stage {
            Some(ExportStage::Save { settings, rx, edits, masks }) => {
                match received {
                    Some(Some(file)) => Some(ExportReady { file, settings, edits, masks }),
                    _ => {
                        self.stage = Some(ExportStage::Save { settings, rx, edits, masks });
                        None
                    },
                }
            },
            other => {
                self.stage = other;
                None
            },
        }
    }

    /// Polls the destination channel once and takes in what came (see `accept_save`).
    pub fn poll_save(&mut self) -> (r: Option<ExportReady<E, F>>)
        ensures
            final(self).settings == old(self).settings,
            exists|received: Option<Option<F>>| #[trigger] save_accepted(*old(self), *final(self), received, r),
    {
        let received = match &self.stage {
            Some(ExportStage::Save { rx, .. }) => oneshot_try_recv(rx),
            _ => None,
        };
        let r = self.accept_save(received);
        proof {
            assert(save_accepted(*old(self), *self, received, r));
        }
        r
    }
}

/// One frame of waiting for the destination, in which `received` came off its channel:
/// the result and the dialog afterwards, as `accept_save` gives them.
pub open spec fn save_accepted<E, F>(
    before: ExportModal<E, F>,
    after: ExportModal<E, F>,
    received: Option<Option<F>>,
    r: Option<ExportReady<E, F>>,
) -> bool {
    &&& (r is Some <==> (before.stage matches Some(ExportStage::Save { .. }) && received matches Some(Some(_))))
    &&& match r {
        Some(ready) => after.stage is None && ready.file == received->Some_0->Some_0 && (before.stage matches Some(
            ExportStage::Save { settings, edits, masks, .. },
        ) && ready.settings@ == settings@ && ready.edits == edits && ready.masks == masks),
        None => after.stage == before.stage,
    }
}

/// An export never leaves the download stage on a partial result: when a poll moves it on,
/// both downloads had arrived, and what moves on is exactly what they delivered.
pub proof fn lemma_downloads_join<E, F>(
    settings: Vec<ExportSettings>,
    edits: ExportDownloadReceiver<Vec<E>>,
    masks: ExportDownloadReceiver<Vec<u32>>,
    after: ExportStage<E, F>,
    edits_in: Option<Vec<Vec<E>>>,
    masks_in: Option<Vec<Vec<u32>>>,
)
    requires
        downloads_polled(ExportStage::Downloads { settings, edits, masks }, after, edits_in, masks_in),
        after is Save,
    ensures
        download_advanced(edits, edits_in) is Downloaded,
        download_advanced(masks, masks_in) is Downloaded,
        after->Save_settings@ == settings@,
{
}


/// The names of the models whose `export` flag is set in `settings`, in order.
pub open spec fn exported_names(settings: Seq<ExportSettings>, names: Seq<String>) -> Seq<Seq<char>>
    decreases settings.len(),
{
    if settings.len() == 0 {
        seq![]
    } else {
        let n = settings.len() - 1;
        let rest = exported_names(settings.take(n), names);
        if settings[n].export {
            rest.push(names[n]@)
        } else {
            rest
        }
    }
}

/// The entries of an export archive are named, in order, after exactly the models whose
/// `export` flag was set in the settings the export was confirmed with; those settings are
/// a copy taken at confirmation, which later switches in the dialog do not touch.
pub proof fn lemma_archive_names_follow_confirmed_flags(
    confirmed: Seq<ExportSettings>,
    names: Seq<String>,
    payloads: Seq<Result<Vec<u8>, String>>,
)
    requires
        confirmed.len() <= usize::MAX,
        names.len() == confirmed.len(),
        payloads.len() == export_plan(confirmed).len(),
    ensures
        confirmed.len() != 1 ==> export_selection(confirmed) == export_plan(confirmed),
        planned_entries(export_plan(confirmed), names, payloads).map_values(|e: (Seq<char>, Seq<u8>)| e.0)
            == exported_names(confirmed, names),
{
    lemma_plan_names(confirmed, names);
    assert(planned_entries(export_plan(confirmed), names, payloads).map_values(|e: (Seq<char>, Seq<u8>)| e.0)
        =~= Seq::new(export_plan(confirmed).len(), |k: int| names[export_plan(confirmed)[k].index as int]@));
}

proof fn lemma_plan_names(settings: Seq<ExportSettings>, names: Seq<String>)
    requires
        settings.len() <= usize::MAX,
    ensures
        Seq::new(export_plan(settings).len(), |k: int| names[export_plan(settings)[k].index as int]@)
            == exported_names(settings, names),
    decreases settings.len(),
{
    if settings.len() > 0 {
        let n = settings.len() - 1;
        lemma_plan_names(settings.take(n), names);
        let prev = export_plan(settings.take(n));
        if settings[n].export {
            assert(export_plan(settings) == prev.push(ExportItem { index: n as usize, edit: settings[n].edit, mask: settings[n].mask }));
        } else {
            assert(export_plan(settings) == prev);
        }
        assert(Seq::new(export_plan(settings).len(), |k: int| names[export_plan(settings)[k].index as int]@)
            =~= exported_names(settings, names));
    } else {
        assert(Seq::new(export_plan(settings).len(), |k: int| names[export_plan(settings)[k].index as int]@)
            =~= exported_names(settings, names));
    }
}

} // verus!
