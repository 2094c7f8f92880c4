//! The operations that a host calls on a session: listing and analysing the
//! stored laps, and naming the files it is asked to read or write.

use vstd::prelude::*;
use vstd::std_specs::hash::{axiom_spec_hash_map_iter, spec_hash_map_iter};
use vstd::std_specs::iter::IteratorSpec;
use crate::analysis::corners::{corners_of, per_corner_metrics};
use crate::analysis::delta::{delta_at, rolling_delta_vs_reference, DeltaRow};
use crate::analysis::overlay::{
    extent, is_overlay_row, overlay_speed_vs_distance, row_count, OverlayRow, GRID_STEP,
};
use crate::analysis::summary::{
    all_thirds, is_best_time, is_worst_time, lap_summary, mean_time, std_dev, LapStats,
};
use crate::analysis::track::{build_track_map, is_track_map_of};
use crate::model::{Corner, Lap, LapView, TrackMap};
use crate::session::Inner;

verus! {

broadcast use vstd::std_specs::hash::group_hash_axioms;

/// Why an operation was not carried out.
#[derive(Clone, Copy, Debug, PartialEq, Eq, Structural)]
pub enum OpError {
    /// None of the laps asked for is in the store.
    NoLaps,
    /// The store has no lap under the identifier.
    LapNotFound,
    /// The file to read is neither CSV nor NDJSON.
    UnsupportedExtension,
    /// The kind of file to write is not known.
    UnsupportedExportKind,
    /// There is no catalogue for the game.
    UnknownGame,
}

impl OpError {
    /// The message that the host shows.
    pub fn message(&self) -> (r: &'static str)
        ensures
            r@ == match *self {
                OpError::NoLaps => "no laps to analyze"@,
                OpError::LapNotFound => "Lap not found"@,
                OpError::UnsupportedExtension => "unsupported extension"@,
                OpError::UnsupportedExportKind => "unsupported export kind"@,
                OpError::UnknownGame => "unknown game"@,
            },
    {
        match self {
            OpError::NoLaps => "no laps to analyze",
            OpError::LapNotFound => "Lap not found",
            OpError::UnsupportedExtension => "unsupported extension",
            OpError::UnsupportedExportKind => "unsupported export kind",
            OpError::UnknownGame => "unknown game",
        }
    }
}

/// The two texts are the same.
fn same_text(a: &str, b: &str) -> (r: bool)
    ensures
        r == (a@ == b@),
{
    a.to_owned() == b.to_owned()
}

/// A format that laps can be read from.
#[derive(Clone, Copy, Debug, PartialEq, Eq, Structural)]
pub enum ImportKind {
    Csv,
    Ndjson,
}

/// The format of a file by its extension, which is given in lower case and
/// without the dot.
pub fn import_kind(extension: &str) -> (r: Result<ImportKind, OpError>)
    ensures
        r == if extension@ == "csv"@ {
            Ok::<ImportKind, OpError>(ImportKind::Csv)
        } else if extension@ == "ndjson"@ {
            Ok(ImportKind::Ndjson)
        } else {
            Err(OpError::UnsupportedExtension)
        },
{
    if same_text(extension, "csv") {
        Ok(ImportKind::Csv)
    } else if same_text(extension, "ndjson") {
        Ok(ImportKind::Ndjson)
    } else {
        Err(OpError::UnsupportedExtension)
    }
}

/// A format that laps can be written in.
#[derive(Clone, Copy, Debug, PartialEq, Eq, Structural)]
pub enum ExportKind {
    Csv,
    Ndjson,
    MotecCsv,
}

/// The format that an export is asked for by name.
pub fn export_kind(kind: &str) -> (r: Result<ExportKind, OpError>)
    ensures
        r == if kind@ == "csv"@ {
            Ok::<ExportKind, OpError>(ExportKind::Csv)
        } else if kind@ == "ndjson"@ {
            Ok(ExportKind::Ndjson)
        } else if kind@ == "motec_csv"@ {
            Ok(ExportKind::MotecCsv)
        } else {
            Err(OpError::UnsupportedExportKind)
        },
{
    if same_text(kind, "csv") {
        Ok(ExportKind::Csv)
    } else if same_text(kind, "ndjson") {
        Ok(ExportKind::Ndjson)
    } else if same_text(kind, "motec_csv") {
        Ok(ExportKind::MotecCsv)
    } else {
        Err(OpError::UnsupportedExportKind)
    }
}

/// The name of the file, in the directory `data/cars_tracks`, that holds the
/// catalogue of cars and tracks of a game.
pub fn catalogue_file(game: &str) -> (r: Result<&'static str, OpError>)
    ensures
        match r {
            Ok(name) => {
                ||| game@ == "f1_24"@ && name@ == "f1_24.json"@
                ||| game@ == "f1_25"@ && name@ == "f1_25.json"@
                ||| game@ == "lmu"@ && name@ == "lmu.json"@
                ||| game@ == "gt7"@ && name@ == "gt7.json"@
            },
            Err(e) => e == OpError::UnknownGame && game@ != "f1_24"@ && game@ != "f1_25"@ && game@
                != "lmu"@ && game@ != "gt7"@,
        },
{
    if same_text(game, "f1_24") {
        Ok("f1_24.json")
    } else if same_text(game, "f1_25") {
        Ok("f1_25.json")
    } else if same_text(game, "lmu") {
        Ok("lmu.json")
    } else if same_text(game, "gt7") {
        Ok("gt7.json")
    } else {
        Err(OpError::UnknownGame)
    }
}

/// `names` holds the text `Default`.
pub open spec fn has_default(names: Seq<String>) -> bool {
    exists|i: int| 0 <= i < names.len() && (#[trigger] names[i])@ == "Default"@
}

/// The workspaces to list, given those that were found: the same, and behind
/// them the workspace `Default` if it was not found.
pub fn workspace_names(found: Vec<String>) -> (names: Vec<String>)
    ensures
        has_default(found@) ==> names@ == found@,
        !has_default(found@) ==> names@.len() == found@.len() + 1 && names@.drop_last() == found@
            && names@.last()@ == "Default"@,
{
    let n: usize = found.len();
    let mut i: usize = 0;
    let mut seen: bool = false;
    while i < n && !seen
        invariant
            0 <= i <= n,
            n == found@.len(),
            seen ==> i < n && found@[i as int]@ == "Default"@,
            forall|j: int| 0 <= j < i ==> (#[trigger] found@[j])@ != "Default"@,
        decreases n - i + if seen { 0int } else { 1int },
    {
        if same_text(found[i].as_str(), "Default") {
            seen = true;
        } else {
            i = i + 1;
        }
    }
    let mut names: Vec<String> = found;
    if !seen {
        names.push("Default".to_owned());
        assert(names@.drop_last() =~= found@);
    }
    names
}

/// A stored lap as a list shows it.
#[derive(Clone, Debug, PartialEq, Eq)]
pub struct LapListing {
    pub id: u128,
    pub game: String,
    pub track: String,
    pub car: String,
    pub lap_number: u32,
    pub time_ms: u64,
}

/// The mathematical content of a `LapListing`.
pub struct LapListingView {
    pub id: u128,
    pub game: Seq<char>,
    pub track: Seq<char>,
    pub car: Seq<char>,
    pub lap_number: u32,
    pub time_ms: u64,
}

impl View for LapListing {
    type V = LapListingView;

    open spec fn view(&self) -> LapListingView {
        LapListingView {
            id: self.id,
            game: self.game@,
            track: self.track@,
            car: self.car@,
            lap_number: self.lap_number,
            time_ms: self.time_ms,
        }
    }
}

/// The listing of a lap.
pub open spec fn listing_of(lap: Lap) -> LapListingView {
    LapListingView {
        id: lap.id,
        game: lap.meta.game@,
        track: lap.meta.track@,
        car: lap.meta.car@,
        lap_number: lap.meta.lap_number,
        time_ms: lap.total_time_ms,
    }
}

/// `list` lists the laps of `store`: each stored lap at one place of its own,
/// and nothing else, in ascending order of lap time.
pub open spec fn is_listing(list: Seq<LapListing>, store: Map<u128, Lap>) -> bool {
    &&& list.len() == store.dom().len()
    &&& forall|a: int, b: int|
        0 <= a <= b < list.len() ==> (#[trigger] list[a]).time_ms <= (#[trigger] list[b]).time_ms
    &&& exists|place: Map<u128, int>|
        {
            &&& place.dom() == store.dom()
            &&& forall|k: u128| #[trigger]
                store.contains_key(k) ==> 0 <= place[k] < list.len() && list[place[k]]@
                    == listing_of(store[k])
            &&& forall|k: u128, l: u128|
                store.contains_key(k) && store.contains_key(l) && k != l ==> #[trigger] place[k]
                    != #[trigger] place[l]
        }
}

/// Makes the listing of a lap.
fn listing(lap: &Lap) -> (r: LapListing)
    ensures
        r@ == listing_of(*lap),
{
    LapListing {
        id: lap.id,
        game: lap.meta.game.clone(),
        track: lap.meta.track.clone(),
        car: lap.meta.car.clone(),
        lap_number: lap.meta.lap_number,
        time_ms: lap.total_time_ms,
    }
}

/// The first place in a list in ascending order of lap time where the time is
/// greater than `t`, or the length of the list.
fn place_after(list: &Vec<LapListing>, t: u64) -> (pos: usize)
    requires
        forall|a: int, b: int|
            0 <= a <= b < list@.len() ==> (#[trigger] list@[a]).time_ms <= (
            #[trigger] list@[b]).time_ms,
    ensures
        pos <= list@.len(),
        forall|a: int| 0 <= a < pos ==> (#[trigger] list@[a]).time_ms <= t,
        forall|a: int| pos <= a < list@.len() ==> (#[trigger] list@[a]).time_ms > t,
{
    let n: usize = list.len();
    let mut pos: usize = 0;
    while pos < n && list[pos].time_ms <= t
        invariant
            0 <= pos <= n,
            n == list@.len(),
            forall|a: int| 0 <= a < pos ==> (#[trigger] list@[a]).time_ms <= t,
            forall|a: int, b: int|
                0 <= a <= b < list@.len() ==> (#[trigger] list@[a]).time_ms <= (
                #[trigger] list@[b]).time_ms,
        decreases n - pos,
    {
        pos = pos + 1;
    }
    pos
}

/// The laps that an analysis is asked for: those of the identifiers that the
/// store knows, in the order of the identifiers.
pub open spec fn selection(store: Map<u128, Lap>, ids: Seq<u128>) -> Seq<LapView>
    decreases ids.len(),
{
    if ids.len() == 0 {
        Seq::empty()
    } else {
        let rest = selection(store, ids.drop_last());
        if store.contains_key(ids.last()) {
            rest.push(store[ids.last()]@)
        } else {
            rest
        }
    }
}

/// The views of laps.
pub open spec fn lap_views(laps: Seq<Lap>) -> Seq<LapView> {
    Seq::new(laps.len(), |i: int| laps[i]@)
}

/// `i` is the place of the reference lap: the first of the fastest laps.
pub open spec fn is_reference(laps: Seq<Lap>, i: int) -> bool {
    &&& 0 <= i < laps.len()
    &&& forall|j: int| 0 <= j < laps.len() ==> laps[i].total_time_ms <= (
    #[trigger] laps[j]).total_time_ms
    &&& forall|j: int| 0 <= j < i ==> laps[i].total_time_ms < (#[trigger] laps[j]).total_time_ms
}

/// Finds the reference lap.
pub fn reference_index(laps: &[Lap]) -> (r: usize)
    requires
        laps@.len() > 0,
    ensures
        is_reference(laps@, r as int),
{
    let n: usize = laps.len();
    let mut best: usize = 0;
    let mut i: usize = 1;
    while i < n
        invariant
            1 <= i <= n,
            n == laps@.len(),
            0 <= best < i,
            forall|j: int| 0 <= j < i ==> laps@[best as int].total_time_ms <= (
            #[trigger] laps@[j]).total_time_ms,
            forall|j: int| 0 <= j < best ==> laps@[best as int].total_time_ms < (
            #[trigger] laps@[j]).total_time_ms,
        decreases n - i,
    {
        if laps[i].total_time_ms < laps[best].total_time_ms {
            best = i;
        }
        i = i + 1;
    }
    best
}

/// What an analysis of laps gives.
#[derive(Clone, Debug, PartialEq, Eq)]
pub struct Analysis {
    /// Speed against distance for every lap.
    pub overlay: Vec<OverlayRow>,
    /// The mean gap of the other laps to the reference.
    pub delta_ribbon: Vec<DeltaRow>,
    /// The corners of the reference.
    pub corners: Vec<Corner>,
    /// The lap times in figures.
    pub summary: LapStats,
}

/// `a` is the analysis of `laps` with `laps[r]` for the reference.
pub open spec fn is_analysis_of(a: Analysis, laps: Seq<Lap>, r: int) -> bool {
    &&& a.overlay@.len() == row_count(extent(laps))
    &&& forall|k: int|
        0 <= k < a.overlay@.len() ==> is_overlay_row(#[trigger] a.overlay@[k], laps, k * GRID_STEP)
    &&& a.delta_ribbon@.len() == row_count(laps[r]@.last_distance() as int)
    &&& forall|k: int|
        0 <= k < a.delta_ribbon@.len() ==> #[trigger] a.delta_ribbon@[k] == (DeltaRow {
            distance: (k * GRID_STEP) as i64,
            delta_ms: delta_at(laps[r], laps, k * GRID_STEP) as i128,
        })
    &&& a.corners@ == corners_of(laps[r].points@)
    &&& is_best_time(laps, a.summary.best_ms)
    &&& is_worst_time(laps, a.summary.worst_ms)
    &&& a.summary.avg_ms == mean_time(laps)
    &&& a.summary.consistency == std_dev(all_thirds(laps))
}

/// Analyses laps against the first of the fastest among them.
pub fn analyze(laps: &[Lap]) -> (a: Analysis)
    requires
        laps@.len() > 0,
    ensures
        exists|r: int| is_reference(laps@, r) && #[trigger] is_analysis_of(a, laps@, r),
{
    let r: usize = reference_index(laps);
    let a = Analysis {
        overlay: overlay_speed_vs_distance(laps),
        delta_ribbon: rolling_delta_vs_reference(&laps[r], laps),
        corners: per_corner_metrics(&laps[r]),
        summary: lap_summary(laps),
    };
    assert(is_analysis_of(a, laps@, r as int));
    a
}

impl Inner {
    /// The stored laps in ascending order of lap time. Laps of one time come
    /// in no order that could be told beforehand.
    pub fn list_laps(&self) -> (list: Vec<LapListing>)
        ensures
            is_listing(list@, self.laps@),
    {
        let mut list: Vec<LapListing> = Vec::new();
        let ghost mut place: Map<u128, int> = Map::empty();
        for (id, lap) in it: self.laps.iter()
            invariant
                it.seq() == spec_hash_map_iter(&self.laps).remaining(),
                it.seq().no_duplicates(),
                list@.len() == it.index(),
                forall|a: int, b: int|
                    0 <= a <= b < list@.len() ==> (#[trigger] list@[a]).time_ms <= (
                    #[trigger] list@[b]).time_ms,
                forall|k: u128|
                    place.contains_key(k) <==> exists|i: int|
                        0 <= i < it.index() && *(#[trigger] it.seq()[i]).0 == k,
                forall|i: int|
                    0 <= i < it.index() ==> {
                        let k = *(#[trigger] it.seq()[i]).0;
                        0 <= place[k] < list@.len() && list@[place[k]]@ == listing_of(
                            *it.seq()[i].1,
                        )
                    },
                forall|k: u128, l: u128|
                    place.contains_key(k) && place.contains_key(l) && k != l ==> #[trigger] place[k]
                        != #[trigger] place[l],
                forall|k: u128| place.contains_key(k) ==> 0 <= #[trigger] place[k] < list@.len(),
        {
            proof {
                axiom_spec_hash_map_iter(&self.laps);
            }
            let entry: LapListing = listing(lap);
            let pos: usize = place_after(&list, entry.time_ms);
            let ghost before = place;
            let ghost index = it.index();
            list.insert(pos, entry);
            proof {
                let shifted = Map::new(
                    |k: u128| before.contains_key(k),
                    |k: u128|
                        if before[k] >= pos {
                            before[k] + 1
                        } else {
                            before[k]
                        },
                );
                place = shifted.insert(*id, pos as int);
                assert(!before.contains_key(*id)) by {
                    if before.contains_key(*id) {
                        let i = choose|i: int| 0 <= i < index && *(#[trigger] it.seq()[i]).0 == *id;
                        assert(self.laps@[*it.seq()[i].0] == *it.seq()[i].1);
                        assert(self.laps@[*it.seq()[index].0] == *it.seq()[index].1);
                        assert(it.seq()[i] == it.seq()[index]);
                    }
                }
                assert forall|i: int| 0 <= i < index + 1 implies {
                    let k = *(#[trigger] it.seq()[i]).0;
                    0 <= place[k] < list@.len() && list@[place[k]]@ == listing_of(*it.seq()[i].1)
                } by {
                    if i < index {
                        let k = *it.seq()[i].0;
                        assert(before.contains_key(k));
                    }
                }
            }
        }
        proof {
            axiom_spec_hash_map_iter(&self.laps);
            let v = spec_hash_map_iter(&self.laps).remaining();
            assert forall|k: u128| #[trigger] self.laps@.contains_key(k) implies place.contains_key(
                k,
            ) && list@[place[k]]@ == listing_of(self.laps@[k]) by {
                assert(v.contains((&k, &self.laps@[k])));
                let i = choose|i: int| 0 <= i < v.len() && v[i] == (&k, &self.laps@[k]);
                assert(*v[i].0 == k);
            }
            assert forall|k: u128| place.contains_key(k) implies self.laps@.contains_key(k) by {
                let i = choose|i: int| 0 <= i < v.len() && *(#[trigger] v[i]).0 == k;
                assert(self.laps@.contains_key(*v[i].0));
            }
            assert(place.dom() =~= self.laps@.dom());
        }
        list
    }

    /// Analyses the laps with the given identifiers; identifiers that the store
    /// does not know are passed over. The reference is the first of the fastest
    /// laps. Without any lap there is nothing to analyse.
    pub fn analyze_laps(&self, ids: &[u128]) -> (r: Result<Analysis, OpError>)
        ensures
            r is Ok <==> selection(self.laps@, ids@).len() > 0,
            r is Err ==> r->Err_0 == OpError::NoLaps,
            r is Ok ==> exists|laps: Seq<Lap>, i: int|
                lap_views(laps) == selection(self.laps@, ids@) && is_reference(laps, i)
                    && #[trigger] is_analysis_of(r->Ok_0, laps, i),
    {
        let n: usize = ids.len();
        let mut laps: Vec<Lap> = Vec::new();
        let mut i: usize = 0;
        while i < n
            invariant
                0 <= i <= n,
                n == ids@.len(),
                lap_views(laps@) == selection(self.laps@, ids@.take(i as int)),
            decreases n - i,
        {
            proof {
                assert(ids@.take(i + 1).drop_last() =~= ids@.take(i as int));
                assert(ids@.take(i + 1).last() == ids@[i as int]);
            }
            let ghost before = laps@;
            match self.laps.get(&ids[i]) {
                Some(lap) => {
                    laps.push(lap.duplicate());
                    assert(lap_views(laps@) =~= lap_views(before).push(lap@));
                },
                None => {},
            }
            i = i + 1;
        }
        proof {
            assert(ids@.take(n as int) =~= ids@);
        }
        if laps.len() == 0 {
            return Err(OpError::NoLaps);
        }
        let out: Result<Analysis, OpError> = Ok(analyze(laps.as_slice()));
        proof {
            let r = choose|r: int|
                is_reference(laps@, r) && #[trigger] is_analysis_of(out->Ok_0, laps@, r);
            assert(is_analysis_of(out->Ok_0, laps@, r));
        }
        out
    }

    /// The track map of the stored lap with the given identifier.
    pub fn track_map(&self, lap_id: u128) -> (r: Result<TrackMap, OpError>)
        ensures
            match r {
                Ok(map) => self.laps@.contains_key(lap_id) && is_track_map_of(
                    map,
                    self.laps@[lap_id],
                ),
                Err(e) => e == OpError::LapNotFound && !self.laps@.contains_key(lap_id),
            },
    {
        match self.laps.get(&lap_id) {
            Some(lap) => Ok(build_track_map(lap)),
            None => Err(OpError::LapNotFound),
        }
    }
}

} // verus!
