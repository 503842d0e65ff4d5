//! Identifying the archives among the files of the searched folders.
//!
//! Reading the disk is left to the caller, who lists the candidate files
//! with the checksum of each. The scan tells primary archives from add-ons
//! by the reference catalogs and gives every primary archive the add-ons
//! of its title.

use vstd::prelude::*;
use vstd::string::StringExecFns;
use crate::iwad_data::{lookup_primary, spec_lookup_primary, IWadData, IWadID, IWAD_PATHS};
use crate::iwad_object::{IWadObject, IWadObjectView, PWadObject, PWadObjectView};
use crate::pwad_data::{lookup_addon, spec_lookup_addon, PWadData};
use crate::utils::{env_expand, is_plain_path};
use crate::text::{ascending, insert_name, lemma_same_names_same_list, str_eq};

verus! {

/// A file that may be an archive: its path, and the checksum of its
/// content where the file could be read.
#[derive(Clone, Debug)]
pub struct Candidate {
    pub path: String,
    pub checksum: Option<u32>,
}

/// What a `Candidate` holds, its path as text.
pub struct CandidateView {
    pub path: Seq<char>,
    pub checksum: Option<u32>,
}

impl DeepView for Candidate {
    type V = CandidateView;

    open spec fn deep_view(&self) -> CandidateView {
        CandidateView { path: self.path@, checksum: self.checksum }
    }
}

impl Candidate {
    pub fn new(path: &str, checksum: Option<u32>) -> (candidate: Candidate)
        ensures
            candidate.deep_view() == (CandidateView { path: path@, checksum }),
    {
        Candidate { path: path.to_owned(), checksum }
    }
}

/// What a checksum identifies.
#[derive(Clone, Copy, Debug)]
pub enum Identity {
    Primary(IWadData),
    Addon(PWadData),
    Unknown,
}

/// What the catalogs make of a checksum. The catalog of primary archives
/// is asked first; what it knows is never taken for an add-on.
pub open spec fn spec_identify(checksum: u32) -> Identity {
    match spec_lookup_primary(checksum) {
        Some(data) => Identity::Primary(data),
        None => match spec_lookup_addon(checksum) {
            Some(data) => Identity::Addon(data),
            None => Identity::Unknown,
        },
    }
}

/// Identifies content by its checksum.
pub fn identify(checksum: u32) -> (identity: Identity)
    ensures
        identity == spec_identify(checksum),
{
    match lookup_primary(checksum) {
        Some(data) => Identity::Primary(data),
        None => match lookup_addon(checksum) {
            Some(data) => Identity::Addon(data),
            None => Identity::Unknown,
        },
    }
}

/// What a candidate is: unknown where it could not be read, else what its
/// checksum identifies.
pub open spec fn identity_of(candidate: CandidateView) -> Identity {
    match candidate.checksum {
        Some(checksum) => spec_identify(checksum),
        None => Identity::Unknown,
    }
}

/// The add-ons among the candidates, in the order of the candidates.
pub open spec fn identified_addons(candidates: Seq<CandidateView>) -> Seq<PWadObjectView>
    decreases candidates.len(),
{
    if candidates.len() == 0 {
        Seq::empty()
    } else {
        let before = identified_addons(candidates.drop_last());
        match identity_of(candidates.last()) {
            Identity::Addon(data) => before.push(
                PWadObjectView {
                    data,
                    filename: candidates.last().path,
                    checksum: candidates.last().checksum->0,
                },
            ),
            _ => before,
        }
    }
}

/// The primary archives among the candidates, in the order of the
/// candidates: what the catalog knows of each, its path and its checksum.
pub open spec fn identified_primaries(candidates: Seq<CandidateView>) -> Seq<
    (IWadData, Seq<char>, u32),
>
    decreases candidates.len(),
{
    if candidates.len() == 0 {
        Seq::empty()
    } else {
        let before = identified_primaries(candidates.drop_last());
        match identity_of(candidates.last()) {
            Identity::Primary(data) => before.push(
                (data, candidates.last().path, candidates.last().checksum->0),
            ),
            _ => before,
        }
    }
}

/// The paths of the add-ons of the title `id`, in the order of `pwads`.
pub open spec fn files_for(pwads: Seq<PWadObjectView>, id: IWadID) -> Seq<Seq<char>>
    decreases pwads.len(),
{
    if pwads.len() == 0 {
        Seq::empty()
    } else {
        let before = files_for(pwads.drop_last(), id);
        if pwads.last().data.id == id {
            before.push(pwads.last().filename)
        } else {
            before
        }
    }
}

/// Some add-on of the title `id` among the first `n` of `pwads` has the
/// name `name`.
pub open spec fn names_addon(pwads: Seq<PWadObjectView>, n: int, id: IWadID, name: Seq<char>) -> bool {
    exists|k: int| 0 <= k < n && k < pwads.len() && (#[trigger] pwads[k]).data.id == id && pwads[k].data.name@ == name
}

/// `names` holds the names of the add-ons of the title `id`, each once, in
/// ascending order.
pub open spec fn is_name_list(names: Seq<Seq<char>>, pwads: Seq<PWadObjectView>, id: IWadID) -> bool {
    &&& ascending(names)
    &&& forall|name: Seq<char>|
        names.contains(name) <==> names_addon(pwads, pwads.len() as int, id, name)
}

/// Lists the paths of the add-ons of the title `id`, in the order of
/// `pwads`.
pub fn pwad_files_for(pwads: &Vec<PWadObject>, id: IWadID) -> (files: Vec<String>)
    ensures
        files.deep_view() == files_for(pwads.deep_view(), id),
{
    let mut files: Vec<String> = Vec::new();
    let ghost all = pwads.deep_view();
    let mut i: usize = 0;
    assert(files.deep_view() =~= files_for(all.take(0), id));
    while i < pwads.len()
        invariant
            i <= pwads@.len(),
            all == pwads.deep_view(),
            files.deep_view() == files_for(all.take(i as int), id),
        decreases pwads.len() - i,
    {
        let ghost before = files.deep_view();
        proof {
            assert(all.take(i + 1).drop_last() =~= all.take(i as int));
            assert(all.take(i + 1).last() == pwads@[i as int].deep_view());
        }
        if pwads[i].data.id == id {
            files.push(pwads[i].filename.clone());
            assert(files.deep_view() =~= before.push(pwads@[i as int].filename@));
        }
        i = i + 1;
    }
    assert(all.take(i as int) =~= all);
    files
}

/// Lists the names of the add-ons of the title `id`, each once, in
/// ascending order.
pub fn pwad_names_for(pwads: &Vec<PWadObject>, id: IWadID) -> (names: Vec<String>)
    ensures
        is_name_list(names.deep_view(), pwads.deep_view(), id),
{
    let mut names: Vec<String> = Vec::new();
    let ghost all = pwads.deep_view();
    let mut i: usize = 0;
    while i < pwads.len()
        invariant
            i <= pwads@.len(),
            all == pwads.deep_view(),
            ascending(names.deep_view()),
            forall|n: Seq<char>| names.deep_view().contains(n) <==> names_addon(all, i as int, id, n),
        decreases pwads.len() - i,
    {
        let ghost before = names.deep_view();
        if pwads[i].data.id == id {
            insert_name(&mut names, pwads[i].data.name);
        }
        proof {
            let after = names.deep_view();
            assert forall|n: Seq<char>| after.contains(n) <==> names_addon(
                all,
                i + 1,
                id,
                n,
            ) by {
                if names_addon(all, i + 1, id, n) {
                    let k = choose|k: int|
                        0 <= k < i + 1 && k < all.len() && (#[trigger] all[k]).data.id == id
                            && all[k].data.name@ == n;
                    if k < i {
                        assert(names_addon(all, i as int, id, n));
                    }
                }
                if after.contains(n) {
                    if before.contains(n) {
                        assert(names_addon(all, i as int, id, n));
                        let k = choose|k: int|
                            0 <= k < i && k < all.len() && (#[trigger] all[k]).data.id == id
                                && all[k].data.name@ == n;
                        assert(all[k].data.id == id);
                    } else {
                        assert(all[i as int].data.id == id);
                    }
                }
            }
        }
        i = i + 1;
    }
    names
}

/// What a scan found.
#[derive(Clone, Debug)]
pub struct ScanResult {
    /// The primary archives, in the order of the candidates.
    pub iwads: Vec<IWadObject>,
    /// The add-ons, in the order of the candidates.
    pub pwads: Vec<PWadObject>,
}

/// What a `ScanResult` holds, its strings as text.
pub struct ScanResultView {
    pub iwads: Seq<IWadObjectView>,
    pub pwads: Seq<PWadObjectView>,
}

impl DeepView for ScanResult {
    type V = ScanResultView;

    open spec fn deep_view(&self) -> ScanResultView {
        ScanResultView { iwads: self.iwads.deep_view(), pwads: self.pwads.deep_view() }
    }
}

/// `iwad` is the primary archive `found`, with the add-ons of its title
/// among `pwads`.
pub open spec fn is_scanned_iwad(
    iwad: IWadObjectView,
    found: (IWadData, Seq<char>, u32),
    pwads: Seq<PWadObjectView>,
) -> bool {
    &&& iwad.data == found.0
    &&& iwad.filename == found.1
    &&& iwad.checksum == found.2
    &&& iwad.pwad_files == files_for(pwads, iwad.data.id)
    &&& is_name_list(iwad.pwad_names, pwads, iwad.data.id)
}

/// `result` is what scanning `candidates` gives: the add-ons and the
/// primary archives among them, in their order, no other file, and with
/// every primary archive the add-ons of its title.
pub open spec fn is_scan_of(result: ScanResultView, candidates: Seq<CandidateView>) -> bool {
    &&& result.pwads == identified_addons(candidates)
    &&& result.iwads.len() == identified_primaries(candidates).len()
    &&& forall|j: int|
        0 <= j < result.iwads.len() ==> is_scanned_iwad(
            #[trigger] result.iwads[j],
            identified_primaries(candidates)[j],
            result.pwads,
        )
}

/// Identifies the archives among the candidates.
///
/// A candidate that could not be read, or whose checksum no catalog knows,
/// is left out. A file found twice is listed twice.
pub fn scan(candidates: &Vec<Candidate>) -> (result: ScanResult)
    ensures
        is_scan_of(result.deep_view(), candidates.deep_view()),
{
    let ghost all = candidates.deep_view();
    let mut pwads: Vec<PWadObject> = Vec::new();
    let mut found: Vec<(IWadData, usize, u32)> = Vec::new();
    let mut i: usize = 0;
    assert(pwads.deep_view() =~= identified_addons(all.take(0)));
    while i < candidates.len()
        invariant
            i <= candidates@.len(),
            all == candidates.deep_view(),
            pwads.deep_view() == identified_addons(all.take(i as int)),
            found@.len() == identified_primaries(all.take(i as int)).len(),
            forall|k: int|
                0 <= k < found@.len() ==> {
                    let entry = #[trigger] found@[k];
                    &&& entry.1 < i
                    &&& (entry.0, all[entry.1 as int].path, entry.2) == identified_primaries(
                        all.take(i as int),
                    )[k]
                },
        decreases candidates.len() - i,
    {
        let ghost pwads_before = pwads.deep_view();
        proof {
            assert(all.take(i + 1).drop_last() =~= all.take(i as int));
            assert(all.take(i + 1).last() == candidates@[i as int].deep_view());
        }
        match candidates[i].checksum {
            Some(checksum) => match identify(checksum) {
                Identity::Primary(data) => {
                    found.push((data, i, checksum));
                },
                Identity::Addon(data) => {
                    pwads.push(PWadObject::new(&data, candidates[i].path.as_str(), checksum));
                    assert(pwads.deep_view() =~= pwads_before.push(
                        PWadObjectView { data, filename: candidates@[i as int].path@, checksum },
                    ));
                },
                Identity::Unknown => {},
            },
            None => {},
        }
        i = i + 1;
    }
    assert(all.take(i as int) =~= all);
    let mut iwads: Vec<IWadObject> = Vec::new();
    let mut k: usize = 0;
    while k < found.len()
        invariant
            k <= found@.len(),
            all == candidates.deep_view(),
            iwads@.len() == k,
            found@.len() == identified_primaries(all).len(),
            forall|k: int|
                0 <= k < found@.len() ==> {
                    let entry = #[trigger] found@[k];
                    &&& entry.1 < candidates@.len()
                    &&& (entry.0, all[entry.1 as int].path, entry.2) == identified_primaries(all)[k]
                },
            forall|j: int|
                0 <= j < k ==> is_scanned_iwad(
                    (#[trigger] iwads@[j]).deep_view(),
                    identified_primaries(all)[j],
                    pwads.deep_view(),
                ),
        decreases found.len() - k,
    {
        let entry = found[k];
        let files = pwad_files_for(&pwads, entry.0.id);
        let names = pwad_names_for(&pwads, entry.0.id);
        iwads.push(IWadObject::new(&entry.0, candidates[entry.1].path.as_str(), entry.2, files, names));
        k = k + 1;
    }
    let result = ScanResult { iwads, pwads };
    assert forall|j: int| 0 <= j < result.deep_view().iwads.len() implies is_scanned_iwad(
        #[trigger] result.deep_view().iwads[j],
        identified_primaries(all)[j],
        result.deep_view().pwads,
    ) by {
        assert(result.deep_view().iwads[j] == result.iwads@[j].deep_view());
    }
    result
}

/// A scan is determined by its candidates: scanning the same candidates
/// again gives the same archives, in the same order, with the same
/// add-ons.
pub proof fn lemma_scan_determined(
    candidates: Seq<CandidateView>,
    first: ScanResultView,
    second: ScanResultView,
)
    requires
        is_scan_of(first, candidates),
        is_scan_of(second, candidates),
    ensures
        first == second,
{
    assert forall|j: int| 0 <= j < first.iwads.len() implies first.iwads[j] == second.iwads[j] by {
        let a = first.iwads[j];
        let b = second.iwads[j];
        assert(is_scanned_iwad(a, identified_primaries(candidates)[j], first.pwads));
        assert(is_scanned_iwad(b, identified_primaries(candidates)[j], second.pwads));
        lemma_same_names_same_list(a.pwad_names, b.pwad_names);
    }
    assert(first.iwads =~= second.iwads);
}

/// A file that no catalog knows, or that could not be read, is in no list
/// of a scan: every archive that a scan lists is a candidate that the
/// catalogs identify.
pub proof fn lemma_scan_lists_only_identified(candidates: Seq<CandidateView>)
    ensures
        forall|k: int|
            0 <= k < identified_addons(candidates).len() ==> exists|i: int|
                0 <= i < candidates.len() && identity_of(candidates[i]) == Identity::Addon(
                    (#[trigger] identified_addons(candidates)[k]).data,
                ) && candidates[i].path == identified_addons(candidates)[k].filename,
        forall|k: int|
            0 <= k < identified_primaries(candidates).len() ==> exists|i: int|
                0 <= i < candidates.len() && identity_of(candidates[i]) == Identity::Primary(
                    (#[trigger] identified_primaries(candidates)[k]).0,
                ) && candidates[i].path == identified_primaries(candidates)[k].1,
    decreases candidates.len(),
{
    if candidates.len() > 0 {
        let before = candidates.drop_last();
        lemma_scan_lists_only_identified(before);
        let last = candidates.len() - 1;
        assert forall|k: int| 0 <= k < identified_addons(candidates).len() implies exists|i: int|
            0 <= i < candidates.len() && identity_of(candidates[i]) == Identity::Addon(
                (#[trigger] identified_addons(candidates)[k]).data,
            ) && candidates[i].path == identified_addons(candidates)[k].filename by {
            if k < identified_addons(before).len() {
                assert(identified_addons(candidates)[k] == identified_addons(before)[k]);
                let i = choose|i: int|
                    0 <= i < before.len() && identity_of(before[i]) == Identity::Addon(
                        identified_addons(before)[k].data,
                    ) && before[i].path == identified_addons(before)[k].filename;
                assert(candidates[i] == before[i]);
            } else {
                assert(identity_of(candidates[last]) == Identity::Addon(
                    identified_addons(candidates)[k].data,
                ));
            }
        }
        assert forall|k: int|
            0 <= k < identified_primaries(candidates).len() implies exists|i: int|
            0 <= i < candidates.len() && identity_of(candidates[i]) == Identity::Primary(
                (#[trigger] identified_primaries(candidates)[k]).0,
            ) && candidates[i].path == identified_primaries(candidates)[k].1 by {
            if k < identified_primaries(before).len() {
                assert(identified_primaries(candidates)[k] == identified_primaries(before)[k]);
                let i = choose|i: int|
                    0 <= i < before.len() && identity_of(before[i]) == Identity::Primary(
                        identified_primaries(before)[k].0,
                    ) && before[i].path == identified_primaries(before)[k].1;
                assert(candidates[i] == before[i]);
            } else {
                assert(identity_of(candidates[last]) == Identity::Primary(
                    identified_primaries(candidates)[k].0,
                ));
            }
        }
    }
}

/// Every candidate that the catalogs identify is listed by a scan, under
/// its own path.
pub proof fn lemma_scan_lists_all_identified(candidates: Seq<CandidateView>, i: int)
    requires
        0 <= i < candidates.len(),
    ensures
        identity_of(candidates[i]) matches Identity::Addon(data) ==> exists|k: int|
            0 <= k < identified_addons(candidates).len() && #[trigger] identified_addons(
                candidates,
            )[k] == (PWadObjectView {
                data,
                filename: candidates[i].path,
                checksum: candidates[i].checksum->0,
            }),
        identity_of(candidates[i]) matches Identity::Primary(data) ==> exists|k: int|
            0 <= k < identified_primaries(candidates).len() && #[trigger] identified_primaries(
                candidates,
            )[k] == (data, candidates[i].path, candidates[i].checksum->0),
    decreases candidates.len(),
{
    let before = candidates.drop_last();
    let addons = identified_addons(candidates);
    let primaries = identified_primaries(candidates);
    let path = candidates[i].path;
    let checksum = candidates[i].checksum->0;
    if i < candidates.len() - 1 {
        lemma_scan_lists_all_identified(before, i);
        assert(before[i] == candidates[i]);
        match identity_of(candidates[i]) {
            Identity::Addon(data) => {
                let k = choose|k: int|
                    0 <= k < identified_addons(before).len() && #[trigger] identified_addons(
                        before,
                    )[k] == (PWadObjectView { data, filename: path, checksum });
                assert(addons[k] == identified_addons(before)[k]);
            },
            Identity::Primary(data) => {
                let k = choose|k: int|
                    0 <= k < identified_primaries(before).len() && #[trigger] identified_primaries(
                        before,
                    )[k] == (data, path, checksum);
                assert(primaries[k] == identified_primaries(before)[k]);
            },
            Identity::Unknown => {},
        }
    } else {
        match identity_of(candidates[i]) {
            Identity::Addon(data) => {
                assert(addons[addons.len() - 1] == (
                    PWadObjectView { data, filename: path, checksum }
                ));
            },
            Identity::Primary(data) => {
                assert(primaries[primaries.len() - 1] == (data, path, checksum));
            },
            Identity::Unknown => {},
        }
    }
}

/// The folders that are searched for archives: the built-in ones, then the
/// user's.
pub open spec fn folder_list(user_folder: Seq<char>) -> Seq<Seq<char>> {
    seq![IWAD_PATHS[0]@, IWAD_PATHS[1]@, IWAD_PATHS[2]@, IWAD_PATHS[3]@, user_folder]
}

/// Lists the folders to search, the user's folder given as it is on disk.
pub fn folders_with(user_folder: String) -> (folders: Vec<String>)
    ensures
        folders.deep_view() == folder_list(user_folder@),
{
    let mut folders: Vec<String> = Vec::new();
    let mut i: usize = 0;
    while i < 4
        invariant
            i <= 4,
            folders@.len() == i,
            forall|j: int| 0 <= j < i ==> (#[trigger] folders@[j])@ == IWAD_PATHS[j]@,
        decreases 4 - i,
    {
        folders.push(String::from_str(IWAD_PATHS[i]));
        i = i + 1;
    }
    folders.push(user_folder);
    assert(folders.deep_view() =~= folder_list(user_folder@));
    folders
}

/// Lists the folders to search, the user's folder with `~` and the
/// environment variables in it expanded; a folder that holds nothing to
/// expand is listed as it was given.
pub fn search_folders(user_folder: &str) -> (folders: Vec<String>)
    ensures
        exists|expanded: Seq<char>| folders.deep_view() == folder_list(expanded),
        is_plain_path(user_folder@) ==> folders.deep_view() == folder_list(user_folder@),
{
    let expanded = env_expand(user_folder);
    folders_with(expanded)
}

/// The pattern that the archives of a folder match.
pub fn search_pattern(folder: &str) -> (pattern: String)
    ensures
        pattern@ == folder@ + "/*.wad"@,
{
    String::from_str(folder).concat("/*.wad")
}

/// `at` is where the archive at the path `filename` stands in `iwads`: the
/// place of the first such archive, or the start of the list where there
/// is none.
pub open spec fn is_iwad_position(iwads: Seq<IWadObjectView>, filename: Seq<char>, at: int) -> bool {
    if exists|i: int| 0 <= i < iwads.len() && (#[trigger] iwads[i]).filename == filename {
        &&& 0 <= at < iwads.len()
        &&& iwads[at].filename == filename
        &&& forall|i: int| 0 <= i < at ==> (#[trigger] iwads[i]).filename != filename
    } else {
        at == 0
    }
}

/// Finds the archive to select for a remembered path.
pub fn iwad_position(iwads: &Vec<IWadObject>, filename: &str) -> (at: usize)
    ensures
        is_iwad_position(iwads.deep_view(), filename@, at as int),
{
    let mut i: usize = 0;
    while i < iwads.len()
        invariant
            i <= iwads@.len(),
            forall|j: int| 0 <= j < i ==> (#[trigger] iwads.deep_view()[j]).filename != filename@,
        decreases iwads.len() - i,
    {
        if str_eq(iwads[i].filename.as_str(), filename) {
            assert(iwads.deep_view()[i as int].filename == filename@);
            return i;
        }
        i = i + 1;
    }
    0
}

} // verus!
