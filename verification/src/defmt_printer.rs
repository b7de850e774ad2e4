//! Where a log frame came from: the source location that belongs to the
//! index of a decoded frame.
//!
//! The table of frames and the locations are read from the program's ELF
//! file by the log decoder. What is kept here is a plain copy of the
//! locations and the rules for looking one up.
use std::collections::BTreeMap;
use vstd::prelude::*;

verus! {

/// A place in the source of the logging program.
#[derive(Debug, Clone, PartialEq, Eq)]
pub struct Location {
    /// The path of the source file.
    pub file: String,
    /// The line in that file.
    pub line: u64,
    /// The path of the module around it.
    pub module: String,
}

/// What is shown of a frame's location. All of it is missing where the
/// location is not known.
#[derive(Debug, Clone, PartialEq, Eq)]
pub struct LocationInfo {
    /// The source file, from the current directory where it lies in it.
    pub file: Option<String>,
    /// The line in that file.
    pub line: Option<u32>,
    /// The path of the module around it.
    pub mod_path: Option<String>,
}

impl Default for LocationInfo {
    /// Nothing is known.
    fn default() -> (info: LocationInfo)
        ensures
            info.file is None,
            info.line is None,
            info.mod_path is None,
    {
        LocationInfo { file: None, line: None, mod_path: None }
    }
}

/// The part of a path that is left behind a directory it lies in, as
/// `Path::strip_prefix` takes paths apart on the platform this is built
/// for, or `None` where the path does not lie in the directory.
pub uninterp spec fn path_behind(path: Seq<char>, dir: Seq<char>) -> Option<Seq<char>>;

/// `Path::strip_prefix` gives the part of `path` behind `dir`, or an
/// error where `dir` is not a prefix of `path`. Both are taken and given
/// as text.
#[verifier::external_body]
fn strip_prefix(path: &str, dir: &str) -> (rest: Option<String>)
    ensures
        match path_behind(path@, dir@) {
            Some(behind) => rest matches Some(r) && r@ == behind,
            None => rest is None,
        },
{
    match std::path::Path::new(path).strip_prefix(dir) {
        Ok(rest) => Some(rest.display().to_string()),
        Err(_) => None,
    }
}

/// The line number that is shown for a line: its low 32 bits.
pub open spec fn shown_line(line: u64) -> u32 {
    (line % 0x1_0000_0000) as u32
}

/// The file name that is shown for a source file: the path from the
/// current directory where the file lies in it, else the whole path.
pub open spec fn shown_file(file: Seq<char>, current_dir: Seq<char>) -> Seq<char> {
    match path_behind(file, current_dir) {
        Some(behind) => behind,
        None => file,
    }
}

/// The line number that is shown for a line.
fn line_number(line: u64) -> (shown: u32)
    ensures
        shown == shown_line(line),
{
    (line % 0x1_0000_0000) as u32
}

/// A frame index as a key of the locations.
fn location_key(index: usize) -> (key: u64)
    ensures
        key == index,
{
    index as u64
}

/// Frame indices are ordered as numbers are, which is what the map of
/// locations goes by.
proof fn lemma_index_order()
    ensures
        vstd::laws_cmp::obeys_cmp::<u64>(),
{
    broadcast use vstd::laws_cmp::group_laws_cmp;

}

/// The locations of the frames, if they are known, and the directory
/// that file names are shown from.
#[derive(Debug)]
pub struct HelperLocData {
    locs: Option<BTreeMap<u64, Location>>,
    current_dir: String,
}

impl HelperLocData {
    /// The locations by frame index, if they are known.
    pub closed spec fn locations(&self) -> Option<Map<u64, Location>> {
        match self.locs {
            Some(locs) => Some(locs@),
            None => None,
        }
    }

    /// The directory that file names are shown from.
    pub closed spec fn current_dir(&self) -> Seq<char> {
        self.current_dir@
    }

    /// Keeps the locations, if there are any, and the directory that
    /// file names are shown from.
    pub fn new(locs: Option<BTreeMap<u64, Location>>, current_dir: String) -> (data: Self)
        ensures
            data.locations() == (match locs {
                Some(locs) => Some(locs@),
                None => None,
            }),
            data.current_dir() == current_dir@,
    {
        HelperLocData { locs, current_dir }
    }

    /// What is shown of the location of the frame with this index.
    ///
    /// Where the location is known, the file is shown from the current
    /// directory if it lies in it, the line by its low 32 bits, and the
    /// module as it is. Where it is not known, nothing is shown.
    pub fn frame_location_info(&self, index: u64) -> (info: LocationInfo)
        ensures
            match self.locations() {
                Some(locs) if locs.contains_key(index) => {
                    &&& info.file matches Some(file)
                    &&& file@ == shown_file(locs[index].file@, self.current_dir())
                    &&& info.line == Some(shown_line(locs[index].line))
                    &&& info.mod_path matches Some(module)
                    &&& module@ == locs[index].module@
                },
                _ => info.file is None && info.line is None && info.mod_path is None,
            },
    {
        broadcast use vstd::std_specs::btree::group_btree_axioms;

        proof {
            lemma_index_order();
        }
        let mut loc_info = LocationInfo::default();
        match &self.locs {
            Some(locs) => match locs.get(&index) {
                Some(loc) => {
                    let file = match strip_prefix(loc.file.as_str(), self.current_dir.as_str()) {
                        Some(behind) => behind,
                        None => loc.file.clone(),
                    };
                    loc_info.file = Some(file);
                    loc_info.line = Some(line_number(loc.line));
                    loc_info.mod_path = Some(loc.module.clone());
                },
                None => {},
            },
            None => {},
        }
        loc_info
    }
}

/// Whether every frame index has a location.
pub open spec fn all_located(indices: Seq<usize>, locs: Map<u64, Location>) -> bool {
    forall|i: int| 0 <= i < indices.len() ==> locs.contains_key(#[trigger] indices[i] as u64)
}

/// The locations, if every frame of the table has one. Locations with
/// gaps are of no use and are left out as a whole.
pub fn complete_locations(indices: &[usize], locs: BTreeMap<u64, Location>) -> (usable: Option<
    BTreeMap<u64, Location>,
>)
    ensures
        all_located(indices@, locs@) ==> usable == Some(locs),
        !all_located(indices@, locs@) ==> usable is None,
{
    if has_all_locations(indices, &locs) {
        Some(locs)
    } else {
        None
    }
}

/// Whether every frame index has a location.
pub fn has_all_locations(indices: &[usize], locs: &BTreeMap<u64, Location>) -> (complete: bool)
    ensures
        complete == all_located(indices@, locs@),
{
    broadcast use vstd::std_specs::btree::group_btree_axioms;

    proof {
        lemma_index_order();
    }
    let mut i: usize = 0;
    while i < indices.len()
        invariant
            i <= indices@.len(),
            all_located(indices@.take(i as int), locs@),
        decreases indices@.len() - i,
    {
        let key = location_key(indices[i]);
        if !locs.contains_key(&key) {
            return false;
        }
        i += 1;
    }
    assert(indices@.take(i as int) == indices@);
    true
}

} // verus!
