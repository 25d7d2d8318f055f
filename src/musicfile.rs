use vstd::prelude::*;
use crate::catalog::{catalog_lookup, lookup};
use crate::codec::{acceptable, quality_tag};
use crate::config::ConvertProfile;
use crate::error::ProcessError;
use crate::exclude::{set_matches, ExcludeSet};
use crate::paths::{
    components, is_absolute, join_components, normal_form, normalize_path, path_is_absolute,
    path_text, replace_extension, split_components, with_extension,
};

verus! {

/// The top-level MIME type guessed from a path's extension.
pub uninterp spec fn mime_top_type(path: Seq<char>) -> Seq<char>;

/// Relies on `mime_guess::from_path(..).first_or_octet_stream().type_()`: the
/// top-level type of the MIME type that the path's extension suggests
/// (`application` for an unknown extension). No disk access is made.
#[verifier::external_body]
fn guessed_top_type(path: &str) -> (r: String)
    ensures
        r@ == mime_top_type(path@),
{
    mime_guess::from_path(path).first_or_octet_stream().type_().as_str().to_string()
}

/// The patterns of an optional exclusion set.
pub open spec fn exclusion(exclude: Option<ExcludeSet>) -> Option<Seq<Seq<char>>> {
    match exclude {
        Some(set) => Some(set.patterns()),
        None => None,
    }
}

/// A path is taken into a run when it looks like audio and no exclusion
/// pattern matches it.
pub open spec fn admitted(path: Seq<char>, exclude: Option<Seq<Seq<char>>>) -> bool {
    &&& mime_top_type(path) == "audio"@
    &&& match exclude {
        Some(patterns) => !set_matches(patterns, path),
        None => true,
    }
}

/// The components of `file` below `root`, when `file` lies strictly inside it.
pub open spec fn relative_parts(file: Seq<char>, root: Seq<char>) -> Option<Seq<Seq<char>>> {
    let f = components(file);
    let r = components(root);
    if is_absolute(file) == is_absolute(root) && r.len() < f.len() && f.subrange(0, r.len() as int) == r {
        Some(f.subrange(r.len() as int, f.len() as int))
    } else {
        None
    }
}

/// How a file reaches its destination.
#[derive(Debug, Clone, Copy, PartialEq, Eq, Structural)]
pub enum Mode {
    /// The bytes are copied as they are.
    Copy,
    /// The file is transcoded to the target format at `bit_rate` bits per second.
    Transcode { bit_rate: usize },
}

/// Where a file goes and how.
#[derive(Debug, Clone, PartialEq, Eq)]
pub struct FilePlan {
    /// The folder that holds the destination; created before writing.
    pub dest_dir: String,
    /// The destination file.
    pub dest_path: String,
    pub mode: Mode,
}

/// The destination folder and file for the relative components `rel` under
/// `dest`, the file name taking the extension `ext`.
pub open spec fn destination(dest: Seq<char>, rel: Seq<Seq<char>>, ext: Seq<char>, mode: Mode) -> (Seq<char>, Seq<char>, Mode) {
    let dir = components(dest) + rel.drop_last();
    (
        path_text(is_absolute(dest), dir),
        path_text(is_absolute(dest), dir.push(with_extension(rel.last(), ext))),
        mode,
    )
}

/// A bit rate in KB/s, in bits per second.
pub open spec fn bit_rate_bps(kbps: usize) -> int {
    kbps * 1024
}

/// The plan for a file whose probed codec is `probed`: copied with its own
/// codec's extension when the profile accepts that codec, transcoded to the
/// target's extension otherwise. The destination mirrors the file's place
/// under the source folder.
pub open spec fn file_plan(
    file: Seq<char>,
    src: Seq<char>,
    dest: Seq<char>,
    probed: Option<Seq<char>>,
    target: Seq<char>,
    formats: Seq<Seq<char>>,
    kbps: usize,
) -> Result<(Seq<char>, Seq<char>, Mode), ProcessError> {
    match probed {
        None => Err(ProcessError::NoAudioCodec),
        Some(name) => match catalog_lookup(name) {
            None => Err(ProcessError::UnknownCodec),
            Some(codec) => match catalog_lookup(target) {
                None => Err(ProcessError::UnknownTargetFormat),
                Some(goal) => match relative_parts(file, src) {
                    None => Err(ProcessError::OutsideSource),
                    Some(rel) => if acceptable(codec.0, codec.1, formats) {
                        Ok(destination(dest, rel, codec.2, Mode::Copy))
                    } else if bit_rate_bps(kbps) > usize::MAX {
                        Err(ProcessError::BitRateTooLarge)
                    } else {
                        Ok(destination(dest, rel, goal.2, Mode::Transcode { bit_rate: bit_rate_bps(kbps) as usize }))
                    },
                },
            },
        },
    }
}

/// A plan as plain values: destination folder, destination file, mode.
pub open spec fn plan_view(p: FilePlan) -> (Seq<char>, Seq<char>, Mode) {
    (p.dest_dir@, p.dest_path@, p.mode)
}

/// A probed codec name as plain values.
pub open spec fn probe_view(probed: Option<&str>) -> Option<Seq<char>> {
    match probed {
        Some(name) => Some(name@),
        None => None,
    }
}

pub open spec fn plan_outcome(r: Result<FilePlan, ProcessError>) -> Result<(Seq<char>, Seq<char>, Mode), ProcessError> {
    match r {
        Ok(p) => Ok(plan_view(p)),
        Err(e) => Err(e),
    }
}

/// The components of `file` below `root`, when `file` lies strictly inside it.
pub fn relative_to(file: &str, root: &str) -> (r: Option<Vec<String>>)
    ensures
        match r {
            Some(rel) => relative_parts(file@, root@) == Some(rel.deep_view()),
            None => relative_parts(file@, root@) is None,
        },
{
    let f = split_components(file);
    let base = split_components(root);
    if path_is_absolute(file) != path_is_absolute(root) || base.len() >= f.len() {
        return None;
    }
    let ghost fv = f.deep_view();
    let ghost bv = base.deep_view();
    let mut i: usize = 0;
    while i < base.len()
        invariant
            base.len() < f.len(),
            i <= base.len(),
            fv == f.deep_view(),
            bv == base.deep_view(),
            fv == components(file@),
            bv == components(root@),
            forall|j: int| 0 <= j < i ==> fv[j] == bv[j],
        decreases base.len() - i,
    {
        assert(fv[i as int] == f@[i as int]@ && bv[i as int] == base@[i as int]@);
        if f[i] != base[i] {
            assert(fv.subrange(0, bv.len() as int)[i as int] != bv[i as int]);
            return None;
        }
        i = i + 1;
    }
    assert(fv.subrange(0, bv.len() as int) =~= bv);
    let mut rel: Vec<String> = Vec::new();
    let mut k: usize = base.len();
    while k < f.len()
        invariant
            base.len() <= k <= f.len(),
            fv == f.deep_view(),
            bv.len() == base.len(),
            rel.deep_view() =~= fv.subrange(bv.len() as int, k as int),
        decreases f.len() - k,
    {
        assert(fv[k as int] == f@[k as int]@);
        let ghost before = rel.deep_view();
        rel.push(f[k].clone());
        assert(rel.deep_view() =~= before.push(fv[k as int]));
        k = k + 1;
    }
    Some(rel)
}

/// The copy or transcode still to perform for a file of the given mode.
pub open spec fn pending_operation(mode: Mode, dest_exists: bool) -> Option<Mode> {
    if dest_exists {
        None
    } else {
        Some(mode)
    }
}

/// A second run over unchanged sources performs no copy and no transcode:
/// each file gets the same plan as in the first run, whose destination that
/// run has written.
pub proof fn lemma_second_run_writes_nothing(
    file: Seq<char>,
    src: Seq<char>,
    dest: Seq<char>,
    probed: Option<Seq<char>>,
    target: Seq<char>,
    formats: Seq<Seq<char>>,
    kbps: usize,
    first: (Seq<char>, Seq<char>, Mode),
)
    requires
        file_plan(file, src, dest, probed, target, formats, kbps) == Ok::<(Seq<char>, Seq<char>, Mode), ProcessError>(first),
    ensures
        match file_plan(file, src, dest, probed, target, formats, kbps) {
            Ok(second) => second.1 == first.1 && pending_operation(second.2, true) is None,
            Err(_) => false,
        },
{
}

/// Routing under a profile that accepts `quality:lossy` alone: a known lossy
/// codec is copied with its own extension, a known lossless one is
/// transcoded to the target's extension at the profile's bit rate (which
/// must fit a machine word in bits per second).
pub proof fn lemma_lossy_profile_routing(
    file: Seq<char>,
    src: Seq<char>,
    dest: Seq<char>,
    name: Seq<char>,
    target: Seq<char>,
    kbps: usize,
)
    requires
        catalog_lookup(name) is Some,
        catalog_lookup(target) is Some,
        relative_parts(file, src) is Some,
        catalog_lookup(name).unwrap().0 != "quality:lossy"@,
        kbps * 1024 <= usize::MAX,
    ensures
        ({
            let codec = catalog_lookup(name).unwrap();
            let goal = catalog_lookup(target).unwrap();
            let rel = relative_parts(file, src).unwrap();
            file_plan(file, src, dest, Some(name), target, seq!["quality:lossy"@], kbps) == if codec.1 {
                Ok::<(Seq<char>, Seq<char>, Mode), ProcessError>(
                    destination(dest, rel, goal.2, Mode::Transcode { bit_rate: (kbps * 1024) as usize }),
                )
            } else {
                Ok::<(Seq<char>, Seq<char>, Mode), ProcessError>(destination(dest, rel, codec.2, Mode::Copy))
            }
        }),
{
    let codec = catalog_lookup(name).unwrap();
    let formats = seq!["quality:lossy"@];
    reveal_strlit("quality:lossless");
    reveal_strlit("quality:lossy");
    assert(quality_tag(true).len() != quality_tag(false).len());
    assert(!formats.contains(codec.0)) by {
        if formats.contains(codec.0) {
            let k = choose|k: int| 0 <= k < formats.len() && formats[k] == codec.0;
            assert(formats[k] == "quality:lossy"@);
        }
    }
    if codec.1 {
        assert(!formats.contains(quality_tag(true))) by {
            if formats.contains(quality_tag(true)) {
                let k = choose|k: int| 0 <= k < formats.len() && formats[k] == quality_tag(true);
                assert(formats[k] == quality_tag(false));
            }
        }
    } else {
        assert(formats[0] == quality_tag(false));
        assert(formats.contains(quality_tag(false)));
    }
}

/// An existing destination is left alone: for a file whose codec and target
/// are known and which lies inside the source folder, the plan succeeds
/// (the bit rate fitting a machine word) and, its destination existing, no
/// copy or transcode follows.
pub proof fn lemma_existing_destination_untouched(
    file: Seq<char>,
    src: Seq<char>,
    dest: Seq<char>,
    name: Seq<char>,
    target: Seq<char>,
    formats: Seq<Seq<char>>,
    kbps: usize,
)
    requires
        catalog_lookup(name) is Some,
        catalog_lookup(target) is Some,
        relative_parts(file, src) is Some,
        kbps * 1024 <= usize::MAX,
    ensures
        match file_plan(file, src, dest, Some(name), target, formats, kbps) {
            Ok(plan) => pending_operation(plan.2, true) is None,
            Err(_) => false,
        },
{
}

/// A music file of a run, named by the normal form of its path.
#[derive(Debug, Clone)]
pub struct Musicfile {
    pub filename: String,
}

impl PartialEq for Musicfile {
    fn eq(&self, other: &Musicfile) -> (r: bool) {
        self.filename == other.filename
    }
}

impl vstd::std_specs::cmp::PartialEqSpecImpl for Musicfile {
    open spec fn obeys_eq_spec() -> bool {
        true
    }

    open spec fn eq_spec(&self, other: &Musicfile) -> bool {
        self.filename@ == other.filename@
    }
}

impl Eq for Musicfile {
}

impl Musicfile {
    /// The music file at `filename`, unless its extension does not suggest
    /// audio or an exclusion pattern matches its path.
    pub fn new(filename: &str, exclude: &Option<ExcludeSet>) -> (r: Option<Musicfile>)
        ensures
            match r {
                Some(m) => admitted(normal_form(filename@), exclusion(*exclude))
                    && m.filename@ == normal_form(filename@),
                None => !admitted(normal_form(filename@), exclusion(*exclude)),
            },
    {
        let path = normalize_path(filename);
        let top = guessed_top_type(path.as_str());
        if top != String::from_str("audio") {
            return None;
        }
        match exclude {
            Some(set) => {
                if set.is_match(path.as_str()) {
                    return None;
                }
            },
            None => {},
        }
        Some(Musicfile { filename: path })
    }

    /// Decides where this file goes and whether it is copied or transcoded,
    /// given the codec that the media engine found in it (`None` when it found
    /// no audio stream).
    pub fn process_file(&self, src: &str, dest: &str, probed: Option<&str>, convert_profile: &ConvertProfile) -> (r: Result<FilePlan, ProcessError>)
        ensures
            plan_outcome(r) == file_plan(
                self.filename@, src@, dest@, probe_view(probed), convert_profile.target_format@,
                convert_profile.acceptable_formats.deep_view(), convert_profile.bit_rate,
            ),
    {
        let name = match probed {
            None => return Err(ProcessError::NoAudioCodec),
            Some(name) => name,
        };
        let codec = match lookup(name) {
            None => return Err(ProcessError::UnknownCodec),
            Some(c) => c,
        };
        let goal = match lookup(convert_profile.target_format.as_str()) {
            None => return Err(ProcessError::UnknownTargetFormat),
            Some(c) => c,
        };
        let rel = match relative_to(self.filename.as_str(), src) {
            None => return Err(ProcessError::OutsideSource),
            Some(rel) => rel,
        };
        let (ext, mode) = if codec.is_acceptable(convert_profile.acceptable_formats.as_slice()) {
            (codec.extension, Mode::Copy)
        } else if convert_profile.bit_rate > usize::MAX / 1024 {
            return Err(ProcessError::BitRateTooLarge);
        } else {
            (goal.extension, Mode::Transcode { bit_rate: convert_profile.bit_rate * 1024 })
        };
        let ghost relv = rel.deep_view();
        let mut dir = split_components(dest);
        let ghost dv = dir.deep_view();
        let last = rel.len() - 1;
        let mut k: usize = 0;
        while k < last
            invariant
                last + 1 == rel.len(),
                k <= last,
                relv == rel.deep_view(),
                dir.deep_view() =~= dv + relv.subrange(0, k as int),
            decreases last - k,
        {
            assert(relv[k as int] == rel@[k as int]@);
            let ghost before = dir.deep_view();
            dir.push(rel[k].clone());
            assert(dir.deep_view() =~= before.push(relv[k as int]));
            k = k + 1;
        }
        assert(relv.subrange(0, last as int) =~= relv.drop_last());
        let absolute = path_is_absolute(dest);
        let dest_dir = join_components(absolute, &dir);
        assert(relv.last() == rel@[last as int]@);
        let file_name = replace_extension(rel[last].as_str(), ext);
        let ghost dirv = dir.deep_view();
        dir.push(file_name);
        assert(dir.deep_view() =~= dirv.push(file_name@));
        let dest_path = join_components(absolute, &dir);
        Ok(FilePlan { dest_dir, dest_path, mode })
    }

    /// Whether the destination is to be written: only when nothing is there
    /// yet. An existing destination is never overwritten.
    pub fn should_write(&self, dest_exists: bool) -> (r: bool)
        ensures
            r == !dest_exists,
    {
        !dest_exists
    }

    /// What is left to do for this file under `plan`: nothing when its
    /// destination exists already, the plan's copy or transcode otherwise.
    pub fn next_operation(&self, plan: &FilePlan, dest_exists: bool) -> (r: Option<Mode>)
        ensures
            r == pending_operation(plan.mode, dest_exists),
    {
        if self.should_write(dest_exists) {
            Some(plan.mode)
        } else {
            None
        }
    }
}

} // verus!
