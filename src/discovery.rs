use vstd::prelude::*;
use crate::exclude::{set_matches, ExcludeSet};
use crate::musicfile::{admitted, exclusion, mime_top_type, Musicfile};
use crate::paths::{lemma_normal_form_idempotent, normal_form};

verus! {

/// The files found among the first `n` candidate paths: the normal form of
/// each admitted candidate, once, in the order first met.
pub open spec fn discovered(candidates: Seq<Seq<char>>, exclude: Option<Seq<Seq<char>>>, n: int) -> Seq<Seq<char>>
    decreases n,
{
    if n <= 0 {
        Seq::empty()
    } else {
        let found = discovered(candidates, exclude, n - 1);
        let p = normal_form(candidates[n - 1]);
        if admitted(p, exclude) && !found.contains(p) {
            found.push(p)
        } else {
            found
        }
    }
}

/// The files found among all candidate paths.
pub open spec fn discover(candidates: Seq<Seq<char>>, exclude: Option<Seq<Seq<char>>>) -> Seq<Seq<char>> {
    discovered(candidates, exclude, candidates.len() as int)
}

pub open spec fn file_names(files: Seq<Musicfile>) -> Seq<Seq<char>> {
    files.map_values(|m: Musicfile| m.filename@)
}

/// The glob pattern of an input, taken relative to the source folder.
pub fn pattern_under(prefix: &str, pattern: &str) -> (r: String)
    ensures
        r@ == prefix@ + seq!['/'] + pattern@,
{
    proof {
        reveal_strlit("/");
        assert("/"@ =~= seq!['/']);
    }
    let mut r = String::from_str(prefix);
    r.append("/");
    r.append(pattern);
    r
}

fn holds_file(files: &Vec<Musicfile>, name: &String) -> (r: bool)
    ensures
        r == file_names(files@).contains(name@),
{
    let mut i: usize = 0;
    while i < files.len()
        invariant
            i <= files.len(),
            forall|j: int| 0 <= j < i ==> files@[j].filename@ != name@,
        decreases files.len() - i,
    {
        if files[i].filename == *name {
            assert(file_names(files@)[i as int] == name@);
            return true;
        }
        i = i + 1;
    }
    false
}

/// The music files among the paths that the inputs resolved to (every file
/// met while walking them): audio files that no exclusion pattern matches,
/// each path once however many inputs reached it.
pub fn collect_music_files(candidates: &Vec<String>, exclude: &Option<ExcludeSet>) -> (r: Vec<Musicfile>)
    ensures
        file_names(r@) == discover(candidates.deep_view(), exclusion(*exclude)),
{
    let ghost cands = candidates.deep_view();
    let ghost ex = exclusion(*exclude);
    let mut files: Vec<Musicfile> = Vec::new();
    let mut i: usize = 0;
    while i < candidates.len()
        invariant
            i <= candidates.len(),
            cands == candidates.deep_view(),
            ex == exclusion(*exclude),
            file_names(files@) == discovered(cands, ex, i as int),
        decreases candidates.len() - i,
    {
        assert(cands[i as int] == candidates@[i as int]@);
        match Musicfile::new(candidates[i].as_str(), exclude) {
            Some(m) => {
                if !holds_file(&files, &m.filename) {
                    let ghost before = files@;
                    files.push(m);
                    assert(file_names(files@) =~= file_names(before).push(m.filename@));
                }
            },
            None => {},
        }
        i = i + 1;
    }
    files
}

proof fn lemma_discovered_facts(candidates: Seq<Seq<char>>, exclude: Option<Seq<Seq<char>>>, n: int)
    requires
        0 <= n <= candidates.len(),
    ensures
        discovered(candidates, exclude, n).no_duplicates(),
        forall|p: Seq<char>| #[trigger] discovered(candidates, exclude, n).contains(p) <==>
            (admitted(p, exclude) && exists|i: int| 0 <= i < n && normal_form(candidates[i]) == p),
    decreases n,
{
    if n > 0 {
        lemma_discovered_facts(candidates, exclude, n - 1);
        let found = discovered(candidates, exclude, n - 1);
        let p = normal_form(candidates[n - 1]);
        if admitted(p, exclude) && !found.contains(p) {
            assert forall|q: Seq<char>| #[trigger] found.push(p).contains(q) <==> (found.contains(q) || q == p) by {
                if q == p {
                    assert(found.push(p)[found.len() as int] == p);
                }
                if found.contains(q) {
                    let k = choose|k: int| 0 <= k < found.len() && found[k] == q;
                    assert(found.push(p)[k] == q);
                }
            }
        }
        assert forall|q: Seq<char>| #[trigger] discovered(candidates, exclude, n).contains(q) <==>
            (admitted(q, exclude) && exists|i: int| 0 <= i < n && normal_form(candidates[i]) == q) by {
            if admitted(q, exclude) && exists|i: int| 0 <= i < n && normal_form(candidates[i]) == q {
                let i = choose|i: int| 0 <= i < n && normal_form(candidates[i]) == q;
                if i < n - 1 {
                    assert(found.contains(q));
                }
            }
            if discovered(candidates, exclude, n).contains(q) && !found.contains(q) {
                assert(q == p);
                assert(normal_form(candidates[n - 1]) == q);
            }
        }
    }
}

/// Discovery names each file once: no path appears twice among the results.
pub proof fn lemma_discovery_has_no_duplicates(candidates: Seq<Seq<char>>, exclude: Option<Seq<Seq<char>>>)
    ensures
        discover(candidates, exclude).no_duplicates(),
{
    lemma_discovered_facts(candidates, exclude, candidates.len() as int);
}

/// A path is discovered exactly when some input reached it and it is admitted.
pub proof fn lemma_discovery_members(candidates: Seq<Seq<char>>, exclude: Option<Seq<Seq<char>>>, p: Seq<char>)
    ensures
        discover(candidates, exclude).contains(p) <==>
            (admitted(p, exclude) && exists|i: int| 0 <= i < candidates.len() && normal_form(candidates[i]) == p),
{
    lemma_discovered_facts(candidates, exclude, candidates.len() as int);
}

/// Inputs that all reach one file (its literal path, its folder, a glob)
/// yield that file exactly once.
pub proof fn lemma_overlapping_inputs_found_once(candidates: Seq<Seq<char>>, exclude: Option<Seq<Seq<char>>>)
    requires
        candidates.len() > 0,
        forall|i: int| 0 <= i < candidates.len() ==> normal_form(#[trigger] candidates[i]) == normal_form(candidates[0]),
        admitted(normal_form(candidates[0]), exclude),
    ensures
        discover(candidates, exclude) == seq![normal_form(candidates[0])],
{
    let p = normal_form(candidates[0]);
    lemma_discovered_facts(candidates, exclude, candidates.len() as int);
    let found = discover(candidates, exclude);
    assert(found.contains(p));
    assert forall|k: int| 0 <= k < found.len() implies found[k] == p by {
        assert(found.contains(found[k]));
    }
    if found.len() > 1 {
        assert(found[0] == found[1]);
    }
    assert(found =~= seq![p]);
}

proof fn lemma_rediscovered(found: Seq<Seq<char>>, exclude: Option<Seq<Seq<char>>>, n: int)
    requires
        0 <= n <= found.len(),
        found.no_duplicates(),
        forall|i: int| 0 <= i < found.len() ==> admitted(#[trigger] found[i], exclude) && normal_form(found[i]) == found[i],
    ensures
        discovered(found, exclude, n) == found.subrange(0, n),
    decreases n,
{
    if n > 0 {
        lemma_rediscovered(found, exclude, n - 1);
        let prev = found.subrange(0, n - 1);
        let p = found[n - 1];
        assert(admitted(p, exclude));
        assert(!prev.contains(p)) by {
            if prev.contains(p) {
                let k = choose|k: int| 0 <= k < prev.len() && prev[k] == p;
                assert(found[k] == found[n - 1]);
            }
        }
        assert(prev.push(p) =~= found.subrange(0, n));
    }
}

/// Discovery is idempotent: discovering the files it found finds exactly
/// them again, in the same order.
pub proof fn lemma_discovery_idempotent(candidates: Seq<Seq<char>>, exclude: Option<Seq<Seq<char>>>)
    ensures
        discover(discover(candidates, exclude), exclude) == discover(candidates, exclude),
{
    let found = discover(candidates, exclude);
    lemma_discovered_facts(candidates, exclude, candidates.len() as int);
    assert forall|i: int| 0 <= i < found.len() implies admitted(#[trigger] found[i], exclude) && normal_form(found[i]) == found[i] by {
        assert(found.contains(found[i]));
        let j = choose|j: int| 0 <= j < candidates.len() && normal_form(candidates[j]) == found[i];
        lemma_normal_form_idempotent(candidates[j]);
    }
    lemma_rediscovered(found, exclude, found.len() as int);
    assert(found.subrange(0, found.len() as int) =~= found);
}

/// A file whose extension does not suggest audio (a `.txt`) is never discovered.
pub proof fn lemma_non_audio_never_found(candidates: Seq<Seq<char>>, exclude: Option<Seq<Seq<char>>>, p: Seq<char>)
    requires
        mime_top_type(p) != "audio"@,
    ensures
        !discover(candidates, exclude).contains(p),
{
    lemma_discovered_facts(candidates, exclude, candidates.len() as int);
}

/// A file that an exclusion pattern matches is never discovered, whatever
/// inputs reach it.
pub proof fn lemma_excluded_never_found(candidates: Seq<Seq<char>>, patterns: Seq<Seq<char>>, p: Seq<char>)
    requires
        set_matches(patterns, p),
    ensures
        !discover(candidates, Some(patterns)).contains(p),
{
    lemma_discovered_facts(candidates, Some(patterns), candidates.len() as int);
}

} // verus!
