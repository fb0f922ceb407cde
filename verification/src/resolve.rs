//! Script resolution: a logical script name is looked up across three
//! ordered search tiers — the working directory, the per-user script
//! directory, and the directories of a colon-separated search-path variable.
//! The first tier holding the canonical filename wins; later tiers are never
//! consulted once a match is found.
use vstd::prelude::*;

use crate::paths::is_absolute_path;
use crate::strings::split;
use crate::strings::split_spec;
use crate::strings::views_of;

verus! {

/// The identifier embedded in every script filename, so that
/// `<name>.<launcher-id>.lua` disambiguates this launcher's scripts from
/// unrelated files.
pub open spec fn launcher_id_spec() -> Seq<char> {
    "lunash"@
}

/// The launcher identifier as a string slice.
pub fn launcher_id() -> (r: &'static str)
    ensures
        r@ == launcher_id_spec(),
{
    "lunash"
}

/// The canonical filename of the script registered under `name`.
pub open spec fn script_filename(name: Seq<char>) -> Seq<char> {
    name + "."@ + launcher_id_spec() + ".lua"@
}

/// The canonical filename of the script registered under `name`.
pub fn script_filename_for(name: &str) -> (r: String)
    ensures
        r@ == script_filename(name@),
{
    let mut out = name.to_owned();
    out.append(".");
    out.append(launcher_id());
    out.append(".lua");
    out
}

/// `file` placed under `dir`: `file` alone when it is absolute or `dir` is
/// empty, otherwise the two joined with a single `/` separator.
pub open spec fn join_path(dir: Seq<char>, file: Seq<char>) -> Seq<char> {
    if is_absolute_path(file) {
        file
    } else if dir.len() == 0 {
        file
    } else if dir.last() == '/' {
        dir + file
    } else {
        dir + seq!['/'] + file
    }
}

/// `file` placed under `dir`.
pub fn join_path_exec(dir: &str, file: &str) -> (r: String)
    ensures
        r@ == join_path(dir@, file@),
{
    proof {
        reveal_strlit("/");
        assert("/"@ =~= seq!['/']);
    }
    let file_len = file.unicode_len();
    if file_len > 0 && file.get_char(0) == '/' {
        return file.to_owned();
    }
    let dir_len = dir.unicode_len();
    if dir_len == 0 {
        return file.to_owned();
    }
    let mut out = dir.to_owned();
    if dir.get_char(dir_len - 1) != '/' {
        out.append("/");
    }
    out.append(file);
    out
}

/// The view of an optional string slice.
pub open spec fn opt_str_view(o: Option<&str>) -> Option<Seq<char>> {
    match o {
        Some(s) => Some(s@),
        None => None,
    }
}

/// The tier-2 candidate: the canonical filename under the `scripts/`
/// subdirectory of the per-user data directory.
pub open spec fn tier2_candidate(name: Seq<char>, data_dir: Seq<char>) -> Seq<char> {
    join_path(join_path(data_dir, "scripts"@), script_filename(name))
}

/// The tier-3 candidates: the canonical filename under each directory of the
/// colon-separated search path, in listed order.
pub open spec fn tier3_candidates(name: Seq<char>, search_path: Seq<char>) -> Seq<Seq<char>> {
    split_spec(search_path, seq![':']).map_values(|d: Seq<char>| join_path(d, script_filename(name)))
}

/// Every location probed for the script `name`, in precedence order: the
/// working directory first, then the per-user script directory when one is
/// known, then each search-path directory.
pub open spec fn candidates_spec(
    name: Seq<char>,
    data_dir: Option<Seq<char>>,
    search_path: Option<Seq<char>>,
) -> Seq<Seq<char>> {
    seq![script_filename(name)] + (match data_dir {
        Some(d) => seq![tier2_candidate(name, d)],
        None => Seq::<Seq<char>>::empty(),
    }) + (match search_path {
        Some(p) => tier3_candidates(name, p),
        None => Seq::<Seq<char>>::empty(),
    })
}

/// Every location probed for the script `name`, in precedence order.
pub fn candidate_paths(name: &str, data_dir: Option<&str>, search_path: Option<&str>) -> (r: Vec<
    String,
>)
    ensures
        views_of(r@) == candidates_spec(name@, opt_str_view(data_dir), opt_str_view(search_path)),
{
    let filename = script_filename_for(name);
    let mut out: Vec<String> = Vec::new();
    out.push(filename.clone());
    if let Some(d) = data_dir {
        let scripts_dir = join_path_exec(d, "scripts");
        out.push(join_path_exec(scripts_dir.as_str(), filename.as_str()));
    }
    let ghost base = views_of(out@);
    proof {
        assert(base =~= seq![script_filename(name@)] + (match opt_str_view(data_dir) {
            Some(dv) => seq![tier2_candidate(name@, dv)],
            None => Seq::<Seq<char>>::empty(),
        }));
    }
    if let Some(p) = search_path {
        proof {
            reveal_strlit(":");
            assert(":"@ =~= seq![':']);
        }
        let dirs = split(p, ":");
        let mut k: usize = 0;
        while k < dirs.len()
            invariant
                views_of(dirs@) == split_spec(p@, seq![':']),
                k <= dirs@.len(),
                views_of(out@).len() == base.len() + k,
                views_of(out@).subrange(0, base.len() as int) == base,
                forall|j: int|
                    0 <= j < k ==> views_of(out@)[base.len() + j] == join_path(
                        views_of(dirs@)[j],
                        script_filename(name@),
                    ),
                filename@ == script_filename(name@),
            decreases dirs@.len() - k,
        {
            let ghost prev = views_of(out@);
            out.push(join_path_exec(dirs[k].as_str(), filename.as_str()));
            proof {
                assert(views_of(out@).subrange(0, base.len() as int) =~= prev.subrange(
                    0,
                    base.len() as int,
                ));
            }
            k = k + 1;
        }
        proof {
            let all = candidates_spec(name@, opt_str_view(data_dir), opt_str_view(search_path));
            assert(views_of(out@) =~= all);
        }
    } else {
        proof {
            let all = candidates_spec(name@, opt_str_view(data_dir), opt_str_view(search_path));
            assert(views_of(out@) =~= all);
        }
    }
    out
}

/// The index of the first present candidate, or none when every candidate is
/// absent.
pub open spec fn first_present(present: Seq<bool>) -> Option<int>
    decreases present.len(),
{
    if present.len() == 0 {
        None
    } else if present[0] {
        Some(0)
    } else {
        match first_present(present.drop_first()) {
            Some(i) => Some(i + 1),
            None => None,
        }
    }
}

/// What resolution returns once the presence of each candidate is known: the
/// first present candidate, or none.
pub open spec fn resolution_spec(cands: Seq<Seq<char>>, present: Seq<bool>) -> Option<Seq<char>> {
    match first_present(present) {
        Some(i) => if i < cands.len() {
            Some(cands[i])
        } else {
            None
        },
        None => None,
    }
}

proof fn lemma_first_present_is(present: Seq<bool>, i: int)
    requires
        0 <= i < present.len(),
        present[i],
        forall|j: int| 0 <= j < i ==> !present[j],
    ensures
        first_present(present) == Some(i),
    decreases i,
{
    if i > 0 {
        lemma_first_present_is(present.drop_first(), i - 1);
    }
}

proof fn lemma_first_present_none(present: Seq<bool>)
    requires
        forall|j: int| 0 <= j < present.len() ==> !present[j],
    ensures
        first_present(present) is None,
    decreases present.len(),
{
    if present.len() > 0 {
        lemma_first_present_none(present.drop_first());
    }
}

/// The outcome of resolving a script name.
pub enum Resolution {
    /// The resolved location of the script.
    Found(String),
    /// No tier holds the script.
    NotFound,
}

/// Resolution over candidates whose presence is already known: the first
/// present candidate wins.
pub fn resolve_decided(cands: &Vec<String>, present: &Vec<bool>) -> (r: Resolution)
    requires
        cands@.len() == present@.len(),
    ensures
        match r {
            Resolution::Found(p) => resolution_spec(views_of(cands@), present@) == Some(p@),
            Resolution::NotFound => resolution_spec(views_of(cands@), present@) is None,
        },
{
    let mut k: usize = 0;
    while k < cands.len()
        invariant
            cands@.len() == present@.len(),
            k <= cands@.len(),
            forall|j: int| 0 <= j < k ==> !present@[j],
        decreases cands@.len() - k,
    {
        if present[k] {
            proof {
                lemma_first_present_is(present@, k as int);
            }
            return Resolution::Found(cands[k].clone());
        }
        k = k + 1;
    }
    proof {
        lemma_first_present_none(present@);
    }
    Resolution::NotFound
}

/// When the script is present in tier 1, resolution returns precisely the
/// tier-1 file — the canonical filename in the working directory — whatever
/// the later tiers hold: the decision is made at index 0 and no later
/// candidate matters.
pub proof fn lemma_tier1_wins(
    name: Seq<char>,
    data_dir: Option<Seq<char>>,
    search_path: Option<Seq<char>>,
    present: Seq<bool>,
)
    requires
        present.len() == candidates_spec(name, data_dir, search_path).len(),
        present[0],
    ensures
        first_present(present) == Some(0int),
        resolution_spec(candidates_spec(name, data_dir, search_path), present) == Some(
            script_filename(name),
        ),
{
    assert(candidates_spec(name, data_dir, search_path)[0] == script_filename(name));
}

/// When the script is absent from every tier, resolution reports that
/// nothing was found; no candidate is returned.
pub proof fn lemma_absent_everywhere(cands: Seq<Seq<char>>, present: Seq<bool>)
    requires
        present.len() == cands.len(),
        forall|j: int| 0 <= j < present.len() ==> !present[j],
    ensures
        resolution_spec(cands, present) is None,
{
    lemma_first_present_none(present);
}

/// An in-progress resolution: the candidates in precedence order and how
/// many have been probed.  The caller probes one candidate at a time, so a
/// hit in an early tier means no later tier is ever consulted.
pub struct Resolver {
    candidates: Vec<String>,
    probed: usize,
    resolved: bool,
}

impl Resolver {
    /// The candidate locations, in precedence order.
    pub closed spec fn cands(self) -> Seq<Seq<char>> {
        views_of(self.candidates@)
    }

    /// How many candidates have been probed and found absent.
    pub closed spec fn probed_count(self) -> int {
        self.probed as int
    }

    /// Whether a candidate has already been found; once this holds, no
    /// further candidate may be probed.
    pub closed spec fn is_resolved(self) -> bool {
        self.resolved
    }

    pub open spec fn wf(self) -> bool {
        0 <= self.probed_count() <= self.cands().len()
    }

    /// A fresh resolution for `name` over the three tiers.
    pub fn new(name: &str, data_dir: Option<&str>, search_path: Option<&str>) -> (r: Resolver)
        ensures
            r.cands() == candidates_spec(
                name@,
                opt_str_view(data_dir),
                opt_str_view(search_path),
            ),
            r.probed_count() == 0,
            !r.is_resolved(),
            r.wf(),
    {
        Resolver {
            candidates: candidate_paths(name, data_dir, search_path),
            probed: 0,
            resolved: false,
        }
    }

    /// The location to probe next, or none when every candidate has been
    /// probed.
    pub fn next_candidate(&self) -> (r: Option<String>)
        requires
            self.wf(),
            !self.is_resolved(),
        ensures
            match r {
                Some(c) => self.probed_count() < self.cands().len() && c@
                    == self.cands()[self.probed_count()],
                None => self.probed_count() == self.cands().len(),
            },
    {
        if self.probed < self.candidates.len() {
            Some(self.candidates[self.probed].clone())
        } else {
            None
        }
    }

    /// Record whether the current candidate exists.  A present candidate
    /// resolves immediately — later candidates are never consulted — while
    /// an absent one moves on, reporting `NotFound` after the last.
    pub fn step(&mut self, found: bool) -> (r: Option<Resolution>)
        requires
            old(self).wf(),
            !old(self).is_resolved(),
            old(self).probed_count() < old(self).cands().len(),
        ensures
            final(self).wf(),
            final(self).cands() == old(self).cands(),
            final(self).probed_count() == old(self).probed_count() + 1,
            final(self).is_resolved() == found,
            found ==> match r {
                Some(Resolution::Found(p)) => p@ == old(self).cands()[old(self).probed_count()],
                _ => false,
            },
            !found && old(self).probed_count() + 1 < old(self).cands().len() ==> r is None,
            !found && old(self).probed_count() + 1 == old(self).cands().len() ==> r == Some(
                Resolution::NotFound,
            ),
    {
        proof {
            assert(old(self).cands().len() == old(self).candidates@.len());
        }
        let total = self.candidates.len();
        let current = self.candidates[self.probed].clone();
        self.probed = self.probed + 1;
        if found {
            self.resolved = true;
            Some(Resolution::Found(current))
        } else if self.probed == total {
            Some(Resolution::NotFound)
        } else {
            None
        }
    }
}

} // verus!
