//! The workspace path behind the encoded name of a Cursor project directory.
//!
//! Cursor encodes workspace paths by replacing every non-alphanumeric character with `-`,
//! collapsing runs, and trimming edges. The paths that a name can stand for are looked for on
//! disk, one segment of the name after the other.

use crate::paths::{
    file_name, join, opt_text, parent, spec_file_name, spec_join, spec_parent,
};
use crate::text::{
    byte_count, byte_len, concat, joined, law_pieces_join_to_the_text, same_text, split, split_on,
    starts_with, texts,
};
use vstd::prelude::*;

verus! {

/// How the disk is asked.
pub struct Disk<E, D, L> {
    /// Whether there is anything at a path.
    pub exists: E,
    /// Whether there is a directory at a path.
    pub is_dir: D,
    /// The names in a directory, where it can be read.
    pub names: L,
}

/// What is on disk.
pub struct DiskView {
    pub exists: spec_fn(Seq<char>) -> bool,
    pub is_dir: spec_fn(Seq<char>) -> bool,
    pub names: spec_fn(Seq<char>) -> Option<Seq<Seq<char>>>,
}

/// What a list of names says, where there is one.
pub open spec fn names_view(names: Option<Vec<String>>) -> Option<Seq<Seq<char>>> {
    match names {
        Some(v) => Some(texts(v@)),
        None => None,
    }
}

impl<E: Fn(&str) -> bool, D: Fn(&str) -> bool, L: Fn(&str) -> Option<Vec<String>>> Disk<E, D, L> {
    /// Whether the disk can be asked of any path.
    pub open spec fn answers(self) -> bool {
        &&& forall|p: &str| #[trigger] call_requires(self.exists, (p,))
        &&& forall|p: &str| #[trigger] call_requires(self.is_dir, (p,))
        &&& forall|p: &str| #[trigger] call_requires(self.names, (p,))
    }

    /// Whether every answer tells what `disk` holds.
    pub open spec fn tells(self, disk: DiskView) -> bool {
        &&& forall|p: &str, r: bool|
            #[trigger] call_ensures(self.exists, (p,), r) ==> r == (disk.exists)(p@)
        &&& forall|p: &str, r: bool|
            #[trigger] call_ensures(self.is_dir, (p,), r) ==> r == (disk.is_dir)(p@)
        &&& forall|p: &str, r: Option<Vec<String>>|
            #[trigger] call_ensures(self.names, (p,), r) ==> names_view(r) == (disk.names)(p@)
    }
}

/// Whether one of the names is longer than `prefix` and starts with it.
pub open spec fn has_longer_name(names: Seq<Seq<char>>, prefix: Seq<char>) -> bool {
    exists|i: int|
        0 <= i < names.len() && prefix.is_prefix_of(#[trigger] names[i]) && names[i] != prefix
}

/// Whether a path can lead to the one looked for. The whole path must exist; the beginning of
/// one must be a directory, or the beginning of a name in its parent directory.
pub open spec fn viable(disk: DiskView, prefix: Seq<char>, is_last: bool) -> bool {
    if is_last {
        (disk.exists)(prefix)
    } else {
        ||| (disk.is_dir)(prefix)
        ||| match (spec_parent(prefix), spec_file_name(prefix)) {
            (Some(dir), Some(name)) => (disk.is_dir)(dir) && ((disk.names)(dir) matches Some(names)
                && has_longer_name(names, name)),
            _ => false,
        }
    }
}

/// Whether one of the names is longer than `prefix` and starts with it.
fn any_longer_name(names: &Vec<String>, prefix: &str) -> (r: bool)
    ensures
        r == has_longer_name(texts(names@), prefix@),
{
    for i in 0..names.len()
        invariant
            forall|k: int|
                0 <= k < i ==> !(prefix@.is_prefix_of(#[trigger] texts(names@)[k])
                    && texts(names@)[k] != prefix@),
            texts(names@).len() == names@.len(),
    {
        assert(texts(names@)[i as int] == names@[i as int]@);
        if starts_with(names[i].as_str(), prefix) && !same_text(names[i].as_str(), prefix) {
            return true;
        }
    }
    false
}

/// Checks whether this accumulated path prefix could lead to a valid final path.
pub fn component_prefix_viable<
    E: Fn(&str) -> bool,
    D: Fn(&str) -> bool,
    L: Fn(&str) -> Option<Vec<String>>,
>(disk: &Disk<E, D, L>, prefix: &str, is_last: bool) -> (r: bool)
    requires
        disk.answers(),
    ensures
        forall|view: DiskView| #[trigger] disk.tells(view) ==> r == viable(view, prefix@, is_last),
{
    if is_last {
        return (disk.exists)(prefix);
    }
    if (disk.is_dir)(prefix) {
        return true;
    }
    // The path doesn't exist as a directory yet - it might be a partial component
    // name. Check if the parent dir has entries starting with this prefix.
    let Some(dir) = parent(prefix) else { return false };
    let Some(name) = file_name(prefix) else { return false };
    if !(disk.is_dir)(dir.as_str()) {
        return false;
    }
    let Some(names) = (disk.names)(dir.as_str()) else { return false };
    any_longer_name(&names, name.as_str())
}

/// The number of paths after which no more are looked for.
pub const MAX_CANDIDATES: usize = 8;

/// The paths found so far together with those that `candidate` leads to, where it is viable.
pub open spec fn attempt(
    disk: DiskView,
    segments: Seq<Seq<char>>,
    idx: nat,
    candidate: Seq<char>,
    results: Seq<Seq<char>>,
) -> Seq<Seq<char>>
    decreases segments.len() - idx, 0nat,
{
    if idx < segments.len() && viable(disk, candidate, idx == segments.len() - 1) {
        explore(disk, segments, idx + 1, candidate, results)
    } else {
        results
    }
}

/// The paths found so far together with those that continue `current` with the segments from
/// `idx` on. A hyphen between two segments can have been a `/`, a `.`, a space, a hyphen, or a
/// `/` and a `.`; the first segment is in the root directory.
pub open spec fn explore(
    disk: DiskView,
    segments: Seq<Seq<char>>,
    idx: nat,
    current: Seq<char>,
    results: Seq<Seq<char>>,
) -> Seq<Seq<char>>
    decreases segments.len() - idx, 1nat,
{
    if idx >= segments.len() {
        if (disk.exists)(current) {
            results.push(current)
        } else {
            results
        }
    } else if results.len() >= MAX_CANDIDATES {
        results
    } else if idx == 0 {
        attempt(disk, segments, idx, "/"@ + segments[0], results)
    } else {
        let segment = segments[idx as int];
        let r1 = attempt(disk, segments, idx, current + "/"@ + segment, results);
        let r2 = attempt(disk, segments, idx, current + "."@ + segment, r1);
        let r3 = attempt(disk, segments, idx, current + " "@ + segment, r2);
        let r4 = attempt(disk, segments, idx, current + "-"@ + segment, r3);
        attempt(disk, segments, idx, current + "/."@ + segment, r4)
    }
}

/// The paths that a list of segments can stand for.
pub open spec fn candidates_for(disk: DiskView, segments: Seq<Seq<char>>) -> Seq<Seq<char>> {
    explore(disk, segments, 0, "/"@, Seq::empty())
}

fn try_candidate<
    E: Fn(&str) -> bool,
    D: Fn(&str) -> bool,
    L: Fn(&str) -> Option<Vec<String>>,
>(
    disk: &Disk<E, D, L>,
    segments: &[String],
    idx: usize,
    current: &str,
    separator: &str,
    results: &mut Vec<String>,
)
    requires
        disk.answers(),
        idx < segments@.len(),
    ensures
        forall|view: DiskView| #[trigger]
            disk.tells(view) ==> texts(final(results)@) == attempt(
                view,
                texts(segments@),
                idx as nat,
                current@ + separator@ + segments@[idx as int]@,
                texts(old(results)@),
            ),
    decreases segments@.len() - idx, 0nat,
{
    let mut candidate: String = concat(current, separator);
    candidate.append(segments[idx].as_str());
    let is_last: bool = idx == segments.len() - 1;
    assert(texts(segments@).len() == segments@.len());
    if component_prefix_viable(disk, candidate.as_str(), is_last) {
        dfs_resolve(disk, segments, idx + 1, candidate, results);
    }
}

/// DFS over hyphen positions, trying each `-` as either a path separator (`/`)
/// or a literal character kept in the current path component. Also tries `.`
/// and ` ` since those are also encoded as `-`.
///
/// Prunes branches where the accumulated path prefix doesn't exist on disk.
pub fn dfs_resolve<
    E: Fn(&str) -> bool,
    D: Fn(&str) -> bool,
    L: Fn(&str) -> Option<Vec<String>>,
>(
    disk: &Disk<E, D, L>,
    segments: &[String],
    idx: usize,
    current: String,
    results: &mut Vec<String>,
)
    requires
        disk.answers(),
        idx <= segments@.len(),
    ensures
        forall|view: DiskView| #[trigger]
            disk.tells(view) ==> texts(final(results)@) == explore(
                view,
                texts(segments@),
                idx as nat,
                current@,
                texts(old(results)@),
            ),
    decreases segments@.len() - idx, 1nat,
{
    let ghost r0 = texts(results@);
    assert(texts(segments@).len() == segments@.len());
    assert(r0.len() == results@.len());
    if idx >= segments.len() {
        if (disk.exists)(current.as_str()) {
            results.push(current);
            assert(texts(results@) =~= r0.push(current@));
        }
        return;
    }
    if results.len() >= MAX_CANDIDATES {
        return;
    }
    if idx == 0 {
        try_candidate(disk, segments, idx, "", "/", results);
        proof {
            reveal_strlit("");
            assert(""@ + "/"@ + segments@[0]@ =~= "/"@ + segments@[0]@);
        }
        return;
    }
    // The hyphen was a `/` - start a new path component
    try_candidate(disk, segments, idx, current.as_str(), "/", results);
    // It was a `.` - common for hidden dirs and file extensions
    try_candidate(disk, segments, idx, current.as_str(), ".", results);
    // It was a space
    try_candidate(disk, segments, idx, current.as_str(), " ", results);
    // It was a literal `-` in the directory or file name
    try_candidate(disk, segments, idx, current.as_str(), "-", results);
    // It was a `/` followed by a `.` - hidden directory
    try_candidate(disk, segments, idx, current.as_str(), "/.", results);
}

/// The MD5 digest of a text in UTF-8, in lower-case hexadecimal.
pub uninterp spec fn md5_hex(text: Seq<char>) -> Seq<char>;

/// `md5::compute`, written out by its `LowerHex` form: the digest of the bytes of `text`. The
/// result depends on the text alone; which digest a given text has remains unsaid.
#[verifier::external_body]
pub(crate) fn md5_of(text: &str) -> (r: String)
    ensures
        r@ == md5_hex(text@),
{
    format!("{:x}", md5::compute(text.as_bytes()))
}

/// The first of the candidates, from `from` on, whose mark is the name of a directory in
/// `chats`.
pub open spec fn first_marked(
    disk: DiskView,
    chats: Seq<char>,
    candidates: Seq<Seq<char>>,
    marks: Seq<Seq<char>>,
    from: nat,
) -> Option<Seq<char>>
    decreases candidates.len() - from,
{
    if from >= candidates.len() {
        None
    } else if (disk.is_dir)(spec_join(chats, marks[from as int])) {
        Some(candidates[from as int])
    } else {
        first_marked(disk, chats, candidates, marks, from + 1)
    }
}

/// The longest, in bytes, of the first `n` candidates; of equally long ones the first.
pub open spec fn longest_among(candidates: Seq<Seq<char>>, n: nat) -> Seq<char>
    decreases n,
{
    if n <= 1 {
        candidates[0]
    } else {
        let best = longest_among(candidates, (n - 1) as nat);
        if byte_len(candidates[n - 1]) > byte_len(best) {
            candidates[n - 1]
        } else {
            best
        }
    }
}

/// The candidate that is taken: the only one; else the first whose mark is a directory of
/// chats; else the longest.
pub open spec fn picked(
    disk: DiskView,
    chats: Option<Seq<char>>,
    candidates: Seq<Seq<char>>,
    marks: Seq<Seq<char>>,
) -> Option<Seq<char>> {
    if candidates.len() == 0 {
        None
    } else if candidates.len() == 1 {
        Some(candidates[0])
    } else {
        let marked = match chats {
            Some(dir) => if (disk.is_dir)(dir) {
                first_marked(disk, dir, candidates, marks, 0)
            } else {
                None
            },
            None => None,
        };
        match marked {
            Some(c) => Some(c),
            None => Some(longest_among(candidates, candidates.len())),
        }
    }
}

fn find_marked<E: Fn(&str) -> bool, D: Fn(&str) -> bool, L: Fn(&str) -> Option<Vec<String>>>(
    disk: &Disk<E, D, L>,
    chats: &str,
    candidates: &Vec<String>,
    marks: &Vec<String>,
) -> (r: Option<String>)
    requires
        disk.answers(),
        marks@.len() == candidates@.len(),
    ensures
        forall|view: DiskView| #[trigger]
            disk.tells(view) ==> opt_text(r) == first_marked(
                view,
                chats@,
                texts(candidates@),
                texts(marks@),
                0,
            ),
{
    for i in 0..candidates.len()
        invariant
            disk.answers(),
            marks@.len() == candidates@.len(),
            forall|view: DiskView| #[trigger]
                disk.tells(view) ==> first_marked(
                    view,
                    chats@,
                    texts(candidates@),
                    texts(marks@),
                    0,
                ) == first_marked(view, chats@, texts(candidates@), texts(marks@), i as nat),
    {
        let dir: String = join(chats, marks[i].as_str());
        if (disk.is_dir)(dir.as_str()) {
            return Some(candidates[i].clone());
        }
    }
    None
}

fn find_longest(candidates: &Vec<String>) -> (r: String)
    requires
        candidates@.len() > 0,
    ensures
        r@ == longest_among(texts(candidates@), candidates@.len()),
{
    let mut best: usize = 0;
    for i in 1..candidates.len()
        invariant
            best < candidates@.len(),
            candidates@[best as int]@ == longest_among(texts(candidates@), i as nat),
    {
        if byte_count(candidates[i].as_str()) > byte_count(candidates[best].as_str()) {
            best = i;
        }
    }
    candidates[best].clone()
}

/// The candidate that is taken. `marks` are the names that the candidates' directories of chats
/// would have.
pub fn pick_candidate<
    E: Fn(&str) -> bool,
    D: Fn(&str) -> bool,
    L: Fn(&str) -> Option<Vec<String>>,
>(
    disk: &Disk<E, D, L>,
    chats_dir: &Option<String>,
    candidates: Vec<String>,
    marks: Vec<String>,
) -> (r: Option<String>)
    requires
        disk.answers(),
        marks@.len() == candidates@.len(),
    ensures
        forall|view: DiskView| #[trigger]
            disk.tells(view) ==> opt_text(r) == picked(
                view,
                opt_text(*chats_dir),
                texts(candidates@),
                texts(marks@),
            ),
{
    assert(texts(candidates@).len() == candidates@.len());
    if candidates.len() == 0 {
        return None;
    }
    if candidates.len() == 1 {
        return Some(candidates[0].clone());
    }
    // Check which candidate has a matching chats directory
    if let Some(dir) = chats_dir {
        if (disk.is_dir)(dir.as_str()) {
            let marked: Option<String> = find_marked(disk, dir.as_str(), &candidates, &marks);
            if marked.is_some() {
                return marked;
            }
        }
    }
    // Fall back to the longest path (most specific)
    Some(find_longest(&candidates))
}

/// The marks of candidates.
pub open spec fn marks_of(candidates: Seq<Seq<char>>) -> Seq<Seq<char>> {
    candidates.map_values(|c: Seq<char>| md5_hex(c))
}

/// The workspace path behind an encoded name.
pub open spec fn workspace_of(disk: DiskView, encoded: Seq<char>, chats: Option<Seq<char>>)
    -> Option<Seq<char>> {
    if encoded.len() == 0 {
        None
    } else {
        let candidates = candidates_for(disk, split_on(encoded, '-'));
        picked(disk, chats, candidates, marks_of(candidates))
    }
}

fn mark_all(candidates: &Vec<String>) -> (r: Vec<String>)
    ensures
        texts(r@) == marks_of(texts(candidates@)),
        r@.len() == candidates@.len(),
{
    let mut marks: Vec<String> = Vec::new();
    for i in 0..candidates.len()
        invariant
            marks@.len() == i,
            forall|k: int| 0 <= k < i ==> (#[trigger] marks@[k])@ == md5_hex(candidates@[k]@),
    {
        marks.push(md5_of(candidates[i].as_str()));
    }
    assert(texts(marks@) =~= marks_of(texts(candidates@)));
    marks
}

/// Reconstructs the workspace path from the encoded project directory name. If several paths
/// can be meant, the MD5 hashes that name the directories of chats decide.
pub fn resolve_workspace_path<
    E: Fn(&str) -> bool,
    D: Fn(&str) -> bool,
    L: Fn(&str) -> Option<Vec<String>>,
>(disk: &Disk<E, D, L>, encoded_dir_name: &str, chats_dir: &Option<String>) -> (r: Option<String>)
    requires
        disk.answers(),
    ensures
        forall|view: DiskView| #[trigger]
            disk.tells(view) ==> opt_text(r) == workspace_of(
                view,
                encoded_dir_name@,
                opt_text(*chats_dir),
            ),
{
    if encoded_dir_name.unicode_len() == 0 {
        return None;
    }
    let segments: Vec<String> = split(encoded_dir_name, '-');
    let mut candidates: Vec<String> = Vec::new();
    assert(texts(candidates@) =~= Seq::<Seq<char>>::empty());
    dfs_resolve(disk, segments.as_slice(), 0, "/".to_owned(), &mut candidates);
    let marks: Vec<String> = mark_all(&candidates);
    pick_candidate(disk, chats_dir, candidates, marks)
}

// What holds of the paths that are found

pub open spec fn all_exist(disk: DiskView, paths: Seq<Seq<char>>) -> bool {
    forall|i: int| 0 <= i < paths.len() ==> (disk.exists)(#[trigger] paths[i])
}

proof fn lemma_attempt_exists(
    disk: DiskView,
    segments: Seq<Seq<char>>,
    idx: nat,
    candidate: Seq<char>,
    results: Seq<Seq<char>>,
)
    requires
        all_exist(disk, results),
    ensures
        all_exist(disk, attempt(disk, segments, idx, candidate, results)),
    decreases segments.len() - idx, 0nat,
{
    if idx < segments.len() && viable(disk, candidate, idx == segments.len() - 1) {
        lemma_explore_exists(disk, segments, idx + 1, candidate, results);
    }
}

proof fn lemma_explore_exists(
    disk: DiskView,
    segments: Seq<Seq<char>>,
    idx: nat,
    current: Seq<char>,
    results: Seq<Seq<char>>,
)
    requires
        all_exist(disk, results),
    ensures
        all_exist(disk, explore(disk, segments, idx, current, results)),
    decreases segments.len() - idx, 1nat,
{
    if idx >= segments.len() || results.len() >= MAX_CANDIDATES {
    } else if idx == 0 {
        lemma_attempt_exists(disk, segments, idx, "/"@ + segments[0], results);
    } else {
        let segment = segments[idx as int];
        let r1 = attempt(disk, segments, idx, current + "/"@ + segment, results);
        let r2 = attempt(disk, segments, idx, current + "."@ + segment, r1);
        let r3 = attempt(disk, segments, idx, current + " "@ + segment, r2);
        let r4 = attempt(disk, segments, idx, current + "-"@ + segment, r3);
        lemma_attempt_exists(disk, segments, idx, current + "/"@ + segment, results);
        lemma_attempt_exists(disk, segments, idx, current + "."@ + segment, r1);
        lemma_attempt_exists(disk, segments, idx, current + " "@ + segment, r2);
        lemma_attempt_exists(disk, segments, idx, current + "-"@ + segment, r3);
        lemma_attempt_exists(disk, segments, idx, current + "/."@ + segment, r4);
    }
}

proof fn lemma_first_marked(
    disk: DiskView,
    chats: Seq<char>,
    candidates: Seq<Seq<char>>,
    marks: Seq<Seq<char>>,
    from: nat,
)
    ensures
        first_marked(disk, chats, candidates, marks, from) matches Some(c)
            ==> candidates.contains(c),
    decreases candidates.len() - from,
{
    if from < candidates.len() {
        lemma_first_marked(disk, chats, candidates, marks, from + 1);
    }
}

proof fn lemma_longest_among(candidates: Seq<Seq<char>>, n: nat)
    requires
        0 < n <= candidates.len(),
    ensures
        candidates.contains(longest_among(candidates, n)),
        forall|i: int|
            0 <= i < n ==> byte_len(#[trigger] candidates[i]) <= byte_len(
                longest_among(candidates, n),
            ),
    decreases n,
{
    if n > 1 {
        lemma_longest_among(candidates, (n - 1) as nat);
    }
}

/// The path that is taken is one of the candidates.
pub proof fn law_picked_is_a_candidate(
    disk: DiskView,
    chats: Option<Seq<char>>,
    candidates: Seq<Seq<char>>,
    marks: Seq<Seq<char>>,
)
    ensures
        picked(disk, chats, candidates, marks) is Some <==> candidates.len() > 0,
        picked(disk, chats, candidates, marks) matches Some(c) ==> candidates.contains(c),
{
    if candidates.len() > 0 {
        assert(candidates.contains(candidates[0]));
        lemma_longest_among(candidates, candidates.len());
        match chats {
            Some(dir) => {
                lemma_first_marked(disk, dir, candidates, marks, 0);
            },
            None => {},
        }
    }
}

/// A workspace path that is found exists.
pub proof fn law_workspace_exists(disk: DiskView, encoded: Seq<char>, chats: Option<Seq<char>>)
    ensures
        workspace_of(disk, encoded, chats) matches Some(path) ==> (disk.exists)(path),
{
    if encoded.len() > 0 {
        let segments = split_on(encoded, '-');
        let candidates = candidates_for(disk, segments);
        lemma_explore_exists(disk, segments, 0, "/"@, Seq::empty());
        law_picked_is_a_candidate(disk, chats, candidates, marks_of(candidates));
    }
}

/// A class of characters, such as the letters and digits.
pub type CharClass = spec_fn(char) -> bool;

/// Whether the encoding of a path keeps a character.
pub open spec fn is_kept(keep: CharClass, c: char) -> bool {
    keep(c)
}

/// Whether the encoding keeps none of the characters that stand between segments.
pub open spec fn drops_separators(keep: CharClass) -> bool {
    !is_kept(keep, '/') && !is_kept(keep, '.') && !is_kept(keep, ' ') && !is_kept(keep, '-')
}

/// The length of the run of kept characters that a text ends with.
pub open spec fn last_run(keep: CharClass, s: Seq<char>) -> nat
    decreases s.len(),
{
    if s.len() > 0 && is_kept(keep, s.last()) {
        1 + last_run(keep, s.drop_last())
    } else {
        0
    }
}

/// The runs of kept characters in a text.
pub open spec fn runs(keep: CharClass, s: Seq<char>) -> Seq<Seq<char>>
    decreases s.len(),
{
    let k = last_run(keep, s);
    if s.len() == 0 {
        Seq::empty()
    } else if k == 0 || k > s.len() {
        runs(keep, s.drop_last())
    } else {
        runs(keep, s.take(s.len() - k)).push(s.skip(s.len() - k))
    }
}

/// The name that a path is encoded by: every run of characters that are not kept becomes a
/// hyphen, except at the edges, where it is dropped.
pub open spec fn encoded_name(keep: CharClass, path: Seq<char>) -> Seq<char> {
    joined(runs(keep, path), seq!['-'])
}

/// Whether a segment is a run of kept characters.
pub open spec fn is_run(keep: CharClass, segment: Seq<char>) -> bool {
    segment.len() > 0 && forall|i: int|
        0 <= i < segment.len() ==> is_kept(keep, #[trigger] segment[i])
}

/// Whether a separator holds no kept character.
pub open spec fn is_gap(keep: CharClass, separator: Seq<char>) -> bool {
    separator.len() > 0 && forall|i: int|
        0 <= i < separator.len() ==> !is_kept(keep, #[trigger] separator[i])
}

proof fn lemma_last_run_after_gap(keep: CharClass, front: Seq<char>, segment: Seq<char>)
    requires
        front.len() == 0 || !is_kept(keep, front.last()),
        forall|i: int| 0 <= i < segment.len() ==> is_kept(keep, #[trigger] segment[i]),
    ensures
        last_run(keep, front + segment) == segment.len(),
    decreases segment.len(),
{
    let s = front + segment;
    if segment.len() == 0 {
        assert(s =~= front);
    } else {
        assert(s.last() == segment.last());
        assert(is_kept(keep, segment[segment.len() - 1]));
        assert(s.drop_last() =~= front + segment.drop_last());
        assert forall|i: int| 0 <= i < segment.drop_last().len() implies is_kept(
            keep,
            #[trigger] segment.drop_last()[i],
        ) by {
            assert(is_kept(keep, segment[i]));
        }
        lemma_last_run_after_gap(keep, front, segment.drop_last());
    }
}

proof fn lemma_runs_before_gap(keep: CharClass, s: Seq<char>, gap: Seq<char>)
    requires
        forall|i: int| 0 <= i < gap.len() ==> !is_kept(keep, #[trigger] gap[i]),
    ensures
        runs(keep, s + gap) == runs(keep, s),
    decreases gap.len(),
{
    if gap.len() == 0 {
        assert(s + gap =~= s);
    } else {
        assert((s + gap).last() == gap[gap.len() - 1]);
        assert((s + gap).drop_last() =~= s + gap.drop_last());
        assert forall|i: int| 0 <= i < gap.drop_last().len() implies !is_kept(
            keep,
            #[trigger] gap.drop_last()[i],
        ) by {
            assert(!is_kept(keep, gap[i]));
        }
        lemma_runs_before_gap(keep, s, gap.drop_last());
    }
}

/// A separator and a segment put behind a text add one run to its runs.
proof fn lemma_runs_of_longer(keep: CharClass, s: Seq<char>, gap: Seq<char>, segment: Seq<char>)
    requires
        is_gap(keep, gap),
        is_run(keep, segment),
    ensures
        runs(keep, s + gap + segment) == runs(keep, s).push(segment),
{
    let front = s + gap;
    let all = front + segment;
    assert(front.last() == gap[gap.len() - 1]);
    lemma_last_run_after_gap(keep, front, segment);
    assert(all.take(all.len() - segment.len()) =~= front);
    assert(all.skip(all.len() - segment.len()) =~= segment);
    lemma_runs_before_gap(keep, s, gap);
}

pub open spec fn all_runs(keep: CharClass, segments: Seq<Seq<char>>) -> bool {
    forall|i: int| 0 <= i < segments.len() ==> is_run(keep, #[trigger] segments[i])
}

pub open spec fn all_have_runs(
    keep: CharClass,
    paths: Seq<Seq<char>>,
    segments: Seq<Seq<char>>,
) -> bool {
    forall|i: int| 0 <= i < paths.len() ==> runs(keep, #[trigger] paths[i]) == segments
}

/// A viable candidate is explored, and another one leads nowhere.
proof fn lemma_attempt_unfolds(
    disk: DiskView,
    segments: Seq<Seq<char>>,
    idx: nat,
    candidate: Seq<char>,
    results: Seq<Seq<char>>,
)
    requires
        idx < segments.len(),
    ensures
        attempt(disk, segments, idx, candidate, results) == (if viable(
            disk,
            candidate,
            idx == segments.len() - 1,
        ) {
            explore(disk, segments, idx + 1, candidate, results)
        } else {
            results
        }),
{
}

/// A candidate has the runs of the segments that it is made of.
proof fn lemma_candidate_runs(
    keep: CharClass,
    segments: Seq<Seq<char>>,
    idx: nat,
    current: Seq<char>,
    gap: Seq<char>,
)
    requires
        all_runs(keep, segments),
        idx < segments.len(),
        is_gap(keep, gap),
        runs(keep, current) == segments.take(idx as int),
    ensures
        runs(keep, current + gap + segments[idx as int]) == segments.take((idx + 1) as int),
{
    assert(is_run(keep, segments[idx as int]));
    lemma_runs_of_longer(keep, current, gap, segments[idx as int]);
    assert(segments.take((idx + 1) as int) =~= segments.take(idx as int).push(
        segments[idx as int],
    ));
}

proof fn lemma_attempt_runs(
    keep: CharClass,
    disk: DiskView,
    segments: Seq<Seq<char>>,
    idx: nat,
    current: Seq<char>,
    gap: Seq<char>,
    results: Seq<Seq<char>>,
)
    requires
        drops_separators(keep),
        all_runs(keep, segments),
        idx < segments.len(),
        is_gap(keep, gap),
        runs(keep, current) == segments.take(idx as int),
        all_have_runs(keep, results, segments),
    ensures
        all_have_runs(
            keep,
            attempt(disk, segments, idx, current + gap + segments[idx as int], results),
            segments,
        ),
    decreases segments.len() - idx, 0nat,
{
    let candidate = current + gap + segments[idx as int];
    lemma_attempt_unfolds(disk, segments, idx, candidate, results);
    lemma_candidate_runs(keep, segments, idx, current, gap);
    if viable(disk, candidate, idx == segments.len() - 1) {
        lemma_explore_runs(keep, disk, segments, idx + 1, candidate, results);
    }
}

proof fn lemma_separators_are_gaps(keep: CharClass)
    requires
        drops_separators(keep),
    ensures
        is_gap(keep, "/"@),
        is_gap(keep, "."@),
        is_gap(keep, " "@),
        is_gap(keep, "-"@),
        is_gap(keep, "/."@),
{
    reveal_strlit("/");
    reveal_strlit(".");
    reveal_strlit(" ");
    reveal_strlit("-");
    reveal_strlit("/.");
}

proof fn lemma_explore_runs(
    keep: CharClass,
    disk: DiskView,
    segments: Seq<Seq<char>>,
    idx: nat,
    current: Seq<char>,
    results: Seq<Seq<char>>,
)
    requires
        drops_separators(keep),
        all_runs(keep, segments),
        idx <= segments.len(),
        idx == 0 || runs(keep, current) == segments.take(idx as int),
        segments.len() > 0,
        all_have_runs(keep, results, segments),
    ensures
        all_have_runs(keep, explore(disk, segments, idx, current, results), segments),
    decreases segments.len() - idx, 1nat,
{
    lemma_separators_are_gaps(keep);
    if idx >= segments.len() {
        assert(segments.take(idx as int) =~= segments);
    } else if results.len() >= MAX_CANDIDATES {
    } else if idx == 0 {
        let nothing = Seq::<char>::empty();
        assert(segments.take(0) =~= Seq::<Seq<char>>::empty());
        lemma_attempt_runs(keep, disk, segments, idx, nothing, "/"@, results);
        assert(nothing + "/"@ + segments[0] =~= "/"@ + segments[0]);
    } else {
        let segment = segments[idx as int];
        let r1 = attempt(disk, segments, idx, current + "/"@ + segment, results);
        let r2 = attempt(disk, segments, idx, current + "."@ + segment, r1);
        let r3 = attempt(disk, segments, idx, current + " "@ + segment, r2);
        let r4 = attempt(disk, segments, idx, current + "-"@ + segment, r3);
        lemma_attempt_runs(keep, disk, segments, idx, current, "/"@, results);
        lemma_attempt_runs(keep, disk, segments, idx, current, "."@, r1);
        lemma_attempt_runs(keep, disk, segments, idx, current, " "@, r2);
        lemma_attempt_runs(keep, disk, segments, idx, current, "-"@, r3);
        lemma_attempt_runs(keep, disk, segments, idx, current, "/."@, r4);
    }
}

/// A workspace path that is found is encoded by the name it was found for. This holds of the
/// names that paths are encoded by: runs of kept characters with single hyphens between them,
/// whichever characters are kept, such as all that are alphanumeric.
pub proof fn law_workspace_encodes_to_the_name(
    keep: CharClass,
    disk: DiskView,
    encoded: Seq<char>,
    chats: Option<Seq<char>>,
)
    requires
        drops_separators(keep),
        all_runs(keep, split_on(encoded, '-')),
    ensures
        workspace_of(disk, encoded, chats) matches Some(path) ==> encoded_name(keep, path)
            == encoded,
{
    if encoded.len() > 0 {
        let segments = split_on(encoded, '-');
        let candidates = candidates_for(disk, segments);
        law_pieces_join_to_the_text(encoded, '-');
        lemma_explore_runs(keep, disk, segments, 0, "/"@, Seq::empty());
        law_picked_is_a_candidate(disk, chats, candidates, marks_of(candidates));
    }
}

/// What a hyphen between two segments can have been.
pub open spec fn is_separator(separator: Seq<char>) -> bool {
    ||| separator == "/"@
    ||| separator == "."@
    ||| separator == " "@
    ||| separator == "-"@
    ||| separator == "/."@
}

/// The path that the first `n` segments make with the given separators between them.
pub open spec fn path_of(segments: Seq<Seq<char>>, separators: Seq<Seq<char>>, n: nat) -> Seq<char>
    decreases n,
{
    if n <= 1 {
        "/"@ + segments[0]
    } else {
        path_of(segments, separators, (n - 1) as nat) + separators[n - 2] + segments[n - 1]
    }
}

proof fn lemma_attempt_extends(
    disk: DiskView,
    segments: Seq<Seq<char>>,
    idx: nat,
    candidate: Seq<char>,
    results: Seq<Seq<char>>,
)
    ensures
        results.is_prefix_of(attempt(disk, segments, idx, candidate, results)),
    decreases segments.len() - idx, 0nat,
{
    if idx < segments.len() && viable(disk, candidate, idx == segments.len() - 1) {
        lemma_explore_extends(disk, segments, idx + 1, candidate, results);
    } else {
        assert(results.subrange(0, results.len() as int) =~= results);
    }
}

proof fn lemma_prefix_of_longer(a: Seq<Seq<char>>, b: Seq<Seq<char>>, c: Seq<Seq<char>>)
    requires
        a.is_prefix_of(b),
        b.is_prefix_of(c),
    ensures
        a.is_prefix_of(c),
{
    assert(a =~= c.subrange(0, a.len() as int)) by {
        assert forall|i: int| 0 <= i < a.len() implies a[i] == c[i] by {
            assert(a[i] == b.subrange(0, a.len() as int)[i]);
            assert(b[i] == c.subrange(0, b.len() as int)[i]);
        }
    }
}

proof fn lemma_explore_extends(
    disk: DiskView,
    segments: Seq<Seq<char>>,
    idx: nat,
    current: Seq<char>,
    results: Seq<Seq<char>>,
)
    ensures
        results.is_prefix_of(explore(disk, segments, idx, current, results)),
    decreases segments.len() - idx, 1nat,
{
    assert(results.subrange(0, results.len() as int) =~= results);
    if idx >= segments.len() {
        assert(results.push(current).subrange(0, results.len() as int) =~= results);
    } else if results.len() >= MAX_CANDIDATES {
    } else if idx == 0 {
        lemma_attempt_extends(disk, segments, idx, "/"@ + segments[0], results);
    } else {
        let segment = segments[idx as int];
        let r1 = attempt(disk, segments, idx, current + "/"@ + segment, results);
        let r2 = attempt(disk, segments, idx, current + "."@ + segment, r1);
        let r3 = attempt(disk, segments, idx, current + " "@ + segment, r2);
        let r4 = attempt(disk, segments, idx, current + "-"@ + segment, r3);
        let r5 = attempt(disk, segments, idx, current + "/."@ + segment, r4);
        lemma_attempt_extends(disk, segments, idx, current + "/"@ + segment, results);
        lemma_attempt_extends(disk, segments, idx, current + "."@ + segment, r1);
        lemma_attempt_extends(disk, segments, idx, current + " "@ + segment, r2);
        lemma_attempt_extends(disk, segments, idx, current + "-"@ + segment, r3);
        lemma_attempt_extends(disk, segments, idx, current + "/."@ + segment, r4);
        lemma_prefix_of_longer(results, r1, r2);
        lemma_prefix_of_longer(results, r2, r3);
        lemma_prefix_of_longer(results, r3, r4);
        lemma_prefix_of_longer(results, r4, r5);
    }
}

/// Whether a list of paths holds `target`, or is as long as it gets.
pub open spec fn found_or_full(results: Seq<Seq<char>>, target: Seq<char>) -> bool {
    results.contains(target) || results.len() >= MAX_CANDIDATES
}

proof fn lemma_found_stays(a: Seq<Seq<char>>, b: Seq<Seq<char>>, target: Seq<char>)
    requires
        a.is_prefix_of(b),
        found_or_full(a, target),
    ensures
        found_or_full(b, target),
{
    if a.contains(target) {
        let i = choose|i: int| 0 <= i < a.len() && a[i] == target;
        assert(b.subrange(0, a.len() as int)[i] == b[i]);
        assert(b[i] == target);
    }
}

/// Whether every beginning of the path that the segments and separators make is viable, and the
/// path itself exists.
pub open spec fn is_reachable(
    disk: DiskView,
    segments: Seq<Seq<char>>,
    separators: Seq<Seq<char>>,
) -> bool {
    &&& segments.len() > 0
    &&& separators.len() == segments.len() - 1
    &&& forall|i: int| 0 <= i < separators.len() ==> is_separator(#[trigger] separators[i])
    &&& forall|n: nat|
        1 <= n <= segments.len() ==> viable(
            disk,
            #[trigger] path_of(segments, separators, n),
            n == segments.len(),
        )
}

proof fn lemma_explore_finds(
    disk: DiskView,
    segments: Seq<Seq<char>>,
    separators: Seq<Seq<char>>,
    idx: nat,
    results: Seq<Seq<char>>,
)
    requires
        is_reachable(disk, segments, separators),
        1 <= idx <= segments.len(),
    ensures
        found_or_full(
            explore(disk, segments, idx, path_of(segments, separators, idx), results),
            path_of(segments, separators, segments.len()),
        ),
    decreases segments.len() - idx,
{
    let current = path_of(segments, separators, idx);
    let target = path_of(segments, separators, segments.len());
    if idx == segments.len() {
        assert(viable(disk, path_of(segments, separators, idx), true));
        let all = results.push(current);
        assert(all[results.len() as int] == target);
    } else if results.len() < MAX_CANDIDATES {
        let segment = segments[idx as int];
        let r1 = attempt(disk, segments, idx, current + "/"@ + segment, results);
        let r2 = attempt(disk, segments, idx, current + "."@ + segment, r1);
        let r3 = attempt(disk, segments, idx, current + " "@ + segment, r2);
        let r4 = attempt(disk, segments, idx, current + "-"@ + segment, r3);
        let r5 = attempt(disk, segments, idx, current + "/."@ + segment, r4);
        lemma_attempt_extends(disk, segments, idx, current + "."@ + segment, r1);
        lemma_attempt_extends(disk, segments, idx, current + " "@ + segment, r2);
        lemma_attempt_extends(disk, segments, idx, current + "-"@ + segment, r3);
        lemma_attempt_extends(disk, segments, idx, current + "/."@ + segment, r4);
        let separator = separators[idx - 1];
        assert(is_separator(separator));
        let next = path_of(segments, separators, idx + 1);
        assert(next == current + separator + segment);
        assert(viable(disk, next, idx + 1 == segments.len()));
        if separator == "/"@ {
            lemma_explore_finds(disk, segments, separators, idx + 1, results);
            lemma_found_stays(r1, r2, target);
            lemma_found_stays(r2, r3, target);
            lemma_found_stays(r3, r4, target);
            lemma_found_stays(r4, r5, target);
        } else if separator == "."@ {
            lemma_explore_finds(disk, segments, separators, idx + 1, r1);
            lemma_found_stays(r2, r3, target);
            lemma_found_stays(r3, r4, target);
            lemma_found_stays(r4, r5, target);
        } else if separator == " "@ {
            lemma_explore_finds(disk, segments, separators, idx + 1, r2);
            lemma_found_stays(r3, r4, target);
            lemma_found_stays(r4, r5, target);
        } else if separator == "-"@ {
            lemma_explore_finds(disk, segments, separators, idx + 1, r3);
            lemma_found_stays(r4, r5, target);
        } else {
            lemma_explore_finds(disk, segments, separators, idx + 1, r4);
        }
    }
}

/// A path on disk that a list of segments can stand for is among the candidates, unless there
/// are so many that the search stops.
pub proof fn law_existing_path_is_found(
    disk: DiskView,
    segments: Seq<Seq<char>>,
    separators: Seq<Seq<char>>,
)
    requires
        is_reachable(disk, segments, separators),
    ensures
        found_or_full(
            candidates_for(disk, segments),
            path_of(segments, separators, segments.len()),
        ),
{
    let first = path_of(segments, separators, 1);
    assert(first == "/"@ + segments[0]);
    assert(viable(disk, first, 1 == segments.len()));
    lemma_explore_finds(disk, segments, separators, 1, Seq::empty());
}

proof fn lemma_first_marked_is_first(
    disk: DiskView,
    chats: Seq<char>,
    candidates: Seq<Seq<char>>,
    marks: Seq<Seq<char>>,
    from: nat,
)
    requires
        from <= candidates.len(),
    ensures
        match first_marked(disk, chats, candidates, marks, from) {
            Some(c) => exists|k: int|
                from <= k < candidates.len() && #[trigger] candidates[k] == c && (disk.is_dir)(
                    spec_join(chats, marks[k]),
                ) && forall|j: int|
                    from <= j < k ==> !(disk.is_dir)(spec_join(chats, #[trigger] marks[j])),
            None => forall|j: int|
                from <= j < candidates.len() ==> !(disk.is_dir)(
                    spec_join(chats, #[trigger] marks[j]),
                ),
        },
    decreases candidates.len() - from,
{
    if from < candidates.len() {
        if (disk.is_dir)(spec_join(chats, marks[from as int])) {
            assert(candidates[from as int] == first_marked(
                disk,
                chats,
                candidates,
                marks,
                from,
            )->0);
        } else {
            lemma_first_marked_is_first(disk, chats, candidates, marks, from + 1);
            match first_marked(disk, chats, candidates, marks, from + 1) {
                Some(c) => {
                    let k = choose|k: int|
                        from + 1 <= k < candidates.len() && #[trigger] candidates[k] == c && (
                        disk.is_dir)(spec_join(chats, marks[k])) && forall|j: int|
                            from + 1 <= j < k ==> !(disk.is_dir)(
                                spec_join(chats, #[trigger] marks[j]),
                            );
                    assert(candidates[k] == c);
                },
                None => {},
            }
        }
    }
}

/// Of several paths that a name can stand for, the first one that chats were held in is taken,
/// and where no chats tell, the longest; the only one is taken without asking.
pub proof fn law_chats_decide_between_paths(
    disk: DiskView,
    chats: Option<Seq<char>>,
    candidates: Seq<Seq<char>>,
    marks: Seq<Seq<char>>,
)
    requires
        marks.len() == candidates.len(),
    ensures
        candidates.len() == 0 ==> picked(disk, chats, candidates, marks) is None,
        candidates.len() == 1 ==> picked(disk, chats, candidates, marks) == Some(candidates[0]),
        candidates.len() > 1 ==> {
            let taken = picked(disk, chats, candidates, marks)->0;
            let told = chats is Some && (disk.is_dir)(chats->0) && exists|j: int|
                0 <= j < marks.len() && (disk.is_dir)(spec_join(chats->0, #[trigger] marks[j]));
            &&& told ==> exists|k: int|
                0 <= k < candidates.len() && #[trigger] candidates[k] == taken && (disk.is_dir)(
                    spec_join(chats->0, marks[k]),
                ) && forall|j: int|
                    0 <= j < k ==> !(disk.is_dir)(spec_join(chats->0, #[trigger] marks[j]))
            &&& !told ==> forall|i: int|
                0 <= i < candidates.len() ==> byte_len(#[trigger] candidates[i]) <= byte_len(
                    taken,
                )
            &&& candidates.contains(taken)
        },
{
    law_picked_is_a_candidate(disk, chats, candidates, marks);
    if candidates.len() > 1 {
        lemma_longest_among(candidates, candidates.len());
        match chats {
            Some(dir) => {
                lemma_first_marked_is_first(disk, dir, candidates, marks, 0);
            },
            None => {},
        }
    }
}

/// The whole path must exist; the beginning of one leads on where it is a directory, or where a
/// longer name in its directory begins with its name, and nowhere else.
pub proof fn law_beginnings_that_lead_on(
    disk: DiskView,
    prefix: Seq<char>,
    dir: Seq<char>,
    name: Seq<char>,
    names: Seq<Seq<char>>,
)
    ensures
        viable(disk, prefix, true) <==> (disk.exists)(prefix),
        (disk.is_dir)(prefix) ==> viable(disk, prefix, false),
        spec_parent(prefix) == Some(dir) && spec_file_name(prefix) == Some(name) && !(disk.is_dir)(
            prefix,
        ) && (disk.names)(dir) == Some(names) ==> (viable(disk, prefix, false) <==> (disk.is_dir)(
            dir,
        ) && exists|i: int|
            0 <= i < names.len() && name.is_prefix_of(#[trigger] names[i]) && names[i] != name),
        !(disk.is_dir)(prefix) && spec_parent(prefix) is None ==> !viable(disk, prefix, false),
{
}

/// A workspace whose path can be found on disk segment by segment is found by its encoded name,
/// or another one is that the name stands for, too.
pub proof fn law_workspaces_are_found_by_their_name(
    disk: DiskView,
    segments: Seq<Seq<char>>,
    separators: Seq<Seq<char>>,
    chats: Option<Seq<char>>,
)
    requires
        is_reachable(disk, segments, separators),
        joined(segments, seq!['-']).len() > 0,
        forall|k: int| 0 <= k < segments.len() ==> !(#[trigger] segments[k]).contains('-'),
    ensures
        workspace_of(disk, joined(segments, seq!['-']), chats) is Some,
        candidates_for(disk, segments).contains(path_of(segments, separators, segments.len()))
            || candidates_for(disk, segments).len() >= 8,
        candidates_for(disk, segments) == seq![path_of(segments, separators, segments.len())]
            ==> workspace_of(disk, joined(segments, seq!['-']), chats) == Some(
            path_of(segments, separators, segments.len()),
        ),
{
    crate::text::law_joined_pieces_are_split_again(segments, '-');
    law_existing_path_is_found(disk, segments, separators);
    let candidates = candidates_for(disk, segments);
    law_picked_is_a_candidate(disk, chats, candidates, marks_of(candidates));
}

/// Of equally long paths the first is taken where the chats do not decide, and the mark of a path
/// is its digest.
pub proof fn law_first_of_the_longest_is_taken(
    disk: DiskView,
    candidates: Seq<Seq<char>>,
    marks: Seq<Seq<char>>,
)
    requires
        candidates.len() > 0,
    ensures
        marks_of(candidates).len() == candidates.len(),
        forall|i: int|
            0 <= i < candidates.len() ==> #[trigger] marks_of(candidates)[i] == md5_hex(
                candidates[i],
            ),
        exists|k: int|
            0 <= k < candidates.len() && picked(disk, None, candidates, marks) == Some(
                #[trigger] candidates[k],
            ) && forall|j: int|
                0 <= j < k ==> byte_len(#[trigger] candidates[j]) < byte_len(candidates[k]),
{
    lemma_first_of_the_longest(candidates, candidates.len());
}

proof fn lemma_first_of_the_longest(candidates: Seq<Seq<char>>, n: nat)
    requires
        0 < n <= candidates.len(),
    ensures
        exists|k: int|
            0 <= k < n && longest_among(candidates, n) == #[trigger] candidates[k] && forall|j: int|
                0 <= j < k ==> byte_len(#[trigger] candidates[j]) < byte_len(candidates[k]),
    decreases n,
{
    if n == 1 {
        assert(longest_among(candidates, n) == candidates[0]);
    } else {
        let m = (n - 1) as nat;
        lemma_first_of_the_longest(candidates, m);
        lemma_longest_among(candidates, m);
        let best = longest_among(candidates, m);
        if byte_len(candidates[n - 1]) > byte_len(best) {
            assert(longest_among(candidates, n) == candidates[n - 1]);
        } else {
            let k = choose|k: int|
                0 <= k < m && best == #[trigger] candidates[k] && forall|j: int|
                    0 <= j < k ==> byte_len(#[trigger] candidates[j]) < byte_len(candidates[k]);
            assert(longest_among(candidates, n) == candidates[k]);
        }
    }
}

/// A hyphen before the last segment is tried as a `/`, a `.`, a space, a hyphen and a `/` with a
/// `.`, in this order, and what exists of these is found.
pub proof fn law_last_hyphen_is_tried_five_ways(
    disk: DiskView,
    segments: Seq<Seq<char>>,
    current: Seq<char>,
    results: Seq<Seq<char>>,
)
    requires
        segments.len() > 1,
        results.len() <= 3,
    ensures
        ({
            let last = segments.last();
            let tried = seq![
                current + "/"@ + last,
                current + "."@ + last,
                current + " "@ + last,
                current + "-"@ + last,
                current + "/."@ + last,
            ];
            explore(disk, segments, (segments.len() - 1) as nat, current, results) == results
                + tried.filter(disk.exists)
        }),
{
    let n = segments.len();
    let idx = (n - 1) as nat;
    let last = segments.last();
    let tried = seq![
        current + "/"@ + last,
        current + "."@ + last,
        current + " "@ + last,
        current + "-"@ + last,
        current + "/."@ + last,
    ];
    let exists = disk.exists;
    reveal(Seq::filter);
    assert(tried.take(0).filter(exists) =~= Seq::empty());
    let r1 = attempt(disk, segments, idx, tried[0], results);
    let r2 = attempt(disk, segments, idx, tried[1], r1);
    let r3 = attempt(disk, segments, idx, tried[2], r2);
    let r4 = attempt(disk, segments, idx, tried[3], r3);
    let r5 = attempt(disk, segments, idx, tried[4], r4);
    lemma_last_attempt(disk, segments, tried, 0, results, results);
    lemma_last_attempt(disk, segments, tried, 1, results, r1);
    lemma_last_attempt(disk, segments, tried, 2, results, r2);
    lemma_last_attempt(disk, segments, tried, 3, results, r3);
    lemma_last_attempt(disk, segments, tried, 4, results, r4);
    assert(tried.take(5) =~= tried);
    assert(explore(disk, segments, idx, current, results) == r5);
}

proof fn lemma_last_attempt(
    disk: DiskView,
    segments: Seq<Seq<char>>,
    tried: Seq<Seq<char>>,
    k: int,
    results: Seq<Seq<char>>,
    before: Seq<Seq<char>>,
)
    requires
        segments.len() > 1,
        0 <= k < tried.len(),
        before == results + tried.take(k).filter(disk.exists),
    ensures
        attempt(disk, segments, (segments.len() - 1) as nat, tried[k], before) == results
            + tried.take(k + 1).filter(disk.exists),
{
    reveal(Seq::filter);
    let idx = (segments.len() - 1) as nat;
    lemma_attempt_unfolds(disk, segments, idx, tried[k], before);
    let longer = tried.take(k + 1);
    assert(longer.drop_last() =~= tried.take(k));
    assert(longer.last() == tried[k]);
    if (disk.exists)(tried[k]) {
        assert(explore(disk, segments, idx + 1, tried[k], before) == before.push(tried[k]));
        assert(results + tried.take(k).filter(disk.exists).push(tried[k]) =~= before.push(
            tried[k],
        ));
    }
}

} // verus!
