//! The ingest state: for each source file, the modification time it had
//! when it was last ingested. It decides which files an ingest run still has
//! to process.

use vstd::prelude::*;
use crate::text::{opt_string_view, str_eq};

verus! {

/// The state as a list of pairs of path and modification time. No path
/// occurs twice.
#[derive(Debug)]
pub struct IngestState {
    entries: Vec<(String, String)>,
}

/// The time recorded for `path` in a list of pairs: that of the first pair
/// with this path.
pub open spec fn recorded(entries: Seq<(String, String)>, path: Seq<char>) -> Option<Seq<char>>
    decreases entries.len(),
{
    if entries.len() == 0 {
        None
    } else if entries[0].0@ == path {
        Some(entries[0].1@)
    } else {
        recorded(entries.drop_first(), path)
    }
}

/// The pairs as a map from path to time.
pub open spec fn entries_map(entries: Seq<(String, String)>) -> Map<Seq<char>, Seq<char>> {
    Map::new(
        |path: Seq<char>| recorded(entries, path) is Some,
        |path: Seq<char>| recorded(entries, path)->0,
    )
}

proof fn lemma_recorded_index(entries: Seq<(String, String)>, path: Seq<char>, i: int)
    requires
        0 <= i <= entries.len(),
        forall|j: int| 0 <= j < i ==> entries[j].0@ != path,
    ensures
        recorded(entries, path) == recorded(entries.skip(i), path),
    decreases i,
{
    if i == 0 {
        assert(entries.skip(0) =~= entries);
    } else {
        let rest = entries.drop_first();
        assert forall|j: int| 0 <= j < i - 1 implies rest[j].0@ != path by {
            assert(rest[j] == entries[j + 1]);
        }
        lemma_recorded_index(rest, path, i - 1);
        assert(rest.skip(i - 1) =~= entries.skip(i));
    }
}

proof fn lemma_recorded_none(entries: Seq<(String, String)>, path: Seq<char>)
    requires
        forall|j: int| 0 <= j < entries.len() ==> entries[j].0@ != path,
    ensures
        recorded(entries, path) is None,
{
    lemma_recorded_index(entries, path, entries.len() as int);
    assert(entries.skip(entries.len() as int) =~= Seq::empty());
}

proof fn lemma_recorded_at(entries: Seq<(String, String)>, path: Seq<char>, i: int)
    requires
        0 <= i < entries.len(),
        entries[i].0@ == path,
        forall|j: int| 0 <= j < i ==> entries[j].0@ != path,
    ensures
        recorded(entries, path) == Some(entries[i].1@),
{
    lemma_recorded_index(entries, path, i);
    assert(entries.skip(i)[0] == entries[i]);
}

proof fn lemma_recorded_push(
    entries: Seq<(String, String)>,
    pair: (String, String),
    path: Seq<char>,
)
    ensures
        recorded(entries.push(pair), path) == match recorded(entries, path) {
            Some(t) => Some(t),
            None => if pair.0@ == path {
                Some(pair.1@)
            } else {
                None
            },
        },
    decreases entries.len(),
{
    let next = entries.push(pair);
    if entries.len() == 0 {
        assert(next[0] == pair);
        assert(next.drop_first() =~= Seq::<(String, String)>::empty());
        assert(recorded(next.drop_first(), path) is None);
        assert(recorded(entries, path) is None);
    } else {
        assert(next[0] == entries[0]);
        assert(next.drop_first() =~= entries.drop_first().push(pair));
        lemma_recorded_push(entries.drop_first(), pair, path);
    }
}

impl IngestState {
    /// No path occurs twice.
    pub closed spec fn wf(&self) -> bool {
        forall|i: int, j: int|
            0 <= i < j < self.entries.len() ==> (#[trigger] self.entries[i]).0@
                != (#[trigger] self.entries[j]).0@
    }

    /// The state as a map from path to modification time.
    pub closed spec fn view(&self) -> Map<Seq<char>, Seq<char>> {
        entries_map(self.entries@)
    }

    /// The state that records nothing.
    pub fn new() -> (r: Self)
        ensures
            r.wf(),
            r@ == Map::<Seq<char>, Seq<char>>::empty(),
    {
        let r = IngestState { entries: Vec::new() };
        assert(r@ =~= Map::<Seq<char>, Seq<char>>::empty());
        r
    }

    /// The modification time recorded for `path`.
    pub fn get(&self, path: &str) -> (r: Option<&String>)
        requires
            self.wf(),
        ensures
            match r {
                Some(t) => self@.contains_key(path@) && self@[path@] == t@,
                None => !self@.contains_key(path@),
            },
    {
        let mut i: usize = 0;
        while i < self.entries.len()
            invariant
                i <= self.entries.len(),
                forall|j: int| 0 <= j < i ==> self.entries[j].0@ != path@,
            decreases self.entries.len() - i,
        {
            if str_eq(self.entries[i].0.as_str(), path) {
                proof {
                    lemma_recorded_at(self.entries@, path@, i as int);
                }
                return Some(&self.entries[i].1);
            }
            i += 1;
        }
        proof {
            lemma_recorded_none(self.entries@, path@);
        }
        None
    }

    /// Records `modified` as the modification time of `path`, in place of
    /// what was recorded for it before.
    pub fn insert(&mut self, path: &str, modified: &str)
        requires
            old(self).wf(),
        ensures
            final(self).wf(),
            final(self)@ == old(self)@.insert(path@, modified@),
    {
        let ghost before = self.entries@;
        let mut i: usize = 0;
        while i < self.entries.len()
            invariant
                i <= self.entries.len(),
                self.entries@ == before,
                before == old(self).entries@,
                self.wf(),
                forall|j: int| 0 <= j < i ==> self.entries[j].0@ != path@,
            decreases self.entries.len() - i,
        {
            if str_eq(self.entries[i].0.as_str(), path) {
                let pair = (path.to_owned(), modified.to_owned());
                self.entries.set(i, pair);
                proof {
                    let after = self.entries@;
                    assert forall|a: int, b: int| 0 <= a < b < after.len() implies (
                    #[trigger] after[a]).0@ != (#[trigger] after[b]).0@ by {
                        assert(after[a].0@ == before[a].0@);
                        assert(after[b].0@ == before[b].0@);
                    }
                    assert forall|k: Seq<char>|
                        recorded(after, k) == if k == path@ {
                            Some(modified@)
                        } else {
                            recorded(before, k)
                        } by {
                        if k == path@ {
                            lemma_recorded_at(after, k, i as int);
                        } else {
                            lemma_recorded_update(before, after, i as int, k);
                        }
                    }
                    assert(self@ =~= entries_map(before).insert(path@, modified@));
                }
                return ;
            }
            i += 1;
        }
        let pair = (path.to_owned(), modified.to_owned());
        self.entries.push(pair);
        proof {
            let after = self.entries@;
            lemma_recorded_none(before, path@);
            assert forall|a: int, b: int| 0 <= a < b < after.len() implies (#[trigger] after[a]).0@
                != (#[trigger] after[b]).0@ by {
                assert(after[a] == before[a]);
                if b < before.len() {
                    assert(after[b] == before[b]);
                }
            }
            assert forall|k: Seq<char>|
                recorded(after, k) == if k == path@ {
                    Some(modified@)
                } else {
                    recorded(before, k)
                } by {
                lemma_recorded_push(before, pair, k);
            }
            assert(self@ =~= entries_map(before).insert(path@, modified@));
        }
    }

    /// The recorded pairs of path and modification time, for writing the
    /// state out.
    pub fn entries(&self) -> (r: &Vec<(String, String)>)
        requires
            self.wf(),
        ensures
            entries_map(r@) == self@,
    {
        &self.entries
    }

    /// The state that holds the given pairs; where a path occurs more than
    /// once, its last pair counts.
    pub fn from_entries(pairs: &Vec<(String, String)>) -> (r: Self)
        ensures
            r.wf(),
            r@ == pairs_map(pairs@),
    {
        let mut state = IngestState::new();
        let mut i: usize = 0;
        assert(pairs@.take(0) =~= Seq::empty());
        while i < pairs.len()
            invariant
                i <= pairs.len(),
                state.wf(),
                state@ == pairs_map(pairs@.take(i as int)),
            decreases pairs.len() - i,
        {
            state.insert(pairs[i].0.as_str(), pairs[i].1.as_str());
            proof {
                assert(pairs@.take(i + 1).drop_last() =~= pairs@.take(i as int));
            }
            i += 1;
        }
        assert(pairs@.take(pairs.len() as int) =~= pairs@);
        state
    }
}

/// The map that a list of pairs gives when they are recorded one after the
/// other.
pub open spec fn pairs_map(pairs: Seq<(String, String)>) -> Map<Seq<char>, Seq<char>>
    decreases pairs.len(),
{
    if pairs.len() == 0 {
        Map::empty()
    } else {
        pairs_map(pairs.drop_last()).insert(pairs.last().0@, pairs.last().1@)
    }
}

proof fn lemma_recorded_update(
    before: Seq<(String, String)>,
    after: Seq<(String, String)>,
    i: int,
    path: Seq<char>,
)
    requires
        0 <= i < before.len(),
        after.len() == before.len(),
        forall|j: int| 0 <= j < before.len() && j != i ==> after[j] == before[j],
        after[i].0@ == before[i].0@,
        before[i].0@ != path,
    ensures
        recorded(after, path) == recorded(before, path),
    decreases before.len(),
{
    if before[0].0@ == path {
        assert(after[0] == before[0]);
    } else {
        assert(after[0].0@ != path);
        if before.len() > 1 {
            let b = before.drop_first();
            let a = after.drop_first();
            if i == 0 {
                assert(a =~= b);
            } else {
                assert forall|j: int| 0 <= j < b.len() && j != i - 1 implies a[j] == b[j] by {
                    assert(a[j] == after[j + 1] && b[j] == before[j + 1]);
                }
                lemma_recorded_update(b, a, i - 1, path);
            }
        } else {
            assert(after.drop_first() =~= before.drop_first());
        }
    }
}

/// A candidate file: its path and its modification time, where the file
/// system gave one.
#[derive(Debug)]
pub struct FileStamp {
    pub path: String,
    pub modified: Option<String>,
}

/// The time that is compared with the recorded one: the file's
/// modification time, or the empty text where it has none.
pub open spec fn current_time(modified: Option<Seq<char>>) -> Seq<char> {
    match modified {
        Some(t) => t,
        None => Seq::empty(),
    }
}

/// Whether a file has to be processed: unless the state records exactly its
/// current modification time.
pub open spec fn spec_needs_processing(
    state: Map<Seq<char>, Seq<char>>,
    path: Seq<char>,
    modified: Option<Seq<char>>,
) -> bool {
    !(state.contains_key(path) && state[path] == current_time(modified))
}

/// The paths of the files that have to be processed, in the order given.
pub open spec fn spec_select_changed(state: Map<Seq<char>, Seq<char>>, files: Seq<FileStamp>) -> Seq<
    Seq<char>,
>
    decreases files.len(),
{
    if files.len() == 0 {
        Seq::empty()
    } else {
        let front = spec_select_changed(state, files.drop_last());
        let f = files.last();
        if spec_needs_processing(state, f.path@, opt_string_view(f.modified)) {
            front.push(f.path@)
        } else {
            front
        }
    }
}

/// The state after the files were processed: each file that has a
/// modification time is recorded with it.
pub open spec fn spec_record_all(state: Map<Seq<char>, Seq<char>>, files: Seq<FileStamp>) -> Map<
    Seq<char>,
    Seq<char>,
>
    decreases files.len(),
{
    if files.len() == 0 {
        state
    } else {
        let front = spec_record_all(state, files.drop_last());
        match files.last().modified {
            Some(t) => front.insert(files.last().path@, t@),
            None => front,
        }
    }
}

/// Whether `stamp` has to be processed.
pub fn needs_processing(state: &IngestState, stamp: &FileStamp) -> (r: bool)
    requires
        state.wf(),
    ensures
        r == spec_needs_processing(state@, stamp.path@, opt_string_view(stamp.modified)),
{
    match state.get(stamp.path.as_str()) {
        Some(previous) => match &stamp.modified {
            Some(current) => !str_eq(previous.as_str(), current.as_str()),
            None => {
                let n = previous.as_str().unicode_len();
                assert(n == 0 <==> previous@ =~= Seq::<char>::empty());
                n != 0
            },
        },
        None => true,
    }
}

/// The files that an ingest run has to process: those that are new or
/// whose modification time is not the recorded one.
pub fn select_changed(state: &IngestState, files: &Vec<FileStamp>) -> (r: Vec<String>)
    requires
        state.wf(),
    ensures
        crate::text::strings_view(r@) == spec_select_changed(state@, files@),
{
    let mut changed: Vec<String> = Vec::new();
    let mut i: usize = 0;
    assert(files@.take(0) =~= Seq::empty());
    assert(crate::text::strings_view(changed@) =~= Seq::empty());
    while i < files.len()
        invariant
            i <= files.len(),
            state.wf(),
            crate::text::strings_view(changed@) == spec_select_changed(
                state@,
                files@.take(i as int),
            ),
        decreases files.len() - i,
    {
        proof {
            assert(files@.take(i + 1).drop_last() =~= files@.take(i as int));
        }
        if needs_processing(state, &files[i]) {
            let path = files[i].path.clone();
            proof {
                crate::text::lemma_strings_view_push(changed@, path);
            }
            changed.push(path);
        }
        i += 1;
    }
    assert(files@.take(files.len() as int) =~= files@);
    changed
}

/// Records the files that were processed: each with its modification time,
/// where it has one.
pub fn record_processed(state: &mut IngestState, files: &Vec<FileStamp>)
    requires
        old(state).wf(),
    ensures
        final(state).wf(),
        final(state)@ == spec_record_all(old(state)@, files@),
{
    let ghost start = state@;
    let mut i: usize = 0;
    assert(files@.take(0) =~= Seq::empty());
    while i < files.len()
        invariant
            i <= files.len(),
            state.wf(),
            state@ == spec_record_all(start, files@.take(i as int)),
        decreases files.len() - i,
    {
        proof {
            assert(files@.take(i + 1).drop_last() =~= files@.take(i as int));
        }
        match &files[i].modified {
            Some(t) => {
                state.insert(files[i].path.as_str(), t.as_str());
            },
            None => {},
        }
        i += 1;
    }
    assert(files@.take(files.len() as int) =~= files@);
}

/// Every file has a modification time, and two entries for one path agree
/// on it.
pub open spec fn stamps_agree(files: Seq<FileStamp>) -> bool {
    &&& forall|i: int| 0 <= i < files.len() ==> (#[trigger] files[i]).modified is Some
    &&& forall|i: int, j: int|
        0 <= i < files.len() && 0 <= j < files.len() && (#[trigger] files[i]).path@
            == (#[trigger] files[j]).path@ ==> files[i].modified->0@ == files[j].modified->0@
}

proof fn lemma_record_all_holds(state: Map<Seq<char>, Seq<char>>, files: Seq<FileStamp>)
    requires
        stamps_agree(files),
    ensures
        forall|i: int|
            0 <= i < files.len() ==> spec_record_all(state, files).contains_key(
                (#[trigger] files[i]).path@,
            ) && spec_record_all(state, files)[files[i].path@] == files[i].modified->0@,
    decreases files.len(),
{
    if files.len() > 0 {
        let front = files.drop_last();
        let last = files.last();
        assert(stamps_agree(front)) by {
            assert forall|i: int| 0 <= i < front.len() implies (#[trigger] front[i]).modified is Some by {
                assert(front[i] == files[i]);
            }
            assert forall|i: int, j: int|
                0 <= i < front.len() && 0 <= j < front.len() && (#[trigger] front[i]).path@ == (
                #[trigger] front[j]).path@ implies front[i].modified->0@
                == front[j].modified->0@ by {
                assert(front[i] == files[i] && front[j] == files[j]);
            }
        }
        lemma_record_all_holds(state, front);
        assert(files[files.len() - 1].modified is Some);
        assert forall|i: int| 0 <= i < files.len() implies spec_record_all(
            state,
            files,
        ).contains_key((#[trigger] files[i]).path@) && spec_record_all(state, files)[files[i].path@]
            == files[i].modified->0@ by {
            if i < front.len() {
                assert(front[i] == files[i]);
                if files[i].path@ == last.path@ {
                    assert(files[i].modified->0@ == files[files.len() - 1].modified->0@);
                }
            }
        }
    }
}

proof fn lemma_select_none(state: Map<Seq<char>, Seq<char>>, files: Seq<FileStamp>)
    requires
        forall|i: int|
            0 <= i < files.len() ==> !spec_needs_processing(
                state,
                (#[trigger] files[i]).path@,
                opt_string_view(files[i].modified),
            ),
    ensures
        spec_select_changed(state, files) == Seq::<Seq<char>>::empty(),
    decreases files.len(),
{
    if files.len() > 0 {
        let front = files.drop_last();
        assert forall|i: int| 0 <= i < front.len() implies !spec_needs_processing(
            state,
            (#[trigger] front[i]).path@,
            opt_string_view(front[i].modified),
        ) by {
            assert(front[i] == files[i]);
        }
        lemma_select_none(state, front);
        assert(!spec_needs_processing(
            state,
            files[files.len() - 1].path@,
            opt_string_view(files[files.len() - 1].modified),
        ));
    }
}

proof fn lemma_select_one(state: Map<Seq<char>, Seq<char>>, files: Seq<FileStamp>, i: int)
    requires
        0 <= i < files.len(),
        spec_needs_processing(state, files[i].path@, opt_string_view(files[i].modified)),
        forall|j: int|
            0 <= j < files.len() && j != i ==> !spec_needs_processing(
                state,
                (#[trigger] files[j]).path@,
                opt_string_view(files[j].modified),
            ),
    ensures
        spec_select_changed(state, files) == seq![files[i].path@],
    decreases files.len(),
{
    let front = files.drop_last();
    if i == files.len() - 1 {
        assert forall|j: int| 0 <= j < front.len() implies !spec_needs_processing(
            state,
            (#[trigger] front[j]).path@,
            opt_string_view(front[j].modified),
        ) by {
            assert(front[j] == files[j]);
        }
        lemma_select_none(state, front);
        assert(Seq::<Seq<char>>::empty().push(files[i].path@) =~= seq![files[i].path@]);
    } else {
        assert(front[i] == files[i]);
        assert forall|j: int| 0 <= j < front.len() && j != i implies !spec_needs_processing(
            state,
            (#[trigger] front[j]).path@,
            opt_string_view(front[j].modified),
        ) by {
            assert(front[j] == files[j]);
        }
        lemma_select_one(state, front, i);
        assert(!spec_needs_processing(
            state,
            files[files.len() - 1].path@,
            opt_string_view(files[files.len() - 1].modified),
        ));
    }
}

/// Re-running the ingest on an unchanged corpus finds no work: once the
/// files are recorded, none of them has to be processed again. This holds
/// where each file has a modification time and a path that is listed twice
/// is listed with one time.
pub proof fn lemma_unchanged_corpus_needs_no_work(
    state: Map<Seq<char>, Seq<char>>,
    files: Seq<FileStamp>,
)
    requires
        stamps_agree(files),
    ensures
        spec_select_changed(spec_record_all(state, files), files) == Seq::<Seq<char>>::empty(),
{
    lemma_record_all_holds(state, files);
    lemma_select_none(spec_record_all(state, files), files);
}

/// After the modification time of one file changed, a run processes that
/// file and no other: `after` is the corpus `before` with another time for
/// its file `i`.
pub proof fn lemma_one_modified_file_is_the_work(
    state: Map<Seq<char>, Seq<char>>,
    before: Seq<FileStamp>,
    after: Seq<FileStamp>,
    i: int,
)
    requires
        stamps_agree(before),
        0 <= i < before.len(),
        after.len() == before.len(),
        forall|j: int| 0 <= j < before.len() && j != i ==> after[j] == before[j],
        after[i].path@ == before[i].path@,
        current_time(opt_string_view(after[i].modified)) != current_time(
            opt_string_view(before[i].modified),
        ),
    ensures
        spec_select_changed(spec_record_all(state, before), after) == seq![before[i].path@],
{
    let recorded = spec_record_all(state, before);
    lemma_record_all_holds(state, before);
    assert(recorded[before[i].path@] == before[i].modified->0@);
    assert(before[i].modified is Some);
    assert(spec_needs_processing(recorded, after[i].path@, opt_string_view(after[i].modified)));
    assert forall|j: int| 0 <= j < after.len() && j != i implies !spec_needs_processing(
        recorded,
        (#[trigger] after[j]).path@,
        opt_string_view(after[j].modified),
    ) by {
        assert(after[j] == before[j]);
        assert(recorded.contains_key(before[j].path@));
    }
    lemma_select_one(recorded, after, i);
}

} // verus!
