//! The session registry: for each open event stream, the sink that takes
//! the responses for it.

use vstd::prelude::*;
use crate::text::str_eq;

verus! {

/// The open sessions, each with its sink. No session id occurs twice.
pub struct SessionRegistry<T> {
    entries: Vec<(String, T)>,
}

/// The sink of the first entry with the id `id`.
pub open spec fn sink_of<T>(entries: Seq<(String, T)>, id: Seq<char>) -> Option<T>
    decreases entries.len(),
{
    if entries.len() == 0 {
        None
    } else if entries[0].0@ == id {
        Some(entries[0].1)
    } else {
        sink_of(entries.drop_first(), id)
    }
}

proof fn lemma_sink_from<T>(entries: Seq<(String, T)>, id: Seq<char>, i: int)
    requires
        0 <= i <= entries.len(),
        forall|j: int| 0 <= j < i ==> entries[j].0@ != id,
    ensures
        sink_of(entries, id) == sink_of(entries.skip(i), id),
    decreases i,
{
    if i == 0 {
        assert(entries.skip(0) =~= entries);
    } else {
        let rest = entries.drop_first();
        assert forall|j: int| 0 <= j < i - 1 implies rest[j].0@ != id by {
            assert(rest[j] == entries[j + 1]);
        }
        lemma_sink_from(rest, id, i - 1);
        assert(rest.skip(i - 1) =~= entries.skip(i));
    }
}

proof fn lemma_sink_push<T>(entries: Seq<(String, T)>, pair: (String, T), id: Seq<char>)
    ensures
        sink_of(entries.push(pair), id) == match sink_of(entries, id) {
            Some(t) => Some(t),
            None => if pair.0@ == id {
                Some(pair.1)
            } else {
                None
            },
        },
    decreases entries.len(),
{
    let next = entries.push(pair);
    if entries.len() == 0 {
        assert(next[0] == pair);
        assert(next.drop_first() =~= Seq::<(String, T)>::empty());
        assert(sink_of(next.drop_first(), id) is None);
        assert(sink_of(entries, id) is None);
    } else {
        assert(next[0] == entries[0]);
        assert(next.drop_first() =~= entries.drop_first().push(pair));
        lemma_sink_push(entries.drop_first(), pair, id);
    }
}

proof fn lemma_sink_remove<T>(entries: Seq<(String, T)>, i: int, id: Seq<char>)
    requires
        0 <= i < entries.len(),
        forall|a: int, b: int|
            0 <= a < b < entries.len() ==> (#[trigger] entries[a]).0@ != (#[trigger] entries[b]).0@,
    ensures
        sink_of(entries.remove(i), id) == if entries[i].0@ == id {
            None
        } else {
            sink_of(entries, id)
        },
    decreases entries.len(),
{
    let after = entries.remove(i);
    if i == 0 {
        assert(after =~= entries.drop_first());
        if entries[0].0@ == id {
            assert forall|j: int| 0 <= j < after.len() implies after[j].0@ != id by {
                assert(after[j] == entries[j + 1]);
                assert(entries[0].0@ != entries[j + 1].0@);
            }
            lemma_sink_from(after, id, after.len() as int);
            assert(after.skip(after.len() as int) =~= Seq::<(String, T)>::empty());
        }
    } else {
        let rest = entries.drop_first();
        assert(after[0] == entries[0]);
        assert(after.drop_first() =~= rest.remove(i - 1));
        assert forall|a: int, b: int| 0 <= a < b < rest.len() implies (#[trigger] rest[a]).0@ != (
        #[trigger] rest[b]).0@ by {
            assert(rest[a] == entries[a + 1] && rest[b] == entries[b + 1]);
        }
        assert(rest[i - 1] == entries[i]);
        lemma_sink_remove(rest, i - 1, id);
        if entries[0].0@ == id {
            assert(entries[0].0@ != entries[i].0@);
        }
    }
}

impl<T> SessionRegistry<T> {
    /// No session id occurs twice.
    pub closed spec fn wf(&self) -> bool {
        forall|i: int, j: int|
            0 <= i < j < self.entries.len() ==> (#[trigger] self.entries[i]).0@
                != (#[trigger] self.entries[j]).0@
    }

    /// The sink of the session `id`, where it is open.
    pub closed spec fn sink(&self, id: Seq<char>) -> Option<T> {
        sink_of(self.entries@, id)
    }

    /// Whether the session `id` is open.
    pub open spec fn is_open(&self, id: Seq<char>) -> bool {
        self.sink(id) is Some
    }

    /// The registry without sessions.
    pub fn new() -> (r: Self)
        ensures
            r.wf(),
            forall|id: Seq<char>| !r.is_open(id),
    {
        SessionRegistry { entries: Vec::new() }
    }

    fn position(&self, id: &str) -> (r: Option<usize>)
        requires
            self.wf(),
        ensures
            match r {
                Some(i) => i < self.entries.len() && self.entries[i as int].0@ == id@
                    && self.sink(id@) == Some(self.entries[i as int].1),
                None => !self.is_open(id@) && forall|j: int|
                    0 <= j < self.entries.len() ==> self.entries[j].0@ != id@,
            },
    {
        let mut i: usize = 0;
        while i < self.entries.len()
            invariant
                i <= self.entries.len(),
                forall|j: int| 0 <= j < i ==> self.entries[j].0@ != id@,
            decreases self.entries.len() - i,
        {
            if str_eq(self.entries[i].0.as_str(), id) {
                proof {
                    lemma_sink_from(self.entries@, id@, i as int);
                    assert(self.entries@.skip(i as int)[0] == self.entries@[i as int]);
                }
                return Some(i);
            }
            i += 1;
        }
        proof {
            lemma_sink_from(self.entries@, id@, self.entries.len() as int);
            assert(self.entries@.skip(self.entries.len() as int) =~= Seq::<(String, T)>::empty());
        }
        None
    }

    /// The sink of the session `id`: `None` where no such session is open.
    pub fn lookup(&self, id: &str) -> (r: Option<&T>)
        requires
            self.wf(),
        ensures
            match r {
                Some(sink) => self.sink(id@) == Some(*sink),
                None => !self.is_open(id@),
            },
    {
        match self.position(id) {
            Some(i) => Some(&self.entries[i].1),
            None => None,
        }
    }

    /// Opens the session `id` with `sink`. A session that was open under
    /// this id is closed first, and its sink is returned.
    pub fn open(&mut self, id: &str, sink: T) -> (r: Option<T>)
        requires
            old(self).wf(),
        ensures
            final(self).wf(),
            final(self).sink(id@) == Some(sink),
            r == old(self).sink(id@),
            forall|other: Seq<char>| other != id@ ==> final(self).sink(other) == old(self).sink(other),
    {
        let previous = self.close(id);
        let ghost between = self.entries@;
        let pair = (id.to_owned(), sink);
        self.entries.push(pair);
        proof {
            let after = self.entries@;
            assert forall|a: int, b: int| 0 <= a < b < after.len() implies (#[trigger] after[a]).0@
                != (#[trigger] after[b]).0@ by {
                assert(after[a] == between[a]);
                if b < between.len() {
                    assert(after[b] == between[b]);
                } else {
                    if between[a].0@ == id@ {
                        lemma_sink_from(between, id@, a);
                        assert(between.skip(a)[0] == between[a]);
                    }
                }
            }
            assert forall|other: Seq<char>|
                sink_of(after, other) == if other == id@ {
                    Some(sink)
                } else {
                    sink_of(between, other)
                } by {
                lemma_sink_push(between, pair, other);
            }
        }
        previous
    }

    /// Closes the session `id` and returns its sink: `None` where no such
    /// session was open.
    pub fn close(&mut self, id: &str) -> (r: Option<T>)
        requires
            old(self).wf(),
        ensures
            final(self).wf(),
            !final(self).is_open(id@),
            r == old(self).sink(id@),
            forall|other: Seq<char>| other != id@ ==> final(self).sink(other) == old(self).sink(other),
    {
        let ghost before = self.entries@;
        match self.position(id) {
            Some(i) => {
                let pair = self.entries.remove(i);
                proof {
                    let after = self.entries@;
                    assert forall|a: int, b: int| 0 <= a < b < after.len() implies (
                    #[trigger] after[a]).0@ != (#[trigger] after[b]).0@ by {
                        let a0 = if a < i { a } else { a + 1 };
                        let b0 = if b < i { b } else { b + 1 };
                        assert(after[a] == before[a0] && after[b] == before[b0]);
                    }
                    assert forall|other: Seq<char>|
                        sink_of(after, other) == if other == id@ {
                            None
                        } else {
                            sink_of(before, other)
                        } by {
                        lemma_sink_remove(before, i as int, other);
                    }
                }
                Some(pair.1)
            },
            None => None,
        }
    }
}

} // verus!
