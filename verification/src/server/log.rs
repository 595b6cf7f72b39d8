use vstd::prelude::*;

use crate::state_machine::Command;
use crate::text::{nat_text, pad_right, padded_right, usize_text};

verus! {

/// One entry of a server's log: a command together with the log index and
/// the term in which the leader received it.
#[derive(Debug, Clone, Copy, PartialEq, Eq, Structural)]
pub struct ServerLogEntry {
    index: usize,
    term: usize,
    command: Command,
}

impl ServerLogEntry {
    pub closed spec fn index_spec(self) -> usize {
        self.index
    }

    pub closed spec fn term_spec(self) -> usize {
        self.term
    }

    pub closed spec fn command_spec(self) -> Command {
        self.command
    }

    pub fn new(index: usize, term: usize, command: Command) -> (e: Self)
        ensures
            e.index_spec() == index,
            e.term_spec() == term,
            e.command_spec() == command,
    {
        Self { index, term, command }
    }

    pub fn index(&self) -> (r: usize)
        ensures
            r == self.index_spec(),
    {
        self.index
    }

    pub fn term(&self) -> (r: usize)
        ensures
            r == self.term_spec(),
    {
        self.term
    }

    pub fn command(&self) -> (r: Command)
        ensures
            r == self.command_spec(),
    {
        self.command
    }
}

impl ServerLogEntry {
    /// The entry as displayed to users: its term, padded to three
    /// characters, then `: ` and its command.
    pub open spec fn display_spec(self) -> Seq<char> {
        pad_right(nat_text(self.term_spec() as nat), 3) + ": "@ + self.command_spec().display_spec()
    }

    pub fn to_display_string(&self) -> (s: String)
        ensures
            s@ == self.display_spec(),
    {
        let mut s = padded_right(usize_text(self.term), 3);
        s.append(": ");
        s.append(self.command.to_display_string().as_str());
        s
    }
}

/// The lines showing `entries`, each indented by two spaces.
pub open spec fn entry_lines(entries: Seq<ServerLogEntry>) -> Seq<char>
    decreases entries.len(),
{
    if entries.len() == 0 {
        Seq::empty()
    } else {
        entry_lines(entries.drop_last()) + "  "@ + entries.last().display_spec() + "\n"@
    }
}

/// `after` is `before` with one entry pushed at the end, holding `command` and
/// recorded under `index` and `term`: what `append_cmd` does.
pub open spec fn appends_entry(
    before: Seq<ServerLogEntry>,
    after: Seq<ServerLogEntry>,
    index: usize,
    term: usize,
    command: Command,
) -> bool {
    &&& after.len() == before.len() + 1
    &&& after.drop_last() == before
    &&& after.last().index_spec() == index
    &&& after.last().term_spec() == term
    &&& after.last().command_spec() == command
}

/// Entries are pushed at the end, and never reordered, dropped or checked:
/// after a sequence of appends (`logs[j + 1]` is `logs[j]` after the `j`-th),
/// the log holds what it held before, then one entry per append, in order,
/// each recorded as its append asked.
pub proof fn lemma_appends_accumulate(logs: Seq<Seq<ServerLogEntry>>, appended: Seq<(usize, usize, Command)>)
    requires
        logs.len() == appended.len() + 1,
        forall|j: int|
            0 <= j < appended.len() ==> appends_entry(
                logs[j],
                #[trigger] logs[j + 1],
                appended[j].0,
                appended[j].1,
                appended[j].2,
            ),
    ensures
        logs.last().len() == logs[0].len() + appended.len(),
        logs.last().subrange(0, logs[0].len() as int) == logs[0],
        forall|j: int|
            0 <= j < appended.len() ==> {
                let e = #[trigger] logs.last()[logs[0].len() + j];
                &&& e.index_spec() == appended[j].0
                &&& e.term_spec() == appended[j].1
                &&& e.command_spec() == appended[j].2
            },
    decreases appended.len(),
{
    let n0 = logs[0].len();
    if appended.len() == 0 {
        assert(logs.last().subrange(0, n0 as int) =~= logs[0]);
    } else {
        let k = appended.len() - 1;
        let ls = logs.drop_last();
        let ap = appended.drop_last();
        assert forall|j: int| 0 <= j < ap.len() implies appends_entry(
            ls[j],
            #[trigger] ls[j + 1],
            ap[j].0,
            ap[j].1,
            ap[j].2,
        ) by {
            assert(ls[j + 1] == logs[j + 1]);
        }
        lemma_appends_accumulate(ls, ap);
        assert(ls.last() == logs[k]);
        assert(appends_entry(logs[k], logs[k + 1], appended[k].0, appended[k].1, appended[k].2));
        let last = logs.last();
        assert(last == logs[k + 1]);
        assert(last.drop_last() == logs[k]);
        assert(last.subrange(0, n0 as int) =~= logs[k].subrange(0, n0 as int));
        assert forall|j: int| 0 <= j < appended.len() implies {
            let e = #[trigger] last[n0 + j];
            &&& e.index_spec() == appended[j].0
            &&& e.term_spec() == appended[j].1
            &&& e.command_spec() == appended[j].2
        } by {
            if j < k {
                assert(last[n0 + j] == logs[k][n0 + j]);
                assert(ap[j] == appended[j]);
                assert(ls.last()[n0 + j] == logs[k][n0 + j]);
            }
        }
    }
}

/// A server's log: its entries in the order in which they were appended.
#[derive(Debug)]
pub struct ServerLog {
    entries: Vec<ServerLogEntry>,
}

impl View for ServerLog {
    type V = Seq<ServerLogEntry>;

    closed spec fn view(&self) -> Seq<ServerLogEntry> {
        self.entries@
    }
}

impl ServerLog {
    /// An empty log.
    pub fn new() -> (log: Self)
        ensures
            log@ == Seq::<ServerLogEntry>::empty(),
    {
        Self { entries: Vec::new() }
    }

    pub fn len(&self) -> (n: usize)
        ensures
            n == self@.len(),
    {
        self.entries.len()
    }

    /// The entries from position `index` to the end, in order.
    pub fn entries_from(&self, index: usize) -> (out: Vec<ServerLogEntry>)
        requires
            index <= self@.len(),
        ensures
            out@ == self@.subrange(index as int, self@.len() as int),
    {
        let mut out: Vec<ServerLogEntry> = Vec::new();
        let mut i: usize = index;
        while i < self.entries.len()
            invariant
                index <= i <= self@.len(),
                self@ == self.entries@,
                out@ == self@.subrange(index as int, i as int),
            decreases self@.len() - i,
        {
            out.push(self.entries[i]);
            i = i + 1;
        }
        out
    }

    /// Appends an entry holding `command`, recorded under `index` and `term`.
    pub fn append_cmd(&mut self, index: usize, term: usize, command: Command)
        ensures
            appends_entry(old(self)@, final(self)@, index, term, command),
    {
        self.entries.push(ServerLogEntry { index, term, command });
        assert(self@.drop_last() =~= old(self)@);
    }

    /// The log as displayed to users: `[`, one indented line per entry, `]`.
    pub open spec fn display_spec(&self) -> Seq<char> {
        "[\n"@ + entry_lines(self@) + "]"@
    }

    pub fn to_display_string(&self) -> (s: String)
        ensures
            s@ == self.display_spec(),
    {
        let mut s = String::from_str("[\n");
        let mut i: usize = 0;
        while i < self.entries.len()
            invariant
                i <= self@.len(),
                self@ == self.entries@,
                s@ == "[\n"@ + entry_lines(self@.subrange(0, i as int)),
            decreases self@.len() - i,
        {
            s.append("  ");
            s.append(self.entries[i].to_display_string().as_str());
            s.append("\n");
            assert(self@.subrange(0, i + 1).drop_last() =~= self@.subrange(0, i as int));
            assert(s@ =~= "[\n"@ + entry_lines(self@.subrange(0, i + 1)));
            i = i + 1;
        }
        s.append("]");
        assert(self@.subrange(0, self@.len() as int) =~= self@);
        s
    }

    /// The last entry, if any.
    pub fn last(&self) -> (r: Option<ServerLogEntry>)
        ensures
            self@.len() == 0 ==> r is None,
            self@.len() > 0 ==> r == Some(self@.last()),
    {
        if self.entries.len() == 0 {
            None
        } else {
            Some(self.entries[self.entries.len() - 1])
        }
    }

    /// The first entry, in log order, whose recorded index is `index`.
    pub fn find_by_index(&self, index: usize) -> (r: Option<ServerLogEntry>)
        ensures
            match r {
                Some(e) => exists|i: int|
                    0 <= i < self@.len() && self@[i] == e && e.index_spec() == index && forall|
                        j: int,
                    |
                        0 <= j < i ==> #[trigger] self@[j].index_spec() != index,
                None => forall|j: int| 0 <= j < self@.len() ==> #[trigger] self@[j].index_spec() != index,
            },
    {
        let mut i: usize = 0;
        while i < self.entries.len()
            invariant
                i <= self@.len(),
                self@ == self.entries@,
                forall|j: int| 0 <= j < i ==> #[trigger] self@[j].index_spec() != index,
            decreases self@.len() - i,
        {
            if self.entries[i].index == index {
                return Some(self.entries[i]);
            }
            i = i + 1;
        }
        None
    }
}

impl Default for ServerLog {
    fn default() -> (log: Self)
        ensures
            log@ == Seq::<ServerLogEntry>::empty(),
    {
        Self::new()
    }
}

} // verus!
