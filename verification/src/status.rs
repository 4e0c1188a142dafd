//! Status events of the conversion pipeline and their aggregation.
//!
//! Every stage of every file's pipeline run emits one event. A single
//! collector consumes them and accumulates, per input path, the text of
//! that file's diagnostic log, together with running success/failure
//! counters for progress reporting. The application runs the channel
//! that delivers the events; the accumulation logic lives here.

use vstd::prelude::*;

use crate::digits::{spec_decimal, u64_to_string};
use crate::strings::str_eq;

verus! {

/// One status event: which stage finished for which input path, with
/// the elapsed milliseconds on success or an error description on
/// failure.
pub enum StatusMessage {
    /// The file was read to a string in memory.
    Read { path: String, result: Result<u64, String> },
    /// The string was decoded into an xml document.
    ParseXml { path: String, result: Result<u64, String> },
    /// The analysis blob was handed to the external analysis parser.
    ParseAnalyses { path: String, result: Result<u64, String> },
    /// Some other error of a later stage, tracked but not classified.
    GenericError { path: String, error: String },
}

impl StatusMessage {
    /// The input path the event belongs to.
    pub open spec fn spec_path(self) -> Seq<char> {
        match self {
            StatusMessage::Read { path, .. } => path@,
            StatusMessage::ParseXml { path, .. } => path@,
            StatusMessage::ParseAnalyses { path, .. } => path@,
            StatusMessage::GenericError { path, .. } => path@,
        }
    }

    /// The log line of the event.
    pub open spec fn spec_line(self) -> Seq<char> {
        match self {
            StatusMessage::Read { result: Ok(ms), .. } => "Read file in "@ + spec_decimal(
                ms as nat,
            ) + "ms"@,
            StatusMessage::Read { result: Err(e), .. } => "Unable to read: "@ + e@,
            StatusMessage::ParseXml { result: Ok(ms), .. } => "Parsed XML in "@ + spec_decimal(
                ms as nat,
            ) + "ms"@,
            StatusMessage::ParseXml { result: Err(e), .. } => "XML parse error: "@ + e@,
            StatusMessage::ParseAnalyses { result: Ok(ms), .. } => "Parsed analyses in "@
                + spec_decimal(ms as nat) + "ms"@,
            StatusMessage::ParseAnalyses { result: Err(e), .. } => "Parse analysis: "@ + e@,
            StatusMessage::GenericError { error, .. } => "Generic error: "@ + error@,
        }
    }

    /// Does the event count as one file done for the progress counter?
    /// The analysis-parse event is the one authoritative progress
    /// signal per file.
    pub open spec fn counts_ok(self) -> bool {
        self is ParseAnalyses
    }

    /// Does the event count as one file failed for the progress
    /// counter?
    pub open spec fn counts_err(self) -> bool {
        match self {
            StatusMessage::Read { result, .. } => result is Err,
            StatusMessage::ParseXml { result, .. } => result is Err,
            _ => false,
        }
    }

    /// The input path the event belongs to.
    pub fn path(&self) -> (r: &String)
        ensures
            r@ == self.spec_path(),
    {
        match self {
            StatusMessage::Read { path, .. } => path,
            StatusMessage::ParseXml { path, .. } => path,
            StatusMessage::ParseAnalyses { path, .. } => path,
            StatusMessage::GenericError { path, .. } => path,
        }
    }

    /// Render the log line of the event.
    pub fn line(&self) -> (r: String)
        ensures
            r@ == self.spec_line(),
    {
        match self {
            StatusMessage::Read { result: Ok(ms), .. } => {
                let mut s = "Read file in ".to_owned();
                let d = u64_to_string(*ms);
                s.append(d.as_str());
                s.append("ms");
                s
            },
            StatusMessage::Read { result: Err(e), .. } => {
                let mut s = "Unable to read: ".to_owned();
                s.append(e.as_str());
                s
            },
            StatusMessage::ParseXml { result: Ok(ms), .. } => {
                let mut s = "Parsed XML in ".to_owned();
                let d = u64_to_string(*ms);
                s.append(d.as_str());
                s.append("ms");
                s
            },
            StatusMessage::ParseXml { result: Err(e), .. } => {
                let mut s = "XML parse error: ".to_owned();
                s.append(e.as_str());
                s
            },
            StatusMessage::ParseAnalyses { result: Ok(ms), .. } => {
                let mut s = "Parsed analyses in ".to_owned();
                let d = u64_to_string(*ms);
                s.append(d.as_str());
                s.append("ms");
                s
            },
            StatusMessage::ParseAnalyses { result: Err(e), .. } => {
                let mut s = "Parse analysis: ".to_owned();
                s.append(e.as_str());
                s
            },
            StatusMessage::GenericError { error, .. } => {
                let mut s = "Generic error: ".to_owned();
                s.append(error.as_str());
                s
            },
        }
    }
}

/// A saturating increment for the progress counters.
pub open spec fn inc_sat(x: u64) -> u64 {
    if x == u64::MAX {
        x
    } else {
        (x + 1) as u64
    }
}

/// The index of the first entry whose key is `key`, searching from `i`;
/// `-1` if there is none.
pub open spec fn find_from(entries: Seq<(String, String)>, key: Seq<char>, i: int) -> int
    decreases entries.len() - i,
{
    if i < 0 || i >= entries.len() {
        -1
    } else if entries[i].0@ == key {
        i
    } else {
        find_from(entries, key, i + 1)
    }
}

/// The index of the entry of `key`, or `-1` if there is none.
pub open spec fn spec_find(entries: Seq<(String, String)>, key: Seq<char>) -> int {
    find_from(entries, key, 0)
}

/// A found index is in bounds and carries the key.
pub proof fn lemma_find_found(entries: Seq<(String, String)>, key: Seq<char>, i: int)
    requires
        0 <= i <= entries.len(),
        find_from(entries, key, i) >= 0,
    ensures
        i <= find_from(entries, key, i) < entries.len(),
        entries[find_from(entries, key, i)].0@ == key,
    decreases entries.len() - i,
{
    if i < entries.len() && entries[i].0@ != key {
        lemma_find_found(entries, key, i + 1);
    }
}

/// When nothing is found, no entry from `i` on carries the key.
pub proof fn lemma_find_none(entries: Seq<(String, String)>, key: Seq<char>, i: int)
    requires
        0 <= i <= entries.len(),
        find_from(entries, key, i) < 0,
    ensures
        forall|j: int| i <= j < entries.len() ==> (#[trigger] entries[j]).0@ != key,
    decreases entries.len() - i,
{
    if i < entries.len() {
        lemma_find_none(entries, key, i + 1);
    }
}

/// The aggregation point of all status events: the per-path log texts,
/// in first-seen order, and the running progress counters.
pub struct StatusCollector {
    pub statuses: Vec<(String, String)>,
    pub nok: u64,
    pub nerr: u64,
}

impl StatusCollector {
    /// Each input path has at most one accumulated entry.
    pub open spec fn wf(self) -> bool {
        forall|i: int, j: int|
            0 <= i < j < self.statuses@.len() ==> (#[trigger] self.statuses@[i]).0@ != (
            #[trigger] self.statuses@[j]).0@
    }

    /// An empty collector.
    pub fn new() -> (r: Self)
        ensures
            r.wf(),
            r.statuses@.len() == 0,
            r.nok == 0,
            r.nerr == 0,
    {
        Self { statuses: Vec::new(), nok: 0, nerr: 0 }
    }

    /// Find the entry of `key`.
    fn find(&self, key: &str) -> (r: Option<usize>)
        ensures
            match r {
                Some(i) => spec_find(self.statuses@, key@) == i as int,
                None => spec_find(self.statuses@, key@) < 0,
            },
    {
        let mut i: usize = 0;
        while i < self.statuses.len()
            invariant
                i <= self.statuses@.len(),
                spec_find(self.statuses@, key@) == find_from(self.statuses@, key@, i as int),
            decreases self.statuses@.len() - i,
        {
            if str_eq(self.statuses[i].0.as_str(), key) {
                return Some(i);
            }
            i += 1;
        }
        None
    }

    /// Record one event: append its line to the path's accumulated log
    /// text, starting a new entry for a path seen for the first time,
    /// and step the progress counters. No other entry is touched.
    pub fn record(&mut self, msg: StatusMessage)
        requires
            old(self).wf(),
        ensures
            final(self).wf(),
            final(self).nok == if msg.counts_ok() {
                inc_sat(old(self).nok)
            } else {
                old(self).nok
            },
            final(self).nerr == if msg.counts_err() {
                inc_sat(old(self).nerr)
            } else {
                old(self).nerr
            },
            spec_find(old(self).statuses@, msg.spec_path()) < 0 ==> ({
                let os = old(self).statuses@;
                let ns = final(self).statuses@;
                ns.len() == os.len() + 1 && (forall|i: int| 0 <= i < os.len() ==> ns[i] == os[i])
                    && ns.last().0@ == msg.spec_path() && ns.last().1@ == msg.spec_line() + "\n"@
            }),
            spec_find(old(self).statuses@, msg.spec_path()) >= 0 ==> ({
                let os = old(self).statuses@;
                let ns = final(self).statuses@;
                let f = spec_find(os, msg.spec_path());
                ns.len() == os.len() && (forall|i: int|
                    0 <= i < os.len() && i != f ==> ns[i] == os[i]) && ns[f].0 == os[f].0
                    && ns[f].1@ == os[f].1@ + msg.spec_line() + "\n"@
            }),
    {
        let mut line = msg.line();
        line.append("\n");
        let found = self.find(msg.path().as_str());
        match found {
            Some(idx) => {
                proof {
                    lemma_find_found(self.statuses@, msg.spec_path(), 0);
                }
                let entry = self.statuses.remove(idx);
                let (key, mut text) = entry;
                text.append(line.as_str());
                self.statuses.insert(idx, (key, text));
                proof {
                    let os = old(self).statuses@;
                    assert(self.statuses@.len() == os.len());
                    assert(forall|i: int|
                        0 <= i < os.len() && i != idx ==> self.statuses@[i] == os[i]);
                    assert(self.statuses@[idx as int].0 == os[idx as int].0);
                    assert(self.statuses@[idx as int].1@ == os[idx as int].1@ + msg.spec_line()
                        + "\n"@);
                }
            },
            None => {
                proof {
                    lemma_find_none(self.statuses@, msg.spec_path(), 0);
                }
                self.statuses.push((msg.path().clone(), line));
            },
        }
        let ok_event = match &msg {
            StatusMessage::ParseAnalyses { .. } => true,
            _ => false,
        };
        let err_event = match &msg {
            StatusMessage::Read { result: Err(_), .. } => true,
            StatusMessage::ParseXml { result: Err(_), .. } => true,
            _ => false,
        };
        if ok_event && self.nok < u64::MAX {
            self.nok = self.nok + 1;
        }
        if err_event && self.nerr < u64::MAX {
            self.nerr = self.nerr + 1;
        }
    }
}

} // verus!
