//! The OCSF log files in the log directory.

use crate::text::begins_with;
use vstd::prelude::*;

verus! {

/// The directory that the OCSF log is written to.
pub const OCSF_LOG_DIR: &'static str = "/var/log";

/// How the name of an OCSF log file begins.
pub const OCSF_LOG_PREFIX: &'static str = "openshell-ocsf";

/// How many log files are read for denials. The log is rotated once a day: two
/// files are enough that a request just past midnight still has the denials of
/// the day before.
pub const DENIAL_LOG_FILES_TO_SCAN: usize = 2;

/// A file in the log directory.
#[derive(Debug)]
pub struct LogEntry<P> {
    /// The name of the file.
    pub file_name: String,
    /// When the file was last modified, in nanoseconds since the Unix epoch,
    /// if that is known.
    pub modified: Option<i128>,
    /// Where the file is.
    pub path: P,
}

/// Whether a file counts as an OCSF log file.
pub open spec fn is_log<P>(entry: LogEntry<P>) -> bool {
    &&& OCSF_LOG_PREFIX@.is_prefix_of(entry.file_name@)
    &&& entry.modified is Some
}

/// Whether entry `i` is listed before entry `j`: it was modified later, or at
/// the same time and is found first.
pub open spec fn listed_before<P>(entries: Seq<LogEntry<P>>, i: int, j: int) -> bool {
    ||| entries[i].modified->0 > entries[j].modified->0
    ||| entries[i].modified->0 == entries[j].modified->0 && i < j
}

/// Whether `order` lists the log files among the entries, each once, from the
/// one modified last to the one modified first.
pub open spec fn newest_first<P>(entries: Seq<LogEntry<P>>, order: Seq<int>) -> bool {
    &&& forall|k: int|
        0 <= k < order.len() ==> 0 <= #[trigger] order[k] < entries.len() && is_log(
            entries[order[k]],
        )
    &&& forall|k: int, l: int|
        0 <= k < l < order.len() ==> listed_before(entries, #[trigger] order[k], #[trigger] order[l])
    &&& forall|i: int|
        0 <= i < entries.len() && is_log(#[trigger] entries[i]) ==> order.contains(i)
}

/// Where the first `max_files` entries of an order are.
pub open spec fn paths_in_order<P>(
    entries: Seq<LogEntry<P>>,
    order: Seq<int>,
    max_files: usize,
) -> Seq<P> {
    let n: int = if order.len() <= max_files {
        order.len() as int
    } else {
        max_files as int
    };
    Seq::new(n as nat, |k: int| entries[order[k]].path)
}

/// Lists the log files among the entries of the log directory, the one
/// modified last first, and no more than `max_files` of them.
pub fn collect_ocsf_log_files<P>(entries: Vec<LogEntry<P>>, max_files: usize) -> (paths: Vec<P>)
    ensures
        exists|order: Seq<int>|
            #[trigger] newest_first(entries@, order) && paths@ == paths_in_order(
                entries@,
                order,
                max_files,
            ),
{
    let ghost all = entries@;
    let ghost mut order: Seq<int> = seq![];
    let mut times: Vec<i128> = Vec::new();
    let mut paths: Vec<P> = Vec::new();
    for entry in it: entries
        invariant
            it.seq() == all,
            newest_first(all.take(it.index() as int), order),
            times@.len() == order.len(),
            paths@.len() == order.len(),
            forall|k: int|
                0 <= k < order.len() ==> times@[k] == all[#[trigger] order[k]].modified->0
                    && paths@[k] == all[order[k]].path,
    {
        let ghost n = it.index() as int;
        let ghost had = all.take(n);
        let ghost have = all.take(n + 1);
        assert(had =~= have.take(n));
        assert(have.last() == entry);
        if begins_with(entry.file_name.as_str(), OCSF_LOG_PREFIX) {
            if let Some(time) = entry.modified {
                let mut at: usize = 0;
                while at < times.len() && times[at] >= time
                    invariant
                        at <= times@.len(),
                        forall|k: int| 0 <= k < at ==> times@[k] >= time,
                    ensures
                        at <= times@.len(),
                        forall|k: int| 0 <= k < at ==> times@[k] >= time,
                        at < times@.len() ==> times@[at as int] < time,
                    decreases times@.len() - at,
                {
                    at += 1;
                }
                let ghost placed = order.insert(at as int, n);
                proof {
                    lemma_placed(had, have, order, at as int);
                    order = placed;
                }
                times.insert(at, time);
                paths.insert(at, entry.path);
            } else {
                proof {
                    lemma_passed(had, have, order);
                }
            }
        } else {
            proof {
                lemma_passed(had, have, order);
            }
        }
    }
    assert(all.take(all.len() as int) =~= all);
    paths.truncate(max_files);
    assert(paths@ =~= paths_in_order(all, order, max_files));
    paths
}

/// Whether there is a log file among the entries of the log directory.
/// `entries` is `None` if the directory could not be read.
pub fn log_available<P>(entries: Option<Vec<LogEntry<P>>>) -> (available: bool)
    ensures
        available == (entries matches Some(entries) && exists|i: int|
            0 <= i < entries@.len() && is_log(#[trigger] entries@[i])),
{
    match entries {
        Some(entries) => {
            let ghost all = entries@;
            let paths = collect_ocsf_log_files(entries, 1);
            proof {
                let order = choose|order: Seq<int>|
                    #[trigger] newest_first(all, order) && paths@ == paths_in_order(all, order, 1);
                if paths@.len() > 0 {
                    assert(is_log(all[order[0]]));
                }
                if exists|i: int| 0 <= i < all.len() && is_log(#[trigger] all[i]) {
                    let i = choose|i: int| 0 <= i < all.len() && is_log(#[trigger] all[i]);
                    assert(order.contains(i));
                }
            }
            paths.len() > 0
        },
        None => false,
    }
}

/// Lists the log files to read for denials, the most recent first. `entries`
/// is `None` if the directory could not be read: then there are none.
pub fn logs_to_scan<P>(entries: Option<Vec<LogEntry<P>>>) -> (paths: Vec<P>)
    ensures
        match entries {
            Some(entries) => exists|order: Seq<int>|
                #[trigger] newest_first(entries@, order) && paths@ == paths_in_order(
                    entries@,
                    order,
                    DENIAL_LOG_FILES_TO_SCAN,
                ),
            None => paths@.len() == 0,
        },
{
    match entries {
        Some(entries) => collect_ocsf_log_files(entries, DENIAL_LOG_FILES_TO_SCAN),
        None => Vec::new(),
    }
}

/// A file that is not a log file changes no order.
proof fn lemma_passed<P>(had: Seq<LogEntry<P>>, have: Seq<LogEntry<P>>, order: Seq<int>)
    requires
        newest_first(had, order),
        have.len() == had.len() + 1,
        had == have.take(had.len() as int),
        !is_log(have.last()),
    ensures
        newest_first(have, order),
{
    assert forall|i: int| 0 <= i < have.len() && is_log(#[trigger] have[i]) implies order.contains(
        i,
    ) by {
        assert(i < had.len());
        assert(is_log(had[i]));
    }
}

/// A log file takes its place behind those modified no earlier.
proof fn lemma_placed<P>(
    had: Seq<LogEntry<P>>,
    have: Seq<LogEntry<P>>,
    order: Seq<int>,
    at: int,
)
    requires
        newest_first(had, order),
        have.len() == had.len() + 1,
        had == have.take(had.len() as int),
        is_log(have.last()),
        0 <= at <= order.len(),
        forall|k: int|
            0 <= k < at ==> have[#[trigger] order[k]].modified->0 >= have.last().modified->0,
        at < order.len() ==> have[order[at]].modified->0 < have.last().modified->0,
    ensures
        newest_first(have, order.insert(at, had.len() as int)),
{
    let n = had.len() as int;
    let placed = order.insert(at, n);
    assert forall|k: int, l: int| 0 <= k < l < placed.len() implies listed_before(
        have,
        #[trigger] placed[k],
        #[trigger] placed[l],
    ) by {
        let a = if k < at {
            k
        } else {
            k - 1
        };
        let b = if l < at {
            l
        } else {
            l - 1
        };
        if k != at && l != at {
            assert(listed_before(had, order[a], order[b]));
        } else if l == at {
            assert(placed[k] == order[k]);
        } else {
            assert(placed[l] == order[b]);
            if b > at {
                assert(listed_before(had, order[at], order[b]));
            }
        }
    }
    assert forall|i: int| 0 <= i < have.len() && is_log(#[trigger] have[i]) implies placed.contains(
        i,
    ) by {
        if i < n {
            assert(is_log(had[i]));
            let k = order.index_of(i);
            assert(order[k] == i);
            assert(placed[if k < at {
                k
            } else {
                k + 1
            }] == i);
        } else {
            assert(placed[at] == i);
        }
    }
}

} // verus!
