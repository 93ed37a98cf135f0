//! Which log files are read, and in which order.

use crate::logs::{
    collect_ocsf_log_files, is_log, log_available, logs_to_scan, newest_first, paths_in_order,
    LogEntry,
};
use vstd::prelude::*;

verus! {

/// Whether a file is an OCSF log file: its name begins as theirs do, and it is
/// known when it was last modified.
pub open spec fn counts<P>(entry: LogEntry<P>) -> bool {
    &&& entry.file_name@.len() >= 14
    &&& entry.file_name@.take(14) == "openshell-ocsf"@
    &&& entry.modified is Some
}

/// Whether `order` has the place of every log file among the entries, each once:
/// the file modified last first, and of two modified at the same time the one
/// found first.
pub open spec fn is_order<P>(entries: Seq<LogEntry<P>>, order: Seq<int>) -> bool {
    &&& forall|i: int|
        0 <= i < entries.len() && counts(#[trigger] entries[i]) ==> order.contains(i)
    &&& forall|k: int|
        0 <= k < order.len() ==> 0 <= #[trigger] order[k] < entries.len() && counts(
            entries[order[k]],
        )
    &&& forall|k: int, l: int|
        0 <= k < l < order.len() ==> {
            ||| entries[#[trigger] order[k]].modified->0 > entries[#[trigger] order[l]].modified->0
            ||| entries[order[k]].modified->0 == entries[order[l]].modified->0 && order[k]
                < order[l]
        }
}

/// Whether paths are those of the first `most` files of an order, or of all of
/// them if they are fewer.
pub open spec fn are_first<P>(
    paths: Seq<P>,
    entries: Seq<LogEntry<P>>,
    order: Seq<int>,
    most: int,
) -> bool {
    &&& paths.len() == if order.len() <= most {
        order.len() as int
    } else {
        most
    }
    &&& forall|k: int|
        0 <= k < paths.len() ==> #[trigger] paths[k] == entries[order[k]].path
}

proof fn lemma_counts<P>(entry: LogEntry<P>)
    ensures
        is_log(entry) <==> counts(entry),
{
    reveal_strlit("openshell-ocsf");
    let prefix = "openshell-ocsf"@;
    assert(prefix.len() == 14);
    if entry.file_name@.len() >= 14 {
        assert(entry.file_name@.subrange(0, 14) =~= entry.file_name@.take(14));
    }
}

proof fn lemma_order<P>(entries: Seq<LogEntry<P>>, order: Seq<int>)
    requires
        newest_first(entries, order),
    ensures
        is_order(entries, order),
{
    assert forall|i: int| 0 <= i < entries.len() && counts(#[trigger] entries[i]) implies order.contains(
        i,
    ) by {
        lemma_counts(entries[i]);
    }
    assert forall|k: int| 0 <= k < order.len() implies 0 <= #[trigger] order[k] < entries.len()
        && counts(entries[order[k]]) by {
        lemma_counts(entries[order[k]]);
    }
}

/// The log files that are listed are the ones modified last, as many as were
/// asked for, and the one modified last first.
pub proof fn law_latest_logs_are_listed<P>(
    entries: Vec<LogEntry<P>>,
    max_files: usize,
    paths: Vec<P>,
)
    requires
        call_ensures(collect_ocsf_log_files::<P>, (entries, max_files), paths),
    ensures
        exists|order: Seq<int>| #[trigger]
            is_order(entries@, order) && are_first(paths@, entries@, order, max_files as int),
{
    let order = choose|order: Seq<int>| #[trigger]
        newest_first(entries@, order) && paths@ == paths_in_order(entries@, order, max_files);
    lemma_order(entries@, order);
    assert(are_first(paths@, entries@, order, max_files as int));
}

/// Two log files are read for denials, the two modified last, and none if the
/// directory could not be read.
pub proof fn law_two_latest_logs_are_read<P>(entries: Option<Vec<LogEntry<P>>>, paths: Vec<P>)
    requires
        call_ensures(logs_to_scan::<P>, (entries,), paths),
    ensures
        match entries {
            Some(entries) => exists|order: Seq<int>| #[trigger]
                is_order(entries@, order) && are_first(paths@, entries@, order, 2),
            None => paths@.len() == 0,
        },
{
    if let Some(entries) = entries {
        let order = choose|order: Seq<int>| #[trigger]
            newest_first(entries@, order) && paths@ == paths_in_order(entries@, order, 2);
        lemma_order(entries@, order);
        assert(are_first(paths@, entries@, order, 2));
    }
}

/// A log is available just where one of the files in the directory is a log
/// file.
pub proof fn law_log_is_available_if_there_is_one<P>(
    entries: Option<Vec<LogEntry<P>>>,
    available: bool,
)
    requires
        call_ensures(log_available::<P>, (entries,), available),
    ensures
        available <==> (entries matches Some(entries) && exists|i: int|
            0 <= i < entries@.len() && counts(#[trigger] entries@[i])),
{
    if let Some(entries) = entries {
        assert forall|i: int| 0 <= i < entries@.len() implies is_log(entries@[i])
            == counts(#[trigger] entries@[i]) by {
            lemma_counts(entries@[i]);
        }
        if available {
            let i = choose|i: int|
                0 <= i < entries@.len() && is_log(#[trigger] entries@[i]);
            assert(counts(entries@[i]));
        }
    }
}

} // verus!
