//! Recording a feed to flat files and replaying it.

use crate::subscription::SubscriptionId;
use vstd::prelude::*;
use vstd::string::*;

verus! {

/// Whether a feed is recorded, replayed, or neither.
#[derive(Clone, Copy, Debug, PartialEq, Eq, Structural)]
pub enum BacktestMode {
    /// Snapshots and messages are written to files as they come in.
    ToFile,
    /// Messages are read from files in place of the venue.
    FromFile,
    /// The feed is live and nothing is written.
    Off,
}

impl BacktestMode {
    /// Whether snapshots are to be written to files.
    pub fn records(&self) -> (r: bool)
        ensures
            r == (*self == BacktestMode::ToFile),
    {
        matches!(self, BacktestMode::ToFile)
    }
}

/// The name of the file that holds the snapshot of one subscription for one
/// day.
pub open spec fn snapshot_file_name_of(subscription_id: Seq<char>, date: Seq<char>) -> Seq<char> {
    "data/snapshot_"@ + subscription_id + "_"@ + date + ".json"@
}

/// The file for the snapshot that was fetched for `subscription_id` on `date`:
/// one file per subscription and day.
pub fn snapshot_file_name(subscription_id: &SubscriptionId, date: &str) -> (r: String)
    ensures
        r@ == snapshot_file_name_of(subscription_id@, date@),
{
    let mut name = String::from_str("data/snapshot_");
    name.append(subscription_id.0.as_str());
    name.append("_");
    name.append(date);
    name.append(".json");
    name
}

/// One line of a recording: the message and a line feed.
pub fn recorded_line(data: &str) -> (r: String)
    ensures
        r@ == data@ + "\n"@,
{
    let mut line = String::from_str(data);
    line.append("\n");
    line
}

} // verus!
