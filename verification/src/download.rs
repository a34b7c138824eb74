//! A download, step by step.
//!
//! Blobs are fetched and files are written elsewhere. Here is what to do next
//! after each event of a download, and what a download amounts to.

use vstd::prelude::*;

use crate::blob::{entry_views, parsed_hash, BlobEntry};
use crate::collection::{all_hashes_readable, file_blobs, LocalSendFileMeta};
use crate::file_name::{check_leads_inside, joined, law_accepted_name_leads_inside, leads_inside};
use crate::text::{decimal, decimal_text, law_decimal_writes_number, writes_number};

verus! {

/// Why a download failed.
#[derive(Clone, Debug, PartialEq, Eq)]
pub enum ReceiveError {
    /// The provider or the connection failed; holds the cause.
    Download(String),
    /// The collection has no entries at all.
    EmptyCollection,
    /// The collection has no entries besides the metadata.
    NoFileEntries,
    /// A file was asked for that the metadata does not list.
    IndexOutOfRange {
        /// The index that was asked for.
        index: usize,
        /// The largest index of the metadata, zero where it lists no file.
        max: usize,
    },
    /// A file was asked for that has metadata but no entry.
    NoHashEntry {
        /// The index that was asked for.
        index: usize,
        /// The largest index of the entries, zero where there is none.
        max: usize,
    },
    /// A file was asked for whose name leads out of the output directory.
    FileName {
        /// The index that was asked for.
        index: usize,
        /// The name.
        file_name: String,
    },
    /// The content of a file could not be written.
    Export {
        /// The name of the file.
        file_name: String,
        /// The cause.
        cause: String,
    },
}

/// The text of an error that names an index and the largest valid one.
pub open spec fn index_message(head: Seq<char>, index: nat, middle: Seq<char>, max: nat) -> Seq<
    char,
> {
    head + decimal(index) + middle + decimal(max) + ")"@
}

impl ReceiveError {
    /// The text of the error.
    pub open spec fn text(self) -> Seq<char> {
        match self {
            ReceiveError::Download(cause) => "Download error: "@ + cause@,
            ReceiveError::EmptyCollection => "empty collection"@,
            ReceiveError::NoFileEntries => "collection has no file entries"@,
            ReceiveError::IndexOutOfRange { index, max } => index_message(
                "file index "@,
                index as nat,
                " out of range (max "@,
                max as nat,
            ),
            ReceiveError::NoHashEntry { index, max } => index_message(
                "no hash entry for file index "@,
                index as nat,
                " (max "@,
                max as nat,
            ),
            ReceiveError::FileName { index, file_name } => "file index "@ + decimal(index as nat)
                + " has an unusable name: "@ + file_name@,
            ReceiveError::Export { file_name, cause } => "export "@ + file_name@ + " failed: "@
                + cause@,
        }
    }

    /// The text of the error.
    pub fn message(&self) -> (r: String)
        ensures
            r@ == self.text(),
            *self matches ReceiveError::Download(cause) ==> r@ == "Download error: "@ + cause@,
            *self is EmptyCollection ==> r@ == "empty collection"@,
            *self is NoFileEntries ==> r@ == "collection has no file entries"@,
            *self matches ReceiveError::IndexOutOfRange { index, max } ==> names_index_and_max(
                r@,
                "file index "@,
                index as int,
                " out of range (max "@,
                max as int,
            ),
            *self matches ReceiveError::NoHashEntry { index, max } ==> names_index_and_max(
                r@,
                "no hash entry for file index "@,
                index as int,
                " (max "@,
                max as int,
            ),
            *self matches ReceiveError::FileName { index, file_name } ==> exists|
                a: Seq<char>,
            | #[trigger]
                writes_number(a, index as int) && r@ == "file index "@ + a
                    + " has an unusable name: "@ + file_name@,
            *self matches ReceiveError::Export { file_name, cause } ==> r@ == "export "@
                + file_name@ + " failed: "@ + cause@,
    {
        proof {
            law_error_text_names_what_it_holds(*self);
        }
        match self {
            ReceiveError::Download(cause) => "Download error: ".to_owned().concat(cause.as_str()),
            ReceiveError::EmptyCollection => "empty collection".to_owned(),
            ReceiveError::NoFileEntries => "collection has no file entries".to_owned(),
            ReceiveError::IndexOutOfRange { index, max } => "file index ".to_owned().concat(
                decimal_text(*index as u64).as_str(),
            ).concat(" out of range (max ").concat(decimal_text(*max as u64).as_str()).concat(")"),
            ReceiveError::NoHashEntry { index, max } => "no hash entry for file index ".to_owned(
            ).concat(decimal_text(*index as u64).as_str()).concat(" (max ").concat(
                decimal_text(*max as u64).as_str(),
            ).concat(")"),
            ReceiveError::FileName { index, file_name } => "file index ".to_owned().concat(
                decimal_text(*index as u64).as_str(),
            ).concat(" has an unusable name: ").concat(file_name.as_str()),
            ReceiveError::Export { file_name, cause } => "export ".to_owned().concat(
                file_name.as_str(),
            ).concat(" failed: ").concat(cause.as_str()),
        }
    }
}

/// Whether `text` is made of `head`, the decimal text of `index`, `middle`, the
/// decimal text of `max`, and a closing bracket.
pub open spec fn names_index_and_max(
    text: Seq<char>,
    head: Seq<char>,
    index: int,
    middle: Seq<char>,
    max: int,
) -> bool {
    exists|a: Seq<char>, b: Seq<char>| #[trigger]
        writes_number(a, index) && #[trigger] writes_number(b, max) && text == head + a + middle + b
            + ")"@
}

/// The text of an error names what it holds: the cause as it was reported, the
/// name of the file, and the indices as decimal numbers.
pub proof fn law_error_text_names_what_it_holds(error: ReceiveError)
    ensures
        error matches ReceiveError::Download(cause) ==> error.text() == "Download error: "@ + cause@,
        error is EmptyCollection ==> error.text() == "empty collection"@,
        error is NoFileEntries ==> error.text() == "collection has no file entries"@,
        error matches ReceiveError::IndexOutOfRange { index, max } ==> names_index_and_max(
            error.text(),
            "file index "@,
            index as int,
            " out of range (max "@,
            max as int,
        ),
        error matches ReceiveError::NoHashEntry { index, max } ==> names_index_and_max(
            error.text(),
            "no hash entry for file index "@,
            index as int,
            " (max "@,
            max as int,
        ),
        error matches ReceiveError::FileName { index, file_name } ==> exists|a: Seq<char>| #[trigger]
            writes_number(a, index as int) && error.text() == "file index "@ + a
                + " has an unusable name: "@ + file_name@,
        error matches ReceiveError::Export { file_name, cause } ==> error.text() == "export "@
            + file_name@ + " failed: "@ + cause@,
{
    match error {
        ReceiveError::IndexOutOfRange { index, max } => {
            law_decimal_writes_number(index as nat);
            law_decimal_writes_number(max as nat);
            assert(writes_number(decimal(index as nat), index as int));
            assert(writes_number(decimal(max as nat), max as int));
        },
        ReceiveError::NoHashEntry { index, max } => {
            law_decimal_writes_number(index as nat);
            law_decimal_writes_number(max as nat);
            assert(writes_number(decimal(index as nat), index as int));
            assert(writes_number(decimal(max as nat), max as int));
        },
        ReceiveError::FileName { index, file_name } => {
            law_decimal_writes_number(index as nat);
            assert(writes_number(decimal(index as nat), index as int));
        },
        _ => {},
    }
}

/// What happens while a collection is fetched from a provider.
#[derive(Clone, Debug, PartialEq, Eq)]
pub enum FetchEvent {
    /// The local store was asked whether it has the collection complete.
    LocalChecked(bool),
    /// So many bytes have arrived.
    Progress(u64),
    /// The provider reports that everything has been sent.
    Done,
    /// The provider reports an error; holds the cause.
    Failed(String),
    /// There will be no further reports.
    Ended,
}

/// What to do next while a collection is fetched.
#[derive(Clone, Debug, PartialEq, Eq)]
pub enum FetchAction {
    /// Request what is missing from the provider.
    Request,
    /// Wait for the next report.
    Wait,
    /// Load the collection from the local store.
    Load,
    /// Give up.
    Fail(ReceiveError),
}

/// What follows from an event while a collection is fetched.
pub open spec fn fetch_action(event: FetchEvent) -> FetchAction {
    match event {
        FetchEvent::LocalChecked(complete) => if complete {
            FetchAction::Load
        } else {
            FetchAction::Request
        },
        FetchEvent::Progress(_) => FetchAction::Wait,
        FetchEvent::Done => FetchAction::Load,
        FetchEvent::Failed(cause) => FetchAction::Fail(ReceiveError::Download(cause)),
        FetchEvent::Ended => FetchAction::Load,
    }
}

/// The provider is asked exactly where the local store lacks something. The
/// collection is loaded exactly where the local store has it complete or the
/// reports are over. Progress alone is waited on, and a failure alone ends the
/// fetch, with its cause.
pub proof fn law_fetch_decisions(event: FetchEvent)
    ensures
        fetch_action(event) is Request <==> event == FetchEvent::LocalChecked(false),
        fetch_action(event) is Load <==> event == FetchEvent::LocalChecked(true) || event is Done
            || event is Ended,
        fetch_action(event) is Wait <==> event is Progress,
        fetch_action(event) is Fail <==> event is Failed,
        event matches FetchEvent::Failed(cause) ==> fetch_action(event) == FetchAction::Fail(
            ReceiveError::Download(cause),
        ),
{
}

/// Decides what to do next while a collection is fetched.
pub fn next_fetch_action(event: FetchEvent) -> (r: FetchAction)
    ensures
        r == fetch_action(event),
        r is Request <==> event == FetchEvent::LocalChecked(false),
        r is Load <==> event == FetchEvent::LocalChecked(true) || event is Done || event is Ended,
        r is Wait <==> event is Progress,
        r is Fail <==> event is Failed,
        event matches FetchEvent::Failed(cause) ==> r == FetchAction::Fail(
            ReceiveError::Download(cause),
        ),
{
    match event {
        FetchEvent::LocalChecked(complete) => {
            if complete {
                FetchAction::Load
            } else {
                FetchAction::Request
            }
        },
        FetchEvent::Progress(_) => FetchAction::Wait,
        FetchEvent::Done => FetchAction::Load,
        FetchEvent::Failed(cause) => FetchAction::Fail(ReceiveError::Download(cause)),
        FetchEvent::Ended => FetchAction::Load,
    }
}

/// How a fetch ends on a series of events: with the first that decides
/// between loading the collection and giving up.
pub open spec fn fetch_outcome(events: Seq<FetchEvent>) -> Option<FetchAction>
    decreases events.len(),
{
    if events.len() == 0 {
        None
    } else {
        match fetch_action(events[0]) {
            FetchAction::Request | FetchAction::Wait => fetch_outcome(events.drop_first()),
            action => Some(action),
        }
    }
}

/// Once a fetch has been decided, later events do not change how it ends.
pub proof fn law_fetch_outcome_stands(events: Seq<FetchEvent>, later: Seq<FetchEvent>)
    requires
        fetch_outcome(events) is Some,
    ensures
        fetch_outcome(events + later) == fetch_outcome(events),
    decreases events.len(),
{
    if events.len() > 0 {
        assert((events + later)[0] == events[0]);
        assert((events + later).drop_first() =~= events.drop_first() + later);
        match fetch_action(events[0]) {
            FetchAction::Request | FetchAction::Wait => {
                law_fetch_outcome_stands(events.drop_first(), later);
            },
            _ => {},
        }
    }
}

/// Reports of progress decide nothing.
pub proof fn law_progress_decides_nothing(events: Seq<FetchEvent>)
    requires
        forall|i: int| 0 <= i < events.len() ==> (#[trigger] events[i]) is Progress,
    ensures
        fetch_outcome(events) is None,
    decreases events.len(),
{
    if events.len() > 0 {
        assert(events[0] is Progress);
        assert forall|i: int| 0 <= i < events.drop_first().len() implies (
        #[trigger] events.drop_first()[i]) is Progress by {
            assert(events.drop_first()[i] == events[i + 1]);
        }
        law_progress_decides_nothing(events.drop_first());
    }
}

/// A fetch fails only with the cause that the provider reported.
pub proof fn law_fetch_fails_only_as_reported(events: Seq<FetchEvent>, error: ReceiveError)
    requires
        fetch_outcome(events) == Some(FetchAction::Fail(error)),
    ensures
        exists|i: int|
            0 <= i < events.len() && (#[trigger] events[i] matches FetchEvent::Failed(cause)
                && error == ReceiveError::Download(cause)),
    decreases events.len(),
{
    if events.len() > 0 {
        match fetch_action(events[0]) {
            FetchAction::Request | FetchAction::Wait => {
                law_fetch_fails_only_as_reported(events.drop_first(), error);
                let i = choose|i: int|
                    0 <= i < events.drop_first().len() && (
                    #[trigger] events.drop_first()[i] matches FetchEvent::Failed(cause) && error
                        == ReceiveError::Download(cause));
                assert(events[i + 1] == events.drop_first()[i]);
            },
            _ => {
                assert(events[0] is Failed);
            },
        }
    }
}

/// The export of the files that were asked for, one after the other.
#[derive(Debug, PartialEq, Eq)]
pub struct DownloadSession {
    /// The files that the metadata lists.
    pub files: Vec<LocalSendFileMeta>,
    /// The entries of the file contents.
    pub entries: Vec<BlobEntry>,
    /// The indices of the files to export, in this order.
    pub indices: Vec<usize>,
    /// How many of them have been taken up.
    pub next: usize,
    /// Whether the last one taken up is still being exported.
    pub exporting: bool,
    /// How many bytes the last one taken up has.
    pub written: u64,
    /// How many bytes were exported before it.
    pub total: u64,
}

/// One file to export.
#[derive(Clone, Debug, PartialEq, Eq)]
pub struct ExportTask {
    /// The index of the file in the metadata.
    pub index: usize,
    /// The name under which to write it.
    pub file_name: String,
    /// The hash of its content.
    pub hash: [u8; 32],
}

/// What to do next in a download.
#[derive(Clone, Debug, PartialEq, Eq)]
pub enum DownloadStep {
    /// Export a file.
    Export(ExportTask),
    /// The download is over; so many bytes were exported.
    Finished(u64),
    /// Give up.
    Fail(ReceiveError),
}

/// What happens while a file is exported.
#[derive(Clone, Debug, PartialEq, Eq)]
pub enum ExportEvent {
    /// The file has so many bytes.
    Size(u64),
    /// The file is complete.
    Done,
    /// The file could not be written; holds the cause.
    Failed(String),
    /// Anything else.
    Other,
    /// There will be no further reports.
    Ended,
}

/// What to do next while a file is exported.
#[derive(Clone, Debug, PartialEq, Eq)]
pub enum ExportStep {
    /// Wait for the next report.
    Wait,
    /// The file is complete.
    Complete,
    /// Give up.
    Fail(ReceiveError),
}

/// The largest index into a list of `len` items, zero where it is empty.
pub open spec fn largest_index(len: nat) -> nat {
    if len == 0 {
        0
    } else {
        (len - 1) as nat
    }
}

/// The largest index is one below the number of items, if there are any.
pub proof fn law_largest_index(len: nat)
    ensures
        len > 0 ==> largest_index(len) + 1 == len,
        len == 0 ==> largest_index(len) == 0,
{
}

/// The largest index into a list of `len` items, zero where it is empty.
fn largest_index_of(len: usize) -> (r: usize)
    ensures
        r == largest_index(len as nat),
        len > 0 ==> r == len - 1,
        len == 0 ==> r == 0,
{
    if len == 0 {
        0
    } else {
        len - 1
    }
}

impl DownloadSession {
    /// The file that is being exported has metadata and an entry.
    pub open spec fn wf(self) -> bool {
        &&& self.next <= self.indices@.len()
        &&& self.exporting ==> self.next > 0 && self.current() < self.files@.len() && self.current()
            < self.entries@.len()
    }

    /// The index of the file that was last taken up.
    pub open spec fn current(self) -> int {
        self.indices@[self.next - 1] as int
    }

    /// The download after the next file was taken up.
    pub open spec fn taken_up(self) -> Self {
        DownloadSession { next: (self.next + 1) as usize, exporting: true, written: 0, ..self }
    }

    /// The download after the size of the file that is being exported became
    /// known.
    pub open spec fn sized(self, size: u64) -> Self {
        DownloadSession { written: size, ..self }
    }

    /// The download after the file that is being exported is complete.
    pub open spec fn completed(self) -> Self {
        DownloadSession {
            exporting: false,
            total: (self.total + self.written) as u64,
            ..self
        }
    }

    /// What to do next when no file is being exported: nothing more where the
    /// download was cancelled or all files are exported, and otherwise to
    /// export the next file, which must have metadata, an entry, and a name
    /// that leads to a place inside the output directory.
    pub open spec fn is_next_step(self, cancelled: bool, windows: bool, step: DownloadStep) -> bool {
        if cancelled || self.next >= self.indices@.len() {
            step == DownloadStep::Finished(self.total)
        } else {
            let index = self.indices@[self.next as int];
            if index >= self.files@.len() {
                step == DownloadStep::Fail(
                    ReceiveError::IndexOutOfRange {
                        index,
                        max: largest_index(self.files@.len()) as usize,
                    },
                )
            } else if index >= self.entries@.len() {
                step == DownloadStep::Fail(
                    ReceiveError::NoHashEntry {
                        index,
                        max: largest_index(self.entries@.len()) as usize,
                    },
                )
            } else if !leads_inside(self.files@[index as int].file_name@, windows) {
                step matches DownloadStep::Fail(ReceiveError::FileName { index: i, file_name }) && i
                    == index && file_name@ == self.files@[index as int].file_name@
            } else {
                step matches DownloadStep::Export(task) && task.index == index && task.file_name@
                    == self.files@[index as int].file_name@ && task.hash@
                    == self.entries@[index as int].hash@
            }
        }
    }

    /// Decides what to do next when no file is being exported. `windows` tells by
    /// which path rules names are read.
    pub fn next_step(&mut self, cancelled: bool, windows: bool) -> (r: DownloadStep)
        requires
            old(self).wf(),
            !old(self).exporting,
        ensures
            final(self).wf(),
            old(self).is_next_step(cancelled, windows, r),
            *final(self) == if r is Export {
                old(self).taken_up()
            } else {
                *old(self)
            },
            final(self).files == old(self).files,
            final(self).entries == old(self).entries,
            final(self).indices == old(self).indices,
            final(self).total == old(self).total,
            r is Finished <==> cancelled || old(self).next >= old(self).indices@.len(),
            r matches DownloadStep::Finished(total) ==> total == old(self).total,
            r matches DownloadStep::Export(task) ==> {
                &&& task.index == old(self).indices@[old(self).next as int]
                &&& task.index < old(self).files@.len()
                &&& task.index < old(self).entries@.len()
                &&& task.file_name@ == old(self).files@[task.index as int].file_name@
                &&& task.hash@ == old(self).entries@[task.index as int].hash@
                &&& leads_inside(task.file_name@, windows)
                &&& final(self).next == old(self).next + 1
                &&& final(self).exporting
                &&& final(self).written == 0
            },
            r !is Export ==> *final(self) == *old(self),
    {
        if cancelled || self.next >= self.indices.len() {
            return DownloadStep::Finished(self.total);
        }
        let index: usize = self.indices[self.next];
        if index >= self.files.len() {
            return DownloadStep::Fail(
                ReceiveError::IndexOutOfRange { index, max: largest_index_of(self.files.len()) },
            );
        }
        if index >= self.entries.len() {
            return DownloadStep::Fail(
                ReceiveError::NoHashEntry { index, max: largest_index_of(self.entries.len()) },
            );
        }
        let file_name = self.files[index].file_name.clone();
        if !check_leads_inside(file_name.as_str(), windows) {
            return DownloadStep::Fail(ReceiveError::FileName { index, file_name });
        }
        let task = ExportTask {
            index,
            file_name,
            hash: self.entries[index].hash,
        };
        self.next = self.next + 1;
        self.exporting = true;
        self.written = 0;
        DownloadStep::Export(task)
    }

    /// Takes note of an event while a file is exported, and decides what to do
    /// next. Only the size of the file is kept. An export whose reports end is
    /// complete.
    pub fn export_event(&mut self, event: ExportEvent) -> (r: ExportStep)
        requires
            old(self).wf(),
            old(self).exporting,
        ensures
            final(self).wf(),
            match event {
                ExportEvent::Size(size) => r == ExportStep::Wait && *final(self) == old(
                    self,
                ).sized(size),
                ExportEvent::Done | ExportEvent::Ended => r == ExportStep::Complete && *final(self)
                    == *old(self),
                ExportEvent::Failed(cause) => {
                    &&& r matches ExportStep::Fail(ReceiveError::Export { file_name, cause: c })
                        && c == cause && file_name@ == old(self).files@[old(
                        self,
                    ).current()].file_name@
                    &&& *final(self) == *old(self)
                },
                ExportEvent::Other => r == ExportStep::Wait && *final(self) == *old(self),
            },
            event matches ExportEvent::Size(size) ==> final(self).written == size,
            event !is Size ==> final(self).written == old(self).written,
            final(self).files == old(self).files,
            final(self).entries == old(self).entries,
            final(self).indices == old(self).indices,
            final(self).next == old(self).next,
            final(self).exporting,
            final(self).total == old(self).total,
    {
        match event {
            ExportEvent::Size(size) => {
                self.written = size;
                ExportStep::Wait
            },
            ExportEvent::Done | ExportEvent::Ended => ExportStep::Complete,
            ExportEvent::Failed(cause) => {
                let index: usize = self.indices[self.next - 1];
                let file_name = self.files[index].file_name.clone();
                ExportStep::Fail(ReceiveError::Export { file_name, cause })
            },
            ExportEvent::Other => ExportStep::Wait,
        }
    }

    /// Whether the bytes of the file that is being exported can be added to
    /// those exported before it.
    pub fn total_fits(&self) -> (r: bool)
        ensures
            r == (self.total + self.written <= u64::MAX),
    {
        self.written <= u64::MAX - self.total
    }

    /// Concludes the export of a file. Gives its index and how many bytes it
    /// has, for the report of progress.
    pub fn finish_export(&mut self) -> (r: (usize, u64))
        requires
            old(self).wf(),
            old(self).exporting,
            old(self).total + old(self).written <= u64::MAX,
        ensures
            final(self).wf(),
            *final(self) == old(self).completed(),
            final(self).files == old(self).files,
            final(self).entries == old(self).entries,
            final(self).indices == old(self).indices,
            final(self).next == old(self).next,
            !final(self).exporting,
            final(self).written == old(self).written,
            final(self).total == old(self).total + old(self).written,
            r.0 == old(self).indices@[old(self).next - 1],
            r.0 == old(self).current(),
            r.1 == old(self).written,
    {
        let index: usize = self.indices[self.next - 1];
        self.exporting = false;
        self.total = self.total + self.written;
        (index, self.written)
    }
}

/// The sum of the sizes.
pub open spec fn sum(sizes: Seq<u64>) -> nat
    decreases sizes.len(),
{
    if sizes.len() == 0 {
        0
    } else {
        sum(sizes.drop_last()) + sizes.last() as nat
    }
}

/// The sum of no sizes is zero, that of one is the size, and that of two lists
/// together is the sum of both.
pub proof fn law_sum_adds_up(front: Seq<u64>, back: Seq<u64>, size: u64)
    ensures
        sum(Seq::<u64>::empty()) == 0,
        sum(seq![size]) == size,
        sum(front + back) == sum(front) + sum(back),
    decreases back.len(),
{
    assert(seq![size].drop_last() =~= Seq::<u64>::empty());
    assert(sum(seq![size].drop_last()) == 0);
    if back.len() == 0 {
        assert(front + back =~= front);
    } else {
        law_sum_adds_up(front, back.drop_last(), size);
        assert((front + back).drop_last() =~= front + back.drop_last());
        assert((front + back).last() == back.last());
    }
}

/// Taking up a file moves on by one and starts its size at zero, its size is
/// taken as reported, and completing it adds the size to the total. Nothing else
/// of the download changes.
pub proof fn law_session_changes(session: DownloadSession, size: u64)
    requires
        session.next < session.indices@.len(),
    ensures
        session.taken_up().next == session.next + 1,
        session.taken_up().exporting,
        session.taken_up().written == 0,
        session.taken_up().total == session.total,
        session.taken_up().files == session.files,
        session.taken_up().entries == session.entries,
        session.taken_up().indices == session.indices,
        session.taken_up().current() == session.indices@[session.next as int],
        session.sized(size).written == size,
        session.sized(size).next == session.next,
        session.sized(size).exporting == session.exporting,
        session.sized(size).total == session.total,
        session.sized(size).files == session.files,
        session.sized(size).entries == session.entries,
        session.sized(size).indices == session.indices,
        session.total + session.written <= u64::MAX ==> session.completed().total == session.total
            + session.written,
        !session.completed().exporting,
        session.completed().next == session.next,
        session.completed().files == session.files,
        session.completed().entries == session.entries,
        session.completed().indices == session.indices,
{
    assert(session.indices.len() == session.indices@.len());
}

/// A download is over exactly where it was cancelled or no index is left, and
/// reports the total. Otherwise it looks at the file with the next index: one
/// without metadata, without an entry or with a name that leads out of the
/// directory fails, with the index; any other is exported under its name with
/// the hash of its entry.
pub proof fn law_next_step_looks_at_next_index(
    session: DownloadSession,
    cancelled: bool,
    windows: bool,
    step: DownloadStep,
)
    requires
        session.is_next_step(cancelled, windows, step),
    ensures
        step is Finished <==> cancelled || session.next >= session.indices@.len(),
        step matches DownloadStep::Finished(total) ==> total == session.total,
        !cancelled && session.next < session.indices@.len() ==> ({
            let index = session.indices@[session.next as int];
            &&& step is Export <==> index < session.files@.len() && index < session.entries@.len()
                && leads_inside(session.files@[index as int].file_name@, windows)
            &&& step matches DownloadStep::Export(task) ==> task.index == index && task.file_name@
                == session.files@[index as int].file_name@ && task.hash@
                == session.entries@[index as int].hash@
            &&& index >= session.files@.len() ==> (step matches DownloadStep::Fail(
                ReceiveError::IndexOutOfRange { index: i, max },
            ) && i == index && (session.files@.len() == 0 ==> max == 0) && (session.files@.len() > 0
                && session.files@.len() <= usize::MAX ==> max == session.files@.len() - 1))
            &&& index < session.files@.len() && index >= session.entries@.len() ==> (
            step matches DownloadStep::Fail(ReceiveError::NoHashEntry { index: i, max }) && i
                == index && (session.entries@.len() == 0 ==> max == 0) && (session.entries@.len()
                > 0 && session.entries@.len() <= usize::MAX ==> max == session.entries@.len() - 1))
            &&& index < session.files@.len() && index < session.entries@.len() && !leads_inside(
                session.files@[index as int].file_name@,
                windows,
            ) ==> (step matches DownloadStep::Fail(ReceiveError::FileName { index: i, file_name })
                && i == index && file_name@ == session.files@[index as int].file_name@)
        }),
{
}

/// The download after further files of the given sizes were exported.
pub open spec fn after_exports(session: DownloadSession, sizes: Seq<u64>) -> DownloadSession
    decreases sizes.len(),
{
    if sizes.len() == 0 {
        session
    } else {
        after_exports(session, sizes.drop_last()).taken_up().sized(sizes.last()).completed()
    }
}

/// The total that a download reports is the sum of the sizes of the files that
/// it exported.
pub proof fn law_total_is_sum_of_sizes(session: DownloadSession, sizes: Seq<u64>)
    requires
        session.wf(),
        !session.exporting,
        session.next + sizes.len() <= session.indices@.len(),
        session.total + sum(sizes) <= u64::MAX,
    ensures
        after_exports(session, sizes).total == session.total + sum(sizes),
        after_exports(session, sizes).next == session.next + sizes.len(),
        !after_exports(session, sizes).exporting,
        after_exports(session, sizes).files == session.files,
        after_exports(session, sizes).entries == session.entries,
        after_exports(session, sizes).indices == session.indices,
    decreases sizes.len(),
{
    if sizes.len() > 0 {
        law_total_is_sum_of_sizes(session, sizes.drop_last());
        assert(session.indices.len() == session.indices@.len());
    }
}

/// Where every index that was asked for has metadata and an entry, and the name
/// leads inside the output directory, a download that is not cancelled fails at
/// no file: after any number of exports it
/// exports the next file, and after the last it reports the total.
pub proof fn law_valid_download_never_fails(
    session: DownloadSession,
    sizes: Seq<u64>,
    windows: bool,
    step: DownloadStep,
)
    requires
        session.wf(),
        !session.exporting,
        session.next == 0,
        session.total == 0,
        forall|i: int|
            0 <= i < session.indices@.len() ==> (#[trigger] session.indices@[i])
                < session.files@.len() && session.indices@[i] < session.entries@.len()
                && leads_inside(session.files@[session.indices@[i] as int].file_name@, windows),
        sizes.len() <= session.indices@.len(),
        sum(sizes) <= u64::MAX,
        after_exports(session, sizes).is_next_step(false, windows, step),
    ensures
        sizes.len() < session.indices@.len() ==> (step matches DownloadStep::Export(task)
            && task.index == session.indices@[sizes.len() as int]),
        sizes.len() == session.indices@.len() ==> step == DownloadStep::Finished(sum(sizes) as u64),
{
    law_total_is_sum_of_sizes(session, sizes);
}

/// A download that is cancelled takes up no further file.
pub proof fn law_cancelled_download_stops(
    session: DownloadSession,
    windows: bool,
    step: DownloadStep,
)
    requires
        session.is_next_step(true, windows, step),
    ensures
        step == DownloadStep::Finished(session.total),
{
}

/// Whatever names the sender gave, every file that a download exports lies
/// inside the directory that its name is joined to.
pub proof fn law_exports_stay_in_directory(
    session: DownloadSession,
    cancelled: bool,
    windows: bool,
    step: DownloadStep,
    output_dir: Seq<Seq<char>>,
)
    requires
        session.is_next_step(cancelled, windows, step),
    ensures
        step matches DownloadStep::Export(task) ==> output_dir.is_prefix_of(
            joined(output_dir, task.file_name@, windows),
        ) && joined(output_dir, task.file_name@, windows).len() > output_dir.len(),
{
    if step is Export {
        law_accepted_name_leads_inside(output_dir, step->Export_0.file_name@, windows);
    }
}

/// Where every name leads inside the output directory, a step that is not
/// cancelled fails exactly where its index has no metadata or no entry.
pub proof fn law_fails_only_out_of_range(
    session: DownloadSession,
    windows: bool,
    step: DownloadStep,
)
    requires
        session.next < session.indices@.len(),
        forall|i: int|
            0 <= i < session.files@.len() ==> leads_inside(
                (#[trigger] session.files@[i]).file_name@,
                windows,
            ),
        session.is_next_step(false, windows, step),
    ensures
        step is Fail <==> session.indices@[session.next as int] >= session.files@.len()
            || session.indices@[session.next as int] >= session.entries@.len(),
{
}

/// A receiver that asks for a file of a collection that the sender listed, under
/// a name that leads inside the output directory, is given the content and the name of that file.
pub proof fn law_listed_file_is_exported(
    session: DownloadSession,
    files: Seq<LocalSendFileMeta>,
    windows: bool,
    step: DownloadStep,
)
    requires
        all_hashes_readable(files),
        session.files@ == files,
        entry_views(session.entries@) == file_blobs(files),
        session.next < session.indices@.len(),
        session.indices@[session.next as int] < files.len(),
        leads_inside(files[session.indices@[session.next as int] as int].file_name@, windows),
        session.is_next_step(false, windows, step),
    ensures
        step matches DownloadStep::Export(task) && task.index
            == session.indices@[session.next as int] && task.file_name@
            == files[task.index as int].file_name@ && task.hash@ == parsed_hash(
            files[task.index as int].hash@,
        )->Ok_0,
{
    let index = session.indices@[session.next as int] as int;
    assert(entry_views(session.entries@).len() == session.entries@.len());
    assert(entry_views(session.entries@)[index] == session.entries@[index]@);
    assert(file_blobs(files)[index] == (
        files[index].hash@,
        parsed_hash(files[index].hash@)->Ok_0,
    ));
}

} // verus!
