//! The listing of a run: the records of every file that held an entry, in
//! the order in which the files were taken, and the number of files that
//! could be read but held no entry.

use crate::decimal::{decimal, decimal_text};
use crate::decode::{read_entry, reading, Undecodable};
use crate::entry::{flatten, flattened, EntryFields, EntryView, Malformed};
use crate::record::{line_of, OutputRecord, RecordView};
use vstd::prelude::*;
use vstd::string::*;

verus! {

/// A candidate file: where it is, and its text if it could be read.
#[derive(Debug, Clone, PartialEq, Eq)]
pub struct SourceFile {
    /// Location of the file.
    pub path: String,
    /// The text of the file; `None` where it could not be read as text.
    pub contents: Option<String>,
}

/// What a run has gathered so far.
#[derive(Debug, Clone, PartialEq, Eq)]
pub struct Listing {
    /// The records of the entries, file after file.
    pub records: Vec<OutputRecord>,
    /// How many files were read and held no entry.
    pub failed: u64,
}

/// A run that stopped: the file at `index` held an entry that lacks a
/// required field.
#[derive(Debug, Clone, Copy, PartialEq, Eq, Structural)]
pub struct Rejected {
    /// Position of the file among those given.
    pub index: usize,
    /// The field that its entry lacks.
    pub defect: Malformed,
}

/// A [`SourceFile`] as mathematical values.
pub ghost struct SourceView {
    pub path: Seq<char>,
    pub contents: Option<Seq<char>>,
}

/// A [`Listing`] as mathematical values.
pub ghost struct ListingView {
    pub records: Seq<RecordView>,
    pub failed: nat,
}

impl View for SourceFile {
    type V = SourceView;

    open spec fn view(&self) -> SourceView {
        SourceView { path: self.path@, contents: self.contents.deep_view() }
    }
}

impl DeepView for SourceFile {
    type V = SourceView;

    open spec fn deep_view(&self) -> SourceView {
        self@
    }
}

impl View for Listing {
    type V = ListingView;

    open spec fn view(&self) -> ListingView {
        ListingView { records: self.records.deep_view(), failed: self.failed as nat }
    }
}

/// The listing of a run that has taken no file yet.
pub open spec fn empty_listing() -> ListingView {
    ListingView { records: Seq::empty(), failed: 0 }
}

/// The listing after an entry: its records are appended, unless it lacks a
/// required field.
pub open spec fn with_entry(l: ListingView, e: EntryView) -> Result<ListingView, Malformed> {
    match flattened(e) {
        Ok(records) => Ok(ListingView { records: l.records + records, failed: l.failed }),
        Err(m) => Err(m),
    }
}

/// The listing after a file that was read and held no entry.
pub open spec fn with_failure(l: ListingView) -> ListingView {
    ListingView { records: l.records, failed: l.failed + 1 }
}

/// The listing after one more file. A file that could not be read changes
/// nothing; one that holds no entry is counted; one that holds an entry adds
/// the records of the entry.
pub open spec fn with_file(l: ListingView, file: SourceView) -> Result<ListingView, Malformed> {
    match file.contents {
        None => Ok(l),
        Some(text) => match reading(file.path, text) {
            Ok(e) => with_entry(l, e),
            Err(_) => Ok(with_failure(l)),
        },
    }
}

/// The listing after a sequence of files, taken in order. The run stops at
/// the first file whose entry lacks a required field.
pub open spec fn with_files(l: ListingView, files: Seq<SourceView>) -> Result<ListingView, Rejected>
    decreases files.len(),
{
    if files.len() == 0 {
        Ok(l)
    } else {
        match with_files(l, files.drop_last()) {
            Ok(before) => match with_file(before, files.last()) {
                Ok(after) => Ok(after),
                Err(defect) => Err(Rejected { index: (files.len() - 1) as usize, defect }),
            },
            Err(r) => Err(r),
        }
    }
}

/// The records that a file contributes: those of its entry, and none where
/// it could not be read, holds no entry, or holds one that lacks a required
/// field.
pub open spec fn records_from(file: SourceView) -> Seq<RecordView> {
    match file.contents {
        None => Seq::empty(),
        Some(text) => match reading(file.path, text) {
            Ok(e) => match flattened(e) {
                Ok(records) => records,
                Err(_) => Seq::empty(),
            },
            Err(_) => Seq::empty(),
        },
    }
}

/// The file was read and holds no entry.
pub open spec fn fails_to_decode(file: SourceView) -> bool {
    file.contents matches Some(text) && reading(file.path, text) is Err
}

/// The lines that a listing prints, one for each record.
pub open spec fn lines_of(records: Seq<RecordView>) -> Seq<Seq<char>> {
    records.map_values(|r: RecordView| line_of(r))
}

/// The diagnostic line of a run: none where every file that was read held an
/// entry.
pub open spec fn report_of(failed: nat) -> Option<Seq<char>> {
    if failed == 0 {
        None
    } else {
        Some("Failed parsing "@ + decimal(failed) + " desktop files"@)
    }
}

impl Listing {
    /// A listing with no record and no failure.
    pub fn new() -> (l: Listing)
        ensures
            l@ == empty_listing(),
    {
        let l = Listing { records: Vec::new(), failed: 0 };
        assert(l.records.deep_view() =~= Seq::<RecordView>::empty());
        l
    }

    /// Appends the records of an entry. An entry that lacks a required field
    /// is reported and leaves the listing as it was.
    pub fn add_entry(&mut self, entry: &EntryFields) -> (r: Result<(), Malformed>)
        ensures
            match r {
                Ok(_) => with_entry(old(self)@, entry@) == Ok::<ListingView, Malformed>(
                    final(self)@,
                ),
                Err(m) => with_entry(old(self)@, entry@) == Err::<ListingView, Malformed>(m)
                    && *final(self) == *old(self),
            },
    {
        match flatten(entry) {
            Ok(mut records) => {
                let ghost before = self.records.deep_view();
                let ghost added = records.deep_view();
                self.records.append(&mut records);
                assert(self.records.deep_view() =~= before + added);
                Ok(())
            },
            Err(m) => Err(m),
        }
    }

    /// Counts a file that was read and held no entry.
    pub fn add_failure(&mut self)
        requires
            old(self).failed < u64::MAX,
        ensures
            final(self)@ == with_failure(old(self)@),
    {
        self.failed = self.failed + 1;
    }

    /// Takes one more file into the listing: decodes its text, if it could be
    /// read, and appends the records of its entry or counts the failure.
    pub fn add_file(&mut self, file: &SourceFile) -> (r: Result<(), Malformed>)
        requires
            old(self).failed < u64::MAX,
        ensures
            match r {
                Ok(_) => with_file(old(self)@, file@) == Ok::<ListingView, Malformed>(
                    final(self)@,
                ),
                Err(m) => with_file(old(self)@, file@) == Err::<ListingView, Malformed>(m)
                    && *final(self) == *old(self),
            },
    {
        match &file.contents {
            None => Ok(()),
            Some(text) => match read_entry(file.path.as_str(), text.as_str()) {
                Ok(entry) => self.add_entry(&entry),
                Err(_) => {
                    self.add_failure();
                    Ok(())
                },
            },
        }
    }

    /// The lines to print, one for each record, in the order of the records.
    pub fn lines(&self) -> (lines: Vec<String>)
        ensures
            lines.deep_view() == lines_of(self@.records),
    {
        let mut lines: Vec<String> = Vec::new();
        let mut i: usize = 0;
        while i < self.records.len()
            invariant
                i <= self.records.len(),
                lines.deep_view() == lines_of(self@.records).take(i as int),
            decreases self.records.len() - i,
        {
            let line = self.records[i].to_line();
            let ghost before = lines.deep_view();
            lines.push(line);
            assert(lines.deep_view() =~= before.push(line@));
            assert(lines.deep_view() =~= lines_of(self@.records).take(i + 1));
            i = i + 1;
        }
        assert(lines.deep_view() =~= lines_of(self@.records));
        lines
    }

    /// The diagnostic line, if there is anything to report: the number of
    /// files that were read and held no entry, where it is not zero.
    pub fn failure_report(&self) -> (report: Option<String>)
        ensures
            report.deep_view() == report_of(self@.failed),
    {
        if self.failed == 0 {
            None
        } else {
            let mut report = String::from_str("Failed parsing ");
            report.append(decimal_text(self.failed).as_str());
            report.append(" desktop files");
            Some(report)
        }
    }
}

/// Lists the entries of the given files, taken in order. The result is the
/// listing of all of them, or the first file whose entry lacks a required
/// field.
pub fn list_files(files: &Vec<SourceFile>) -> (r: Result<Listing, Rejected>)
    ensures
        match r {
            Ok(listing) => with_files(empty_listing(), files.deep_view()) == Ok::<
                ListingView,
                Rejected,
            >(listing@),
            Err(rejected) => with_files(empty_listing(), files.deep_view()) == Err::<
                ListingView,
                Rejected,
            >(rejected),
        },
{
    let mut listing = Listing::new();
    let mut i: usize = 0;
    while i < files.len()
        invariant
            i <= files.len(),
            listing.failed <= i,
            with_files(empty_listing(), files.deep_view().take(i as int)) == Ok::<
                ListingView,
                Rejected,
            >(listing@),
        decreases files.len() - i,
    {
        assert(files.deep_view().take(i + 1).drop_last() =~= files.deep_view().take(i as int));
        assert(files.deep_view().take(i + 1).last() == files[i as int]@);
        match listing.add_file(&files[i]) {
            Ok(_) => {},
            Err(defect) => {
                proof {
                    lemma_stops_at_first_rejection(
                        empty_listing(),
                        files.deep_view(),
                        i + 1,
                    );
                }
                return Err(Rejected { index: i, defect });
            },
        }
        i = i + 1;
    }
    assert(files.deep_view().take(i as int) =~= files.deep_view());
    Ok(listing)
}

/// A run that has stopped within the first `n` files gives the same result
/// whatever files follow.
pub proof fn lemma_stops_at_first_rejection(l: ListingView, files: Seq<SourceView>, n: int)
    requires
        0 <= n <= files.len(),
        with_files(l, files.take(n)) is Err,
    ensures
        with_files(l, files) == with_files(l, files.take(n)),
    decreases files.len() - n,
{
    if n < files.len() {
        assert(files.take(n + 1).drop_last() =~= files.take(n));
        lemma_stops_at_first_rejection(l, files, n + 1);
    } else {
        assert(files.take(n) =~= files);
    }
}

/// A file that was read and holds no entry raises the count of failures by
/// one and adds no record.
pub proof fn lemma_undecodable_file_counts_once(l: ListingView, file: SourceView)
    requires
        fails_to_decode(file),
    ensures
        with_file(l, file) == Ok::<ListingView, Malformed>(
            ListingView { records: l.records, failed: l.failed + 1 },
        ),
        records_from(file) == Seq::<RecordView>::empty(),
{
}

/// A file that could not be read adds no record and is not counted as a
/// failure.
pub proof fn lemma_unreadable_file_changes_nothing(l: ListingView, file: SourceView)
    requires
        file.contents is None,
    ensures
        with_file(l, file) == Ok::<ListingView, Malformed>(l),
        records_from(file) == Seq::<RecordView>::empty(),
        !fails_to_decode(file),
{
}

/// A run over files taken one after another is the run over the first of
/// them, continued over the rest.
pub proof fn lemma_run_continues(l: ListingView, first: Seq<SourceView>, rest: Seq<SourceView>)
    requires
        first.len() + rest.len() <= usize::MAX,
    ensures
        match with_files(l, first) {
            Ok(middle) => match with_files(middle, rest) {
                Ok(after) => with_files(l, first + rest) == Ok::<ListingView, Rejected>(after),
                Err(r) => with_files(l, first + rest) == Err::<ListingView, Rejected>(
                    Rejected { index: (first.len() + r.index) as usize, defect: r.defect },
                ),
            },
            Err(r) => with_files(l, first + rest) == Err::<ListingView, Rejected>(r),
        },
    decreases rest.len(),
{
    if rest.len() == 0 {
        assert(first + rest =~= first);
    } else {
        assert((first + rest).drop_last() =~= first + rest.drop_last());
        assert((first + rest).last() == rest.last());
        lemma_run_continues(l, first, rest.drop_last());
    }
}

/// A run that ends well lists, after what it started with, the records of
/// each file in the order of the files, and has counted each file that was
/// read and holds no entry.
pub proof fn lemma_records_follow_files(l: ListingView, files: Seq<SourceView>)
    requires
        with_files(l, files) is Ok,
    ensures
        with_files(l, files)->Ok_0.records == l.records + files.map_values(
            |f: SourceView| records_from(f),
        ).flatten(),
        with_files(l, files)->Ok_0.failed == l.failed + files.filter(
            |f: SourceView| fails_to_decode(f),
        ).len(),
    decreases files.len(),
{
    let contribution = |f: SourceView| records_from(f);
    let failing = |f: SourceView| fails_to_decode(f);
    if files.len() == 0 {
        assert(files.map_values(contribution).flatten() =~= Seq::<RecordView>::empty());
        assert(files.filter(failing).len() == 0) by {
            files.lemma_filter_len(failing);
        }
        assert(l.records + Seq::<RecordView>::empty() =~= l.records);
    } else {
        let head = files.drop_last();
        let file = files.last();
        lemma_records_follow_files(l, head);
        let before = with_files(l, head)->Ok_0;
        assert(files =~= head.push(file));
        assert(files.map_values(contribution) =~= head.map_values(contribution).push(
            records_from(file),
        ));
        head.map_values(contribution).lemma_flatten_push(records_from(file));
        head.lemma_filter_push(file, failing);
        assert(with_files(l, files)->Ok_0.records =~= before.records + records_from(file));
        assert(l.records + (head.map_values(contribution).flatten() + records_from(file))
            =~= before.records + records_from(file));
    }
}

} // verus!
