//! The local side: the list of identifiers of the corpus, the work-list
//! that is still to be checked, and the archive normalizer.
//!
//! The archive normalizer turns a downloaded payload into one canonical
//! archive. Reading the payload is the work of an archive reader; what is
//! read, and in which order it is tried, is decided here. A caller starts
//! with `repackage_arxiv_download`, performs the reading that the state
//! asks for, hands the result to `with_entries` or `with_raw`, and ends
//! with a canonical archive to write or with a reason why there is none.

use crate::journal::{build_set, keys_of, lemma_pending_contains, pending, remaining};
use crate::pattern::{match_two_groups, regex_groups, two_groups};
use vstd::prelude::*;
use vstd::string::StringExecFns;

verus! {

/// Path of the list of the identifiers of the corpus where nothing else is
/// configured.
pub const UNCHECKED_IDS_FILEPATH: &'static str = "unchecked_ids.txt";

/// Path of the work-list of the fetch pipeline where nothing else is
/// configured.
pub const IDS_TO_UPDATE_FILEPATH: &'static str = "ids_to_update.txt";

/// Path of the journal of checked identifiers where nothing else is
/// configured.
pub const CHECKED_IDS_FILEPATH: &'static str = "checked_ids.csv";

/// Root of the corpus where nothing else is configured.
pub const CORPUS_ROOT_PATH: &'static str = "/data/arxmliv";

/// Pattern of the directory name of an old-style article: the letters of
/// its category, then its number.
pub const LETTER_DIGIT_PATTERN: &'static str = "(^\\D+)(\\d.+)$";

/// The identifier that a directory name of the corpus stands for, where
/// `parts` splits the name into category and number or leaves it whole:
/// category, slash and number, or the name itself.
pub open spec fn entry_id_of(name: Seq<char>, parts: Option<(Seq<char>, Seq<char>)>) -> Seq<char> {
    match parts {
        Some((category, number)) => category + seq!['/'] + number,
        None => name,
    }
}

/// The identifier that the directory name `name` stands for. A name that
/// `LETTER_DIGIT_PATTERN` matches is split as the pattern's two groups say.
pub open spec fn listed_id(name: Seq<char>) -> Seq<char> {
    entry_id_of(name, two_groups(regex_groups(LETTER_DIGIT_PATTERN@, name)))
}

/// The identifier that the directory name `name` stands for, given the
/// category and number that it was split into, if it was.
pub fn entry_id(name: &str, parts: Option<(String, String)>) -> (id: String)
    ensures
        id@ == entry_id_of(name@, parts.deep_view()),
{
    match parts {
        Some((category, number)) => {
            let mut id = category;
            id.push('/');
            id.append(number.as_str());
            id
        },
        None => String::from_str(name),
    }
}

/// The lines of the list of identifiers of the corpus, one for each
/// directory name in `entry_names`, in their order. The list is made once:
/// where it exists already there is nothing to write, and the result is
/// `None`.
pub fn create_list_of_ids(output_exists: bool, entry_names: &Vec<String>) -> (lines: Option<
    Vec<String>,
>)
    ensures
        lines is None <==> output_exists,
        lines matches Some(l) ==> {
            &&& l.len() == entry_names.len()
            &&& forall|i: int| 0 <= i < l.len() ==> (#[trigger] l[i])@ == listed_id(entry_names[i]@)
        },
{
    if output_exists {
        return None;
    }
    let mut lines: Vec<String> = Vec::new();
    let mut i: usize = 0;
    while i < entry_names.len()
        invariant
            i <= entry_names.len(),
            lines.len() == i,
            forall|j: int| 0 <= j < i ==> (#[trigger] lines[j])@ == listed_id(entry_names[j]@),
        decreases entry_names.len() - i,
    {
        let name = entry_names[i].as_str();
        let id = entry_id(name, match_two_groups(LETTER_DIGIT_PATTERN, name));
        lines.push(id);
        i += 1;
    }
    Some(lines)
}

/// The work-list that is still to be checked: the lines of `unchecked` that
/// are identifiers and that the journal `checked` does not record, in their
/// order.
pub fn filter_list_to_check(unchecked: &Vec<String>, checked: &Vec<String>) -> (list: Vec<String>)
    ensures
        list.deep_view() == pending(unchecked.deep_view(), keys_of(checked.deep_view())),
        forall|i: int|
            0 <= i < list.len() ==> !keys_of(checked.deep_view()).contains((#[trigger] list[i])@),
{
    let checked_set = build_set(checked);
    let list = remaining(unchecked, &checked_set);
    proof {
        assert forall|i: int| 0 <= i < list.len() implies !keys_of(checked.deep_view()).contains(
            (#[trigger] list[i])@,
        ) by {
            let id = list[i]@;
            assert(list.deep_view()[i] == id);
            assert(list.deep_view().contains(id));
            lemma_pending_contains(unchecked.deep_view(), keys_of(checked.deep_view()), id);
        }
    }
    list
}

/// What the header of an entry says beside its name and the size of its
/// data.
#[derive(Clone, Debug, PartialEq, Eq)]
pub struct EntryHeader {
    /// Kind and permissions of the entry, as the mode bits of a file: a
    /// regular file, a directory, a symbolic link, and who may do what.
    pub mode: u32,
    /// When the entry was last modified, in seconds since the start of 1970.
    pub modified: i64,
    /// Where the entry points to, where it is a symbolic link.
    pub link: Option<String>,
}

/// The header of an entry as contracts see it.
pub struct HeaderModel {
    pub mode: u32,
    pub modified: i64,
    pub link: Option<Seq<char>>,
}

impl View for EntryHeader {
    type V = HeaderModel;

    open spec fn view(&self) -> HeaderModel {
        HeaderModel { mode: self.mode, modified: self.modified, link: self.link.deep_view() }
    }
}

impl DeepView for EntryHeader {
    type V = HeaderModel;

    open spec fn deep_view(&self) -> HeaderModel {
        self@
    }
}

/// One entry of an archive.
#[derive(Clone, Debug, PartialEq, Eq)]
pub struct ArchiveEntry {
    /// The path of the entry within the archive.
    pub name: String,
    /// The header that the entry was read with. An entry that was not read
    /// from an archive has none; it is written as a regular file with a
    /// header of its own.
    pub header: Option<EntryHeader>,
    /// The content of the entry.
    pub data: Vec<u8>,
}

/// One entry of an archive as contracts see it.
pub struct EntryModel {
    pub name: Seq<char>,
    pub header: Option<HeaderModel>,
    pub data: Seq<u8>,
}

impl View for ArchiveEntry {
    type V = EntryModel;

    open spec fn view(&self) -> EntryModel {
        EntryModel { name: self.name@, header: self.header.deep_view(), data: self.data@ }
    }
}

impl DeepView for ArchiveEntry {
    type V = EntryModel;

    open spec fn deep_view(&self) -> EntryModel {
        self@
    }
}

/// What came of opening a payload as a single compressed stream.
#[derive(Clone, Debug, PartialEq, Eq)]
pub enum RawStream {
    /// The payload could not be opened.
    Unrecognized,
    /// The payload was opened and held no stream.
    NoContent,
    /// The whole content of the stream, decompressed.
    Data(Vec<u8>),
}

/// Why a payload gave no canonical archive.
#[derive(Clone, Copy, Debug, PartialEq, Eq, Structural)]
pub enum SkipReason {
    /// The payload has no bytes.
    EmptyPayload,
    /// The payload was opened as a single stream and held none.
    NoContent,
    /// The payload is neither an archive nor a single stream.
    Unrecognized,
}

/// A canonical archive as contracts see it.
pub struct ArchiveModel {
    /// Where the archive is written.
    pub path: Seq<char>,
    /// Its files, in the order in which they are written.
    pub entries: Seq<EntryModel>,
}

/// The state of a normalization as contracts see it.
pub enum RepackagingModel {
    /// The payload is to be opened as an archive of any format.
    OpenArchive { to_dir: Seq<char>, base_name: Seq<char> },
    /// The payload is to be opened as a single compressed stream.
    OpenRaw { to_dir: Seq<char>, base_name: Seq<char> },
    /// The canonical archive is to be written.
    Write(ArchiveModel),
    /// No canonical archive is written.
    Skip(SkipReason),
}

/// The path of the canonical archive `base_name` in `to_dir`: the
/// directory, a slash, the base name and the extension `.zip`.
pub open spec fn archive_path_of(to_dir: Seq<char>, base_name: Seq<char>) -> Seq<char> {
    to_dir + seq!['/'] + base_name + seq!['.', 'z', 'i', 'p']
}

/// The name of the single file that a payload without archive structure
/// becomes: the base name and the extension `.tex`.
pub open spec fn tex_target_of(base_name: Seq<char>) -> Seq<char> {
    base_name + seq!['.', 't', 'e', 'x']
}

/// The entry that holds the content `data` of a single stream under the
/// name `name`. It was not read from an archive and has no header yet.
pub open spec fn single_file_of(name: Seq<char>, data: Seq<u8>) -> EntryModel {
    EntryModel { name, header: None, data }
}

/// The state in which the normalization of `payload` starts. A payload
/// without bytes gives no archive; any other is first opened as an archive.
pub open spec fn start_of(
    payload: Seq<u8>,
    to_dir: Seq<char>,
    base_name: Seq<char>,
) -> RepackagingModel {
    if payload.len() == 0 {
        RepackagingModel::Skip(SkipReason::EmptyPayload)
    } else {
        RepackagingModel::OpenArchive { to_dir, base_name }
    }
}

/// The state after the payload was opened as an archive. `entries` is
/// `None` where that failed. Entries go into the canonical archive as they
/// are; without any, the payload is next opened as a single stream. In every
/// other state than `OpenArchive` nothing changes.
pub open spec fn after_entries(
    state: RepackagingModel,
    entries: Option<Seq<EntryModel>>,
) -> RepackagingModel {
    match state {
        RepackagingModel::OpenArchive { to_dir, base_name } => match entries {
            Some(found) => if found.len() > 0 {
                RepackagingModel::Write(
                    ArchiveModel { path: archive_path_of(to_dir, base_name), entries: found },
                )
            } else {
                RepackagingModel::OpenRaw { to_dir, base_name }
            },
            None => RepackagingModel::OpenRaw { to_dir, base_name },
        },
        _ => state,
    }
}

/// What came of opening a payload as a single stream, as contracts see it.
pub enum RawModel {
    Unrecognized,
    NoContent,
    Data(Seq<u8>),
}

impl View for RawStream {
    type V = RawModel;

    open spec fn view(&self) -> RawModel {
        match self {
            RawStream::Unrecognized => RawModel::Unrecognized,
            RawStream::NoContent => RawModel::NoContent,
            RawStream::Data(bytes) => RawModel::Data(bytes@),
        }
    }
}

/// The state after the payload was opened as a single stream. Its content
/// becomes the one file of the canonical archive, named by `tex_target_of`.
/// In every other state than `OpenRaw` nothing changes.
pub open spec fn after_raw(state: RepackagingModel, raw: RawModel) -> RepackagingModel {
    match state {
        RepackagingModel::OpenRaw { to_dir, base_name } => match raw {
            RawModel::Data(bytes) => RepackagingModel::Write(
                ArchiveModel {
                    path: archive_path_of(to_dir, base_name),
                    entries: seq![single_file_of(tex_target_of(base_name), bytes)],
                },
            ),
            RawModel::NoContent => RepackagingModel::Skip(SkipReason::NoContent),
            RawModel::Unrecognized => RepackagingModel::Skip(SkipReason::Unrecognized),
        },
        _ => state,
    }
}

/// The end of a normalization, where opening the payload as an archive
/// gives `entries` and opening it as a single stream gives `raw`.
pub open spec fn normalized(
    payload: Seq<u8>,
    to_dir: Seq<char>,
    base_name: Seq<char>,
    entries: Option<Seq<EntryModel>>,
    raw: RawModel,
) -> RepackagingModel {
    after_raw(after_entries(start_of(payload, to_dir, base_name), entries), raw)
}

/// A canonical archive that is ready to be written. It holds at least one
/// file.
#[derive(Debug)]
pub struct CanonicalArchive {
    path: String,
    entries: Vec<ArchiveEntry>,
}

impl View for CanonicalArchive {
    type V = ArchiveModel;

    closed spec fn view(&self) -> ArchiveModel {
        ArchiveModel { path: self.path@, entries: self.entries.deep_view() }
    }
}

impl CanonicalArchive {
    #[verifier::type_invariant]
    spec fn has_entries(self) -> bool {
        self.entries.len() > 0
    }

    /// Where the archive is written.
    pub fn path(&self) -> (path: &str)
        ensures
            path@ == self@.path,
    {
        self.path.as_str()
    }

    /// The files of the archive, in the order in which they are written.
    pub fn entries(&self) -> (entries: &Vec<ArchiveEntry>)
        ensures
            entries.deep_view() == self@.entries,
            entries.len() > 0,
    {
        proof {
            use_type_invariant(self);
        }
        &self.entries
    }
}

/// The state of a normalization.
#[derive(Debug)]
pub enum Repackaging {
    /// The payload is to be opened as an archive of any format.
    OpenArchive { to_dir: String, base_name: String },
    /// The payload is to be opened as a single compressed stream.
    OpenRaw { to_dir: String, base_name: String },
    /// The canonical archive is to be written.
    Write(CanonicalArchive),
    /// No canonical archive is written.
    Skip(SkipReason),
}

impl View for Repackaging {
    type V = RepackagingModel;

    open spec fn view(&self) -> RepackagingModel {
        match self {
            Repackaging::OpenArchive { to_dir, base_name } => RepackagingModel::OpenArchive {
                to_dir: to_dir@,
                base_name: base_name@,
            },
            Repackaging::OpenRaw { to_dir, base_name } => RepackagingModel::OpenRaw {
                to_dir: to_dir@,
                base_name: base_name@,
            },
            Repackaging::Write(archive) => RepackagingModel::Write(archive@),
            Repackaging::Skip(reason) => RepackagingModel::Skip(*reason),
        }
    }
}

/// The path of the canonical archive `base_name` in `to_dir`.
pub fn archive_path(to_dir: &str, base_name: &str) -> (path: String)
    ensures
        path@ == archive_path_of(to_dir@, base_name@),
{
    let mut path = String::from_str(to_dir);
    path.push('/');
    path.append(base_name);
    path.push('.');
    path.push('z');
    path.push('i');
    path.push('p');
    assert(path@ == archive_path_of(to_dir@, base_name@));
    path
}

/// The entry that holds the content of a single stream: `raw_data` under
/// the name `tex_target`, to be written as a regular file.
pub fn single_file_transfer(tex_target: &str, raw_data: Vec<u8>) -> (entry: ArchiveEntry)
    ensures
        entry@ == single_file_of(tex_target@, raw_data@),
{
    ArchiveEntry { name: String::from_str(tex_target), header: None, data: raw_data }
}

/// Starts the normalization of the payload `memory` into the canonical
/// archive `base_name` in `to_dir`.
pub fn repackage_arxiv_download(memory: &[u8], to_dir: String, base_name: String) -> (state:
    Repackaging)
    ensures
        state@ == start_of(memory@, to_dir@, base_name@),
{
    if memory.len() == 0 {
        Repackaging::Skip(SkipReason::EmptyPayload)
    } else {
        Repackaging::OpenArchive { to_dir, base_name }
    }
}

impl Repackaging {
    /// Takes in what opening the payload as an archive gave: its entries, or
    /// `None` where it could not be opened.
    pub fn with_entries(self, entries: Option<Vec<ArchiveEntry>>) -> (next: Repackaging)
        ensures
            next@ == after_entries(self@, entries.deep_view()),
    {
        match self {
            Repackaging::OpenArchive { to_dir, base_name } => {
                match entries {
                    Some(found) => {
                        if found.len() > 0 {
                            let path = archive_path(to_dir.as_str(), base_name.as_str());
                            Repackaging::Write(CanonicalArchive { path, entries: found })
                        } else {
                            Repackaging::OpenRaw { to_dir, base_name }
                        }
                    },
                    None => Repackaging::OpenRaw { to_dir, base_name },
                }
            },
            other => other,
        }
    }

    /// Takes in what opening the payload as a single stream gave.
    pub fn with_raw(self, raw: RawStream) -> (next: Repackaging)
        ensures
            next@ == after_raw(self@, raw@),
    {
        match self {
            Repackaging::OpenRaw { to_dir, base_name } => {
                match raw {
                    RawStream::Data(bytes) => {
                        let path = archive_path(to_dir.as_str(), base_name.as_str());
                        let ghost base = base_name@;
                        let mut tex_target = base_name;
                        tex_target.push('.');
                        tex_target.push('t');
                        tex_target.push('e');
                        tex_target.push('x');
                        assert(tex_target@ == tex_target_of(base));
                        let entry = single_file_transfer(tex_target.as_str(), bytes);
                        let ghost model = entry@;
                        let mut entries: Vec<ArchiveEntry> = Vec::new();
                        entries.push(entry);
                        assert(entries.deep_view() == seq![model]);
                        Repackaging::Write(CanonicalArchive { path, entries })
                    },
                    RawStream::NoContent => Repackaging::Skip(SkipReason::NoContent),
                    RawStream::Unrecognized => Repackaging::Skip(SkipReason::Unrecognized),
                }
            },
            other => other,
        }
    }
}

/// A canonical archive never comes without files: whatever the payload and
/// whatever the two ways of opening it give, an archive that is to be
/// written holds at least one file, and a payload without bytes gives no
/// archive at all.
pub proof fn lemma_no_empty_archive(
    payload: Seq<u8>,
    to_dir: Seq<char>,
    base_name: Seq<char>,
    entries: Option<Seq<EntryModel>>,
    raw: RawModel,
)
    ensures
        normalized(payload, to_dir, base_name, entries, raw) matches RepackagingModel::Write(a)
            ==> a.entries.len() > 0,
        payload.len() == 0 ==> normalized(payload, to_dir, base_name, entries, raw)
            == RepackagingModel::Skip(SkipReason::EmptyPayload),
        !(normalized(payload, to_dir, base_name, entries, raw) is OpenArchive),
        !(normalized(payload, to_dir, base_name, entries, raw) is OpenRaw),
{
}

/// A payload that opens as an archive with entries is carried over entry
/// by entry: the canonical archive holds the same names with the same
/// headers and the same contents in the same order, and nothing of the
/// single-stream reading.
pub proof fn lemma_entries_are_kept(
    payload: Seq<u8>,
    to_dir: Seq<char>,
    base_name: Seq<char>,
    found: Seq<EntryModel>,
    raw: RawModel,
)
    requires
        payload.len() > 0,
        found.len() > 0,
    ensures
        normalized(payload, to_dir, base_name, Some(found), raw) == RepackagingModel::Write(
            ArchiveModel { path: archive_path_of(to_dir, base_name), entries: found },
        ),
{
}

/// A payload that does not open as an archive with files, and that opens
/// as a single stream, becomes a canonical archive of exactly one entry: a
/// regular file that is named by the base name and `.tex`, and whose
/// content is the content of the stream.
pub proof fn lemma_single_stream_fallback(
    payload: Seq<u8>,
    to_dir: Seq<char>,
    base_name: Seq<char>,
    entries: Option<Seq<EntryModel>>,
    bytes: Seq<u8>,
)
    requires
        payload.len() > 0,
        entries matches Some(found) ==> found.len() == 0,
    ensures
        normalized(payload, to_dir, base_name, entries, RawModel::Data(bytes))
            == RepackagingModel::Write(
            ArchiveModel {
                path: archive_path_of(to_dir, base_name),
                entries: seq![single_file_of(tex_target_of(base_name), bytes)],
            },
        ),
{
}

/// A payload that opens neither way gives no archive.
pub proof fn lemma_unreadable_is_skipped(
    payload: Seq<u8>,
    to_dir: Seq<char>,
    base_name: Seq<char>,
    entries: Option<Seq<EntryModel>>,
    raw: RawModel,
)
    requires
        entries matches Some(found) ==> found.len() == 0,
        !(raw is Data),
    ensures
        normalized(payload, to_dir, base_name, entries, raw) is Skip,
{
}

} // verus!
