//! The batch: which directory is read next, which entry is looked up next,
//! what is renamed to what, and what is reported. The batch decides; the
//! driver reads directories, fetches pages and renames, and reports back
//! what happened.

use vstd::prelude::*;
use crate::entry::{CandidateEntry, EntryView, renamed_file, rename_file};
use crate::lookup::{get_page_url, page_url_of};
use crate::pipeline::{
    display_name,
    named,
    named_view,
    PipelineError,
    PipelineErrorView,
    Response,
    ResponseView,
};
use crate::scan::{is_ordered, plan_directory, planned};

verus! {

/// What a directory listing says of one entry.
#[derive(Clone, Debug, PartialEq, Eq)]
pub struct DirItem {
    /// The name of the entry within the directory.
    pub name: String,
    /// Whether the entry is itself a directory.
    pub is_dir: bool,
}

/// A listed entry with its name as a sequence of characters.
pub struct DirItemView {
    pub name: Seq<char>,
    pub is_dir: bool,
}

impl View for DirItem {
    type V = DirItemView;

    open spec fn view(&self) -> DirItemView {
        DirItemView { name: self.name@, is_dir: self.is_dir }
    }
}

impl DeepView for DirItem {
    type V = DirItemView;

    open spec fn deep_view(&self) -> DirItemView {
        self@
    }
}

/// What the driver is to do next.
#[derive(Clone, Debug, PartialEq, Eq)]
pub enum Action {
    /// List the entries of `dir`, one level deep.
    List { dir: String },
    /// Request the page at `url`, once.
    Fetch { url: String },
    /// Rename `from` to `to`.
    Rename { from: String, to: String },
    /// Nothing is left to do. `no_matches` tells that no entry of any
    /// directory was a candidate.
    Finish { no_matches: bool },
}

/// An action with its texts as sequences of characters.
pub enum ActionView {
    List { dir: Seq<char> },
    Fetch { url: Seq<char> },
    Rename { from: Seq<char>, to: Seq<char> },
    Finish { no_matches: bool },
}

impl View for Action {
    type V = ActionView;

    open spec fn view(&self) -> ActionView {
        match self {
            Action::List { dir } => ActionView::List { dir: dir@ },
            Action::Fetch { url } => ActionView::Fetch { url: url@ },
            Action::Rename { from, to } => ActionView::Rename { from: from@, to: to@ },
            Action::Finish { no_matches } => ActionView::Finish { no_matches: *no_matches },
        }
    }
}

/// What came of the action that the driver was asked for.
#[derive(Clone, Debug, PartialEq, Eq)]
pub enum Event {
    /// The directory was read; these are its entries, in any order.
    Listed { items: Vec<DirItem> },
    /// The directory could not be read.
    ListFailed { cause: String },
    /// The request for the page ended.
    Answered { response: Response },
    /// The entry now has its new name.
    Renamed,
    /// The entry could not be renamed and has its old name.
    RenameFailed { cause: String },
}

/// An event with its texts as sequences of characters.
pub enum EventView {
    Listed { items: Seq<DirItemView> },
    ListFailed { cause: Seq<char> },
    Answered { response: ResponseView },
    Renamed,
    RenameFailed { cause: Seq<char> },
}

impl View for Event {
    type V = EventView;

    open spec fn view(&self) -> EventView {
        match self {
            Event::Listed { items } => EventView::Listed { items: items.deep_view() },
            Event::ListFailed { cause } => EventView::ListFailed { cause: cause@ },
            Event::Answered { response } => EventView::Answered { response: response@ },
            Event::Renamed => EventView::Renamed,
            Event::RenameFailed { cause } => EventView::RenameFailed { cause: cause@ },
        }
    }
}

/// What the batch reports of a step.
#[derive(Clone, Debug, PartialEq, Eq)]
pub enum Notice {
    /// A directory could not be read and was passed over.
    DirectoryUnreadable { dir: String, cause: String },
    /// A directory holds no entry.
    DirectoryEmpty { dir: String },
    /// An entry was passed over because it got no display name.
    ItemFailed { path: String, id: String, error: PipelineError, url: String },
    /// An entry was passed over because it could not be renamed.
    RenameFailed { path: String, id: String, cause: String, url: String },
    /// An entry was renamed; `name` is its new file name.
    Renamed { path: String, name: String },
}

/// A notice with its texts as sequences of characters.
pub enum NoticeView {
    DirectoryUnreadable { dir: Seq<char>, cause: Seq<char> },
    DirectoryEmpty { dir: Seq<char> },
    ItemFailed { path: Seq<char>, id: Seq<char>, error: PipelineErrorView, url: Seq<char> },
    RenameFailed { path: Seq<char>, id: Seq<char>, cause: Seq<char>, url: Seq<char> },
    Renamed { path: Seq<char>, name: Seq<char> },
}

impl View for Notice {
    type V = NoticeView;

    open spec fn view(&self) -> NoticeView {
        match self {
            Notice::DirectoryUnreadable { dir, cause } => NoticeView::DirectoryUnreadable {
                dir: dir@,
                cause: cause@,
            },
            Notice::DirectoryEmpty { dir } => NoticeView::DirectoryEmpty { dir: dir@ },
            Notice::ItemFailed { path, id, error, url } => NoticeView::ItemFailed {
                path: path@,
                id: id@,
                error: error@,
                url: url@,
            },
            Notice::RenameFailed { path, id, cause, url } => NoticeView::RenameFailed {
                path: path@,
                id: id@,
                cause: cause@,
                url: url@,
            },
            Notice::Renamed { path, name } => NoticeView::Renamed { path: path@, name: name@ },
        }
    }
}

impl DeepView for Notice {
    type V = NoticeView;

    open spec fn deep_view(&self) -> NoticeView {
        self@
    }
}

/// What the batch waits for.
#[derive(Clone, Debug, PartialEq, Eq)]
pub enum Phase {
    /// The listing of the current directory.
    Listing,
    /// The page of the current entry.
    Fetching,
    /// The rename of the current entry to the display name `display`.
    Renaming { display: String },
    /// Nothing: all directories are done.
    Finished,
}

/// A phase with its text as a sequence of characters.
pub enum PhaseView {
    Listing,
    Fetching,
    Renaming { display: Seq<char> },
    Finished,
}

impl View for Phase {
    type V = PhaseView;

    open spec fn view(&self) -> PhaseView {
        match self {
            Phase::Listing => PhaseView::Listing,
            Phase::Fetching => PhaseView::Fetching,
            Phase::Renaming { display } => PhaseView::Renaming { display: display@ },
            Phase::Finished => PhaseView::Finished,
        }
    }
}

/// The state of a batch.
pub struct BatchView {
    /// The configured directories, in the order in which they are read.
    pub directories: Seq<Seq<char>>,
    /// Whether directories are never renamed.
    pub file_only: bool,
    /// The separator of path components.
    pub separator: Seq<char>,
    /// Position of the current directory.
    pub dir_index: nat,
    /// The candidates of the current directory, in the order in which they
    /// are taken up.
    pub queue: Seq<EntryView>,
    /// Position of the current entry in the queue.
    pub item_index: nat,
    /// What the batch waits for.
    pub phase: PhaseView,
    /// Whether any directory read so far held a candidate.
    pub any_match: bool,
}

/// The entries of the directory `dir` that a listing names.
pub open spec fn entries_of(dir: Seq<char>, items: Seq<DirItemView>) -> Seq<EntryView> {
    Seq::new(
        items.len(),
        |i: int| EntryView { dir, name: items[i].name, is_dir: items[i].is_dir },
    )
}

impl BatchView {
    /// The state before anything is read.
    pub open spec fn initial(
        directories: Seq<Seq<char>>,
        file_only: bool,
        separator: Seq<char>,
    ) -> BatchView {
        BatchView {
            directories,
            file_only,
            separator,
            dir_index: 0,
            queue: Seq::empty(),
            item_index: 0,
            phase: if directories.len() > 0 {
                PhaseView::Listing
            } else {
                PhaseView::Finished
            },
            any_match: false,
        }
    }

    /// The states that a batch can be in. While the batch waits for a
    /// listing, its queue is empty. While it waits for a page or a rename,
    /// its queue holds candidates of the current directory only, ordered by
    /// name, and the current entry is one of them.
    pub open spec fn wf(self) -> bool {
        match self.phase {
            PhaseView::Listing => {
                &&& self.dir_index < self.directories.len()
                &&& self.queue.len() == 0
                &&& self.item_index == 0
            },
            PhaseView::Fetching | PhaseView::Renaming { .. } => {
                &&& self.dir_index < self.directories.len()
                &&& self.item_index < self.queue.len()
                &&& self.any_match
                &&& is_ordered(self.queue)
                &&& forall|i: int|
                    0 <= i < self.queue.len() ==> (#[trigger] self.queue[i]).is_candidate(
                        self.file_only,
                    ) && self.queue[i].dir == self.dir()
            },
            PhaseView::Finished => true,
        }
    }

    /// The current directory.
    pub open spec fn dir(self) -> Seq<char> {
        self.directories[self.dir_index as int]
    }

    /// The current entry.
    pub open spec fn item(self) -> EntryView {
        self.queue[self.item_index as int]
    }

    /// What the driver is to do in this state.
    pub open spec fn action(self) -> ActionView {
        match self.phase {
            PhaseView::Listing => ActionView::List { dir: self.dir() },
            PhaseView::Fetching => ActionView::Fetch { url: page_url_of(self.item().stem()) },
            PhaseView::Renaming { display } => ActionView::Rename {
                from: self.item().path(self.separator),
                to: self.item().target(display, self.separator),
            },
            PhaseView::Finished => ActionView::Finish { no_matches: !self.any_match },
        }
    }

    /// The state in which the next directory is read, or the final state
    /// where none is left.
    pub open spec fn next_directory(self) -> BatchView {
        BatchView {
            dir_index: self.dir_index + 1,
            queue: Seq::empty(),
            item_index: 0,
            phase: if self.dir_index + 1 < self.directories.len() {
                PhaseView::Listing
            } else {
                PhaseView::Finished
            },
            ..self
        }
    }

    /// The state in which the next entry of the queue is looked up, or the
    /// next directory is read where the queue is done.
    pub open spec fn next_item(self) -> BatchView {
        if self.item_index + 1 < self.queue.len() {
            BatchView { item_index: self.item_index + 1, phase: PhaseView::Fetching, ..self }
        } else {
            self.next_directory()
        }
    }

    /// The state after `event`, and what is reported of the step. An event
    /// that does not answer the pending action changes nothing.
    pub open spec fn step(self, event: EventView) -> (BatchView, Seq<NoticeView>) {
        match (self.phase, event) {
            (PhaseView::Listing, EventView::ListFailed { cause }) => (
                self.next_directory(),
                seq![NoticeView::DirectoryUnreadable { dir: self.dir(), cause }],
            ),
            (PhaseView::Listing, EventView::Listed { items }) => {
                let queue = planned(entries_of(self.dir(), items), self.file_only);
                if items.len() == 0 {
                    (self.next_directory(), seq![NoticeView::DirectoryEmpty { dir: self.dir() }])
                } else if queue.len() == 0 {
                    (self.next_directory(), Seq::empty())
                } else {
                    (
                        BatchView {
                            queue,
                            item_index: 0,
                            phase: PhaseView::Fetching,
                            any_match: true,
                            ..self
                        },
                        Seq::empty(),
                    )
                }
            },
            (PhaseView::Fetching, EventView::Answered { response }) => {
                match named(self.item().stem(), response) {
                    Ok(display) => (
                        BatchView { phase: PhaseView::Renaming { display }, ..self },
                        Seq::empty(),
                    ),
                    Err(error) => (
                        self.next_item(),
                        seq![
                            NoticeView::ItemFailed {
                                path: self.item().path(self.separator),
                                id: self.item().stem(),
                                error,
                                url: page_url_of(self.item().stem()),
                            },
                        ],
                    ),
                }
            },
            (PhaseView::Renaming { display }, EventView::Renamed) => (
                self.next_item(),
                seq![
                    NoticeView::Renamed {
                        path: self.item().path(self.separator),
                        name: renamed_file(display, self.item().extension()),
                    },
                ],
            ),
            (PhaseView::Renaming { display }, EventView::RenameFailed { cause }) => (
                self.next_item(),
                seq![
                    NoticeView::RenameFailed {
                        path: self.item().path(self.separator),
                        id: self.item().stem(),
                        cause,
                        url: page_url_of(self.item().stem()),
                    },
                ],
            ),
            _ => (self, Seq::empty()),
        }
    }
}

/// A batch of renames over a list of directories. A batch is always in a
/// state that `BatchView::wf` admits.
#[derive(Debug)]
pub struct Batch {
    directories: Vec<String>,
    file_only: bool,
    separator: String,
    dir_index: usize,
    queue: Vec<CandidateEntry>,
    item_index: usize,
    phase: Phase,
    any_match: bool,
}

impl View for Batch {
    type V = BatchView;

    closed spec fn view(&self) -> BatchView {
        BatchView {
            directories: self.directories.deep_view(),
            file_only: self.file_only,
            separator: self.separator@,
            dir_index: self.dir_index as nat,
            queue: self.queue.deep_view(),
            item_index: self.item_index as nat,
            phase: self.phase@,
            any_match: self.any_match,
        }
    }
}

/// Builds the entries of the directory `dir` that a listing names.
fn gather(dir: &String, items: Vec<DirItem>) -> (r: Vec<CandidateEntry>)
    ensures
        r.deep_view() == entries_of(dir@, items.deep_view()),
{
    let mut items = items;
    let ghost model = items.deep_view();
    let mut out: Vec<CandidateEntry> = Vec::new();
    let mut i: usize = 0;
    assert(model.len() == items.len());
    while i < items.len()
        invariant
            i <= items.len(),
            model.len() == items.len(),
            forall|k: int| i <= k < items.len() ==> items[k]@ == model[k],
            out.len() == i,
            forall|k: int|
                0 <= k < i ==> (#[trigger] out[k])@ == (EntryView {
                    dir: dir@,
                    name: model[k].name,
                    is_dir: model[k].is_dir,
                }),
        decreases items.len() - i,
    {
        let name = items[i].name.clone();
        let is_dir = items[i].is_dir;
        out.push(CandidateEntry::new(dir.clone(), name, is_dir));
        i = i + 1;
    }
    assert(out.deep_view() =~= entries_of(dir@, model));
    out
}

impl Batch {
    #[verifier::type_invariant]
    spec fn inv(self) -> bool {
        self@.wf()
    }

    /// A batch over `directories`, which are read in the order given.
    pub fn new(directories: Vec<String>, file_only: bool, separator: String) -> (r: Batch)
        ensures
            r@ == BatchView::initial(directories.deep_view(), file_only, separator@),
            r@.wf(),
    {
        let phase = if directories.len() > 0 {
            Phase::Listing
        } else {
            Phase::Finished
        };
        assert(directories.deep_view().len() == directories.len());
        let r = Batch {
            directories,
            file_only,
            separator,
            dir_index: 0,
            queue: Vec::new(),
            item_index: 0,
            phase,
            any_match: false,
        };
        assert(r.queue.deep_view() =~= Seq::<EntryView>::empty());
        r
    }

    /// Whether nothing is left to do.
    pub fn is_finished(&self) -> (r: bool)
        ensures
            r == (self@.phase is Finished),
    {
        match self.phase {
            Phase::Finished => true,
            _ => false,
        }
    }

    /// What the driver is to do next.
    pub fn action(&self) -> (r: Action)
        ensures
            self@.wf(),
            r@ == self@.action(),
    {
        proof {
            use_type_invariant(self);
        }
        assert(self.directories.deep_view().len() == self.directories.len());
        assert(self.queue.deep_view().len() == self.queue.len());
        match &self.phase {
            Phase::Listing => {
                assert(self.directories[self.dir_index as int]@ == self@.dir());
                Action::List { dir: self.directories[self.dir_index].clone() }
            },
            Phase::Fetching => {
                let item = &self.queue[self.item_index];
                assert(item@ == self@.item());
                Action::Fetch { url: get_page_url(item.stem().as_str()) }
            },
            Phase::Renaming { display } => {
                let item = &self.queue[self.item_index];
                assert(item@ == self@.item());
                Action::Rename {
                    from: item.path(self.separator.as_str()),
                    to: item.target_path(display.as_str(), self.separator.as_str()),
                }
            },
            Phase::Finished => Action::Finish { no_matches: !self.any_match },
        }
    }

    /// Moves on to the next directory.
    fn pass_directory(self) -> (r: Batch)
        requires
            self.dir_index < self.directories.len(),
        ensures
            r@ == self@.next_directory(),
    {
        assert(self.directories.deep_view().len() == self.directories.len());
        let dir_index = self.dir_index + 1;
        let phase = if dir_index < self.directories.len() {
            Phase::Listing
        } else {
            Phase::Finished
        };
        let r = Batch {
            directories: self.directories,
            file_only: self.file_only,
            separator: self.separator,
            dir_index,
            queue: Vec::new(),
            item_index: 0,
            phase,
            any_match: self.any_match,
        };
        assert(r.queue.deep_view() =~= Seq::<EntryView>::empty());
        r
    }

    /// Moves on to the next entry of the queue.
    fn pass_item(self) -> (r: Batch)
        requires
            self@.phase is Fetching || self@.phase is Renaming,
        ensures
            r@ == self@.next_item(),
    {
        proof {
            use_type_invariant(&self);
        }
        assert(self.queue.deep_view().len() == self.queue.len());
        if self.item_index + 1 < self.queue.len() {
            Batch {
                directories: self.directories,
                file_only: self.file_only,
                separator: self.separator,
                dir_index: self.dir_index,
                queue: self.queue,
                item_index: self.item_index + 1,
                phase: Phase::Fetching,
                any_match: self.any_match,
            }
        } else {
            self.pass_directory()
        }
    }

    /// Takes in what came of the pending action, and says what is to be
    /// reported. A failure ends the work on one entry or one directory
    /// only: the batch goes on with the next. An event that does not answer
    /// the pending action is ignored.
    pub fn step(self, event: Event) -> (r: (Batch, Vec<Notice>))
        ensures
            self@.wf(),
            r.0@.wf(),
            r.0@ == self@.step(event@).0,
            r.1.deep_view() == self@.step(event@).1,
    {
        proof {
            use_type_invariant(&self);
        }
        assert(self.directories.deep_view().len() == self.directories.len());
        assert(self.queue.deep_view().len() == self.queue.len());
        let mut notices: Vec<Notice> = Vec::new();
        assert(notices.deep_view() =~= Seq::<NoticeView>::empty());
        match &self.phase {
            Phase::Listing => {
                assert(self.directories[self.dir_index as int]@ == self@.dir());
                match event {
                    Event::ListFailed { cause } => {
                        let dir = self.directories[self.dir_index].clone();
                        notices.push(Notice::DirectoryUnreadable { dir, cause });
                        assert(notices.deep_view() =~= self@.step(event@).1);
                        (self.pass_directory(), notices)
                    },
                    Event::Listed { items } => {
                        let dir = self.directories[self.dir_index].clone();
                        if items.len() == 0 {
                            assert(items.deep_view().len() == 0);
                            notices.push(Notice::DirectoryEmpty { dir });
                            assert(notices.deep_view() =~= self@.step(event@).1);
                            return (self.pass_directory(), notices);
                        }
                        assert(items.deep_view().len() == items.len());
                        let entries = gather(&dir, items);
                        let queue = plan_directory(&entries, self.file_only);
                        assert(queue.deep_view().len() == queue.len());
                        if queue.len() == 0 {
                            return (self.pass_directory(), notices);
                        }
                        proof {
                            assert forall|i: int| 0 <= i < queue.len() implies (
                            #[trigger] queue.deep_view()[i]).is_candidate(self.file_only)
                                && queue.deep_view()[i].dir == dir@ by {
                                assert(queue.deep_view()[i] == queue[i]@);
                                assert(entries.deep_view().contains(queue[i]@));
                            }
                        }
                        let next = Batch {
                            directories: self.directories,
                            file_only: self.file_only,
                            separator: self.separator,
                            dir_index: self.dir_index,
                            queue,
                            item_index: 0,
                            phase: Phase::Fetching,
                            any_match: true,
                        };
                        (next, notices)
                    },
                    _ => (self, notices),
                }
            },
            Phase::Fetching => {
                match event {
                    Event::Answered { response } => {
                        let item = &self.queue[self.item_index];
                        assert(item@ == self@.item());
                        let id = item.stem();
                        let outcome = display_name(id.as_str(), response);
                        assert(named_view(outcome) == named(self@.item().stem(), response@));
                        match outcome {
                            Ok(display) => {
                                let next = Batch {
                                    directories: self.directories,
                                    file_only: self.file_only,
                                    separator: self.separator,
                                    dir_index: self.dir_index,
                                    queue: self.queue,
                                    item_index: self.item_index,
                                    phase: Phase::Renaming { display },
                                    any_match: self.any_match,
                                };
                                (next, notices)
                            },
                            Err(error) => {
                                let path = item.path(self.separator.as_str());
                                let url = get_page_url(id.as_str());
                                notices.push(Notice::ItemFailed { path, id, error, url });
                                assert(notices.deep_view() =~= self@.step(event@).1);
                                (self.pass_item(), notices)
                            },
                        }
                    },
                    _ => (self, notices),
                }
            },
            Phase::Renaming { display } => {
                let item = &self.queue[self.item_index];
                assert(item@ == self@.item());
                match event {
                    Event::Renamed => {
                        let path = item.path(self.separator.as_str());
                        let name = rename_file(display.as_str(), item.extension().as_str());
                        notices.push(Notice::Renamed { path, name });
                        assert(notices.deep_view() =~= self@.step(event@).1);
                        (self.pass_item(), notices)
                    },
                    Event::RenameFailed { cause } => {
                        let path = item.path(self.separator.as_str());
                        let id = item.stem();
                        let url = get_page_url(id.as_str());
                        notices.push(Notice::RenameFailed { path, id, cause, url });
                        assert(notices.deep_view() =~= self@.step(event@).1);
                        (self.pass_item(), notices)
                    },
                    _ => (self, notices),
                }
            },
            Phase::Finished => (self, notices),
        }
    }
}

} // verus!
