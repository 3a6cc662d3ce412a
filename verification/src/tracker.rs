//! The reader's engine: it keeps the current page, follows what is visible
//! on it, remembers positions and marks, and answers every event with the
//! address to go to or the record to keep.

use crate::book::Book;
use crate::input::Action;
use crate::marks::{after_set, followed, is_mark_name, names_are_letters, Marks};
use crate::number::{decimal, write_decimal};
use crate::position::{
    after_record, lemma_kept_position_restored, past_top, restored_place, Positions,
};
use crate::record::record_text;
use crate::visibility::{after_event, first_of, lemma_first_of, VisibleSet};
use vstd::prelude::*;
use vstd::string::*;

verus! {

/// An address of the reader.
#[derive(Clone, Copy, Debug, PartialEq, Eq, Structural)]
pub enum Route {
    /// The document's table of contents.
    Contents,
    /// A page of the document.
    Page(usize),
}

impl Route {
    /// The path of the address: the page's number, or a slash for the table
    /// of contents.
    pub open spec fn path_text(self) -> Seq<char> {
        match self {
            Route::Contents => seq!['/'],
            Route::Page(page) => decimal(page as nat),
        }
    }

    /// The path of the address.
    pub fn path(&self) -> (path: String)
        ensures
            path@ == self.path_text(),
    {
        let mut path = String::new();
        match self {
            Route::Contents => {
                proof {
                    reveal_strlit("/");
                }
                path.append("/");
            },
            Route::Page(page) => {
                write_decimal(*page, &mut path);
            },
        }
        path
    }
}

/// A value to put into the durable store, under a key.
#[derive(Debug, PartialEq, Eq)]
pub struct Write {
    pub key: String,
    pub value: String,
}

impl View for Write {
    type V = (Seq<char>, Seq<char>);

    open spec fn view(&self) -> (Seq<char>, Seq<char>) {
        (self.key@, self.value@)
    }
}

/// The key and value of a write, if there is one.
pub open spec fn write_view(write: Option<Write>) -> Option<(Seq<char>, Seq<char>)> {
    match write {
        Some(write) => Some(write@),
        None => None,
    }
}

/// The tag of the visit that follows the visit tagged `visit`.
pub open spec fn next_visit(visit: u64) -> u64 {
    if visit == u64::MAX {
        0
    } else {
        (visit + 1) as u64
    }
}

/// The state of the engine.
pub struct TrackerView {
    /// The open document's identifier; empty while none is open.
    pub identifier: Seq<char>,
    /// The open document's number of pages; zero while none is open.
    pub page_count: usize,
    /// The current page.
    pub page: usize,
    /// The tag of the current visit to a page. Every turn of the page starts
    /// a new visit.
    pub visit: u64,
    /// Whether this visit has already gone back to its recorded position.
    pub restored: bool,
    /// The blocks of the current page that are in the viewport.
    pub visible: Set<usize>,
    /// The last reading position on each page.
    pub positions: Map<usize, usize>,
    /// The marks of the session.
    pub marks: Map<char, (usize, usize)>,
}

impl TrackerView {
    /// What holds of the engine at all times: the current page is a page of
    /// the document, positions are kept only for pages of the document and
    /// never for the top of a page, and marks are named by lowercase letters.
    pub open spec fn wf(self) -> bool {
        &&& self.page < self.page_count || self.page == 0
        &&& past_top(self.positions)
        &&& forall|page: usize| #[trigger]
            self.positions.contains_key(page) ==> page < self.page_count
        &&& names_are_letters(self.marks)
    }

    /// The engine before any document is opened.
    pub open spec fn start() -> TrackerView {
        TrackerView {
            identifier: Seq::empty(),
            page_count: 0,
            page: 0,
            visit: 0,
            restored: false,
            visible: Set::empty(),
            positions: Map::empty(),
            marks: Map::empty(),
        }
    }

    /// A visit to `page` begins: nothing of it has been seen yet, and what
    /// the visit before it still reports no longer counts.
    pub open spec fn enter(self, page: usize) -> TrackerView {
        TrackerView {
            page,
            visit: next_visit(self.visit),
            restored: false,
            visible: Set::empty(),
            ..self
        }
    }

    /// A document is opened. Marks stay; all else starts over from what
    /// was kept for the document.
    pub open spec fn open(
        self,
        identifier: Seq<char>,
        page_count: usize,
        record: Option<&str>,
        save_position: bool,
    ) -> TrackerView {
        let place = restored_place(record, page_count, save_position);
        TrackerView {
            identifier,
            page_count,
            positions: match place {
                Some((page, block)) => after_record(Map::empty(), page, block),
                None => Map::empty(),
            },
            ..self
        }.enter(
            match place {
                Some((page, block)) => page,
                None => 0,
            },
        )
    }

    /// The document is closed. Marks stay; all else is forgotten.
    pub open spec fn close(self) -> TrackerView {
        TrackerView {
            identifier: Seq::empty(),
            page_count: 0,
            positions: Map::empty(),
            ..self
        }.enter(0)
    }

    /// The reader asks for `page`: a page of the document is entered, any
    /// other request changes nothing.
    pub open spec fn go_to_page(self, page: usize) -> TrackerView {
        if page < self.page_count {
            self.enter(page)
        } else {
            self
        }
    }

    /// The address that the reader ends up at when the address bar names
    /// `page`: that page where it is a page of the document, else the table
    /// of contents.
    pub open spec fn landing(self, page: Option<usize>) -> Route {
        match page {
            Some(page) if page < self.page_count => Route::Page(page),
            _ => Route::Contents,
        }
    }

    /// The address bar names `page`, or no page at all: a page of the
    /// document is entered, anything else changes nothing.
    pub open spec fn arrive(self, page: Option<usize>) -> TrackerView {
        match self.landing(page) {
            Route::Page(page) => self.enter(page),
            Route::Contents => self,
        }
    }

    /// The reader asks for the next page: on the last page nothing changes.
    pub open spec fn next_page(self) -> TrackerView {
        if self.page + 1 < self.page_count {
            self.enter((self.page + 1) as usize)
        } else {
            self
        }
    }

    /// The reader asks for the page before: on the first page nothing changes.
    pub open spec fn previous_page(self) -> TrackerView {
        if self.page > 0 {
            self.enter((self.page - 1) as usize)
        } else {
            self
        }
    }

    /// The reader leaves for the table of contents: the visit ends, the
    /// current page stays the page to come back to.
    pub open spec fn leave(self) -> TrackerView {
        TrackerView { visit: next_visit(self.visit), visible: Set::empty(), ..self }
    }

    /// Whether block `id` of `page`, as it is put on screen, is the one to
    /// scroll back to: it is the recorded position of the current page, past
    /// the top, and this visit has not gone back to it yet.
    pub open spec fn restores(self, id: usize, page: usize) -> bool {
        &&& page == self.page
        &&& !self.restored
        &&& id != 0
        &&& self.positions.contains_key(page)
        &&& self.positions[page] == id
    }

    /// Block `id` of `page` is put on screen.
    pub open spec fn track(self, id: usize, page: usize) -> TrackerView {
        if self.restores(id, page) {
            TrackerView { restored: true, ..self }
        } else {
            self
        }
    }

    /// The reader sets the mark `name`: it stands for the first visible
    /// block of the current page. With nothing visible, nothing is set.
    pub open spec fn set_mark(self, name: char) -> TrackerView {
        match first_of(self.visible) {
            Some(block) => TrackerView {
                marks: after_set(self.marks, name, self.page, block),
                ..self
            },
            None => self,
        }
    }

    /// The place that following the mark `name` leads to: the mark's place,
    /// where the mark is set and its page is a page of the document.
    pub open spec fn target(self, name: char) -> Option<(usize, usize)> {
        match followed(self.marks, name) {
            Some((page, block)) if page < self.page_count => Some((page, block)),
            _ => None,
        }
    }

    /// The reader follows the mark `name`: its block becomes the recorded
    /// position of its page, and the page is entered.
    pub open spec fn follow_mark(self, name: char) -> TrackerView {
        match self.target(name) {
            Some((page, block)) => TrackerView {
                positions: after_record(self.positions, page, block),
                ..self
            }.enter(page),
            None => self,
        }
    }

    /// The block that an intersection event makes the new reading position
    /// of the current page: the first visible block after the event, where
    /// the event belongs to the current visit, the current page is a page
    /// of the open document, a block is visible after the event, and the
    /// first visible block is not the one it was before.
    pub open spec fn new_position(self, visit: u64, block: usize, is_intersecting: bool) -> Option<
        usize,
    > {
        let first = first_of(after_event(self.visible, block, is_intersecting));
        if visit == self.visit && first is Some && first != first_of(self.visible) && self.page
            < self.page_count {
            first
        } else {
            None
        }
    }

    /// An intersection event arrives, tagged with the visit it was observed
    /// in. An event of an earlier visit changes nothing.
    pub open spec fn observe(self, visit: u64, block: usize, is_intersecting: bool) -> TrackerView {
        if visit == self.visit {
            TrackerView {
                visible: after_event(self.visible, block, is_intersecting),
                positions: match self.new_position(visit, block, is_intersecting) {
                    Some(first) => after_record(self.positions, self.page, first),
                    None => self.positions,
                },
                ..self
            }
        } else {
            self
        }
    }

    /// What an intersection event gives to keep: the record of the new
    /// reading position under the document's identifier, where there is a
    /// new position and keeping positions is switched on.
    pub open spec fn due_write(
        self,
        visit: u64,
        block: usize,
        is_intersecting: bool,
        save_position: bool,
    ) -> Option<(Seq<char>, Seq<char>)> {
        match self.new_position(visit, block, is_intersecting) {
            Some(first) if save_position => Some(
                (self.identifier, record_text(self.page as nat, first as nat)),
            ),
            _ => None,
        }
    }

    /// The engine after a command.
    pub open spec fn apply(self, action: Action) -> TrackerView {
        match action {
            Action::NextPage => self.next_page(),
            Action::PreviousPage => self.previous_page(),
            Action::Leave => self.leave(),
            Action::SetMark(name) => self.set_mark(name),
            Action::FollowMark(name) => self.follow_mark(name),
        }
    }

    /// The address that a command leads to; none where the reader stays.
    pub open spec fn route(self, action: Action) -> Option<Route> {
        match action {
            Action::NextPage => if self.page + 1 < self.page_count {
                Some(Route::Page((self.page + 1) as usize))
            } else {
                None
            },
            Action::PreviousPage => if self.page > 0 {
                Some(Route::Page((self.page - 1) as usize))
            } else {
                None
            },
            Action::Leave => Some(Route::Contents),
            Action::SetMark(name) => None,
            Action::FollowMark(name) => match self.target(name) {
                Some((page, block)) => Some(Route::Page(page)),
                None => None,
            },
        }
    }
}

/// What happens to a page while it is on screen.
pub enum PageEvent {
    /// Block `id` of `page` is put on screen.
    Mounted { id: usize, page: usize },
    /// `block` enters or leaves the viewport, seen in the visit tagged `visit`.
    Intersected { visit: u64, block: usize, is_intersecting: bool },
}

impl TrackerView {
    /// The engine after one event of a page on screen.
    pub open spec fn after(self, event: PageEvent) -> TrackerView {
        match event {
            PageEvent::Mounted { id, page } => self.track(id, page),
            PageEvent::Intersected { visit, block, is_intersecting } => self.observe(
                visit,
                block,
                is_intersecting,
            ),
        }
    }

    /// The engine after a run of events of a page on screen.
    pub open spec fn during(self, events: Seq<PageEvent>) -> TrackerView
        decreases events.len(),
    {
        if events.len() == 0 {
            self
        } else {
            self.during(events.drop_last()).after(events.last())
        }
    }

    /// How many events of the run were answered with a scroll back to the
    /// recorded position.
    pub open spec fn scrolls(self, events: Seq<PageEvent>) -> nat
        decreases events.len(),
    {
        if events.len() == 0 {
            0
        } else {
            let before = self.during(events.drop_last());
            let scroll: nat = match events.last() {
                PageEvent::Mounted { id, page } if before.restores(id, page) => 1,
                _ => 0,
            };
            self.scrolls(events.drop_last()) + scroll
        }
    }
}

/// Entering a page leaves nothing visible, and so no first visible block,
/// whatever was visible before.
pub proof fn lemma_entering_clears(state: TrackerView, page: usize)
    ensures
        state.enter(page).visible == Set::<usize>::empty(),
        first_of(state.enter(page).visible) is None,
{
    lemma_first_of(state.enter(page).visible);
}

/// Asking for the next page on the last page changes nothing and leads
/// nowhere, and so does asking for the page before on the first page.
pub proof fn lemma_ends_hold(state: TrackerView)
    ensures
        state.page + 1 >= state.page_count ==> state.next_page() == state && state.route(
            Action::NextPage,
        ) is None,
        state.page == 0 ==> state.previous_page() == state && state.route(Action::PreviousPage)
            is None,
{
}

/// Asking for a page that is not in the document changes nothing.
pub proof fn lemma_out_of_range_holds(state: TrackerView, page: usize)
    requires
        page >= state.page_count,
    ensures
        state.go_to_page(page) == state,
{
}

/// Once a page is entered, an event that was observed in the visit before
/// changes nothing.
pub proof fn lemma_late_event_dropped(
    state: TrackerView,
    page: usize,
    block: usize,
    is_intersecting: bool,
)
    ensures
        state.enter(page).observe(state.visit, block, is_intersecting) == state.enter(page),
        state.enter(page).due_write(state.visit, block, is_intersecting, true) is None,
{
}

/// Only turning the page, leaving, opening and closing clear what is
/// visible: putting a block on screen and setting a mark leave it alone, and
/// an intersection event changes it by its own block at most.
pub proof fn lemma_only_turning_clears(state: TrackerView)
    ensures
        forall|id: usize, page: usize| (#[trigger] state.track(id, page)).visible == state.visible,
        forall|name: char| (#[trigger] state.set_mark(name)).visible == state.visible,
        forall|visit: u64, block: usize, is_intersecting: bool|
            {
                let after = (#[trigger] state.observe(visit, block, is_intersecting)).visible;
                after == state.visible || after == after_event(
                    state.visible,
                    block,
                    is_intersecting,
                )
            },
{
}

/// A mark leads back to where it was set: following it goes to the page it
/// was set on, and makes the block it was set at the position of that page.
pub proof fn lemma_mark_leads_back(state: TrackerView, name: char, block: usize)
    requires
        is_mark_name(name),
        state.page < state.page_count,
        first_of(state.visible) == Some(block),
    ensures
        state.set_mark(name).route(Action::FollowMark(name)) == Some(Route::Page(state.page)),
        state.set_mark(name).follow_mark(name).page == state.page,
        state.set_mark(name).follow_mark(name).positions == after_record(
            state.positions,
            state.page,
            block,
        ),
{
}

/// What is handed out for keeping brings the reader back: the write is
/// keyed by the document's identifier, and a document of as many pages that
/// is opened with the written value opens at the page the reader was on,
/// with the block the reader was at as that page's position.
pub proof fn lemma_position_survives(
    state: TrackerView,
    visit: u64,
    block: usize,
    is_intersecting: bool,
    kept: &str,
    later: TrackerView,
)
    requires
        state.due_write(visit, block, is_intersecting, true) matches Some(write) && write.1
            == kept@,
    ensures
        state.due_write(visit, block, is_intersecting, true) matches Some(write) && write.0
            == state.identifier,
        state.new_position(visit, block, is_intersecting) matches Some(first) && {
            let opened = later.open(state.identifier, state.page_count, Some(kept), true);
            &&& opened.page == state.page
            &&& opened.positions == after_record(Map::empty(), state.page, first)
        },
{
    let first = state.new_position(visit, block, is_intersecting)->0;
    lemma_kept_position_restored(kept, state.page, first, state.page_count);
}

/// Every transition keeps what holds of the engine at all times.
pub proof fn lemma_transitions_keep_wf(state: TrackerView)
    requires
        state.wf(),
    ensures
        TrackerView::start().wf(),
        state.close().wf(),
        forall|identifier: Seq<char>, page_count: usize, record: Option<&str>, save_position: bool|
            (#[trigger] state.open(identifier, page_count, record, save_position)).wf(),
        forall|page: usize| (#[trigger] state.go_to_page(page)).wf(),
        forall|page: Option<usize>| (#[trigger] state.arrive(page)).wf(),
        forall|action: Action| (#[trigger] state.apply(action)).wf(),
        forall|id: usize, page: usize| (#[trigger] state.track(id, page)).wf(),
        forall|visit: u64, block: usize, is_intersecting: bool|
            (#[trigger] state.observe(visit, block, is_intersecting)).wf(),
{
}

/// While a page is on screen, the reader is scrolled back to the recorded
/// position at most once, whatever is put on screen and whatever is seen.
pub proof fn lemma_scrolls_back_once(state: TrackerView, events: Seq<PageEvent>)
    ensures
        state.scrolls(events) <= 1,
        state.scrolls(events) == 1 ==> state.during(events).restored,
        state.restored ==> state.scrolls(events) == 0 && state.during(events).restored,
    decreases events.len(),
{
    if events.len() > 0 {
        lemma_scrolls_back_once(state, events.drop_last());
    }
}

/// The reader's engine.
pub struct Tracker {
    identifier: String,
    page_count: usize,
    page: usize,
    visit: u64,
    restored: bool,
    visible: VisibleSet,
    positions: Positions,
    marks: Marks,
}

impl View for Tracker {
    type V = TrackerView;

    closed spec fn view(&self) -> TrackerView {
        TrackerView {
            identifier: self.identifier@,
            page_count: self.page_count,
            page: self.page,
            visit: self.visit,
            restored: self.restored,
            visible: self.visible@,
            positions: self.positions@,
            marks: self.marks@,
        }
    }
}

impl Tracker {
    /// An engine with no document open and no marks set.
    pub fn init() -> (tracker: Self)
        ensures
            tracker@ == TrackerView::start(),
            tracker@.wf(),
    {
        Self {
            identifier: String::new(),
            page_count: 0,
            page: 0,
            visit: 0,
            restored: false,
            visible: VisibleSet::new(),
            positions: Positions::new(),
            marks: Marks::new(),
        }
    }

    /// Begins a visit to `page`.
    fn enter(&mut self, page: usize)
        ensures
            final(self)@ == old(self)@.enter(page),
    {
        self.page = page;
        self.visit = if self.visit == u64::MAX {
            0
        } else {
            self.visit + 1
        };
        self.restored = false;
        self.visible.on_page_changed(page);
    }

    /// Opens `book`, with `record` being what the durable store holds under
    /// the book's identifier. Gives the page to open the book at: the
    /// record's page where keeping positions is switched on and the record
    /// names a page of the book, else the first page.
    pub fn on_document_opened(&mut self, book: &Book, record: Option<&str>, save_position: bool) -> (page:
        usize)
        ensures
            final(self)@ == old(self)@.open(
                book.identifier@,
                book.page_count,
                record,
                save_position,
            ),
            page == final(self)@.page,
            names_are_letters(old(self)@.marks) ==> final(self)@.wf(),
    {
        self.identifier = book.identifier.clone();
        self.page_count = book.page_count;
        let page = self.positions.on_document_opened(record, book.page_count, save_position);
        self.enter(page);
        page
    }

    /// Closes the document: positions are forgotten, and nothing is written.
    pub fn on_document_closed(&mut self)
        ensures
            final(self)@ == old(self)@.close(),
            names_are_letters(old(self)@.marks) ==> final(self)@.wf(),
    {
        self.identifier = String::new();
        self.page_count = 0;
        self.positions.on_document_closed();
        self.enter(0);
    }

    /// The current page.
    pub fn page(&self) -> (page: usize)
        ensures
            page == self@.page,
    {
        self.page
    }

    /// The number of pages of the open document.
    pub fn page_count(&self) -> (page_count: usize)
        ensures
            page_count == self@.page_count,
    {
        self.page_count
    }

    /// The tag of the current visit, for the events observed in it.
    pub fn visit(&self) -> (visit: u64)
        ensures
            visit == self@.visit,
    {
        self.visit
    }

    /// The first block of the current page in the viewport.
    pub fn first_visible(&self) -> (first: Option<usize>)
        ensures
            first == first_of(self@.visible),
    {
        self.visible.first_visible()
    }

    /// The recorded position of `page`, if it has one.
    pub fn position(&self, page: usize) -> (block: Option<usize>)
        ensures
            block == (if self@.positions.contains_key(page) {
                Some(self@.positions[page])
            } else {
                None
            }),
    {
        self.positions.get(page)
    }

    /// The place that the mark `name` stands for, if it is set.
    pub fn mark(&self, name: char) -> (place: Option<(usize, usize)>)
        ensures
            place == followed(self@.marks, name),
    {
        self.marks.follow_mark(name)
    }

    /// Takes an intersection event of the visit tagged `visit`: `block` has
    /// entered the viewport, or has left it. Where this makes another block
    /// the first visible one, that block becomes the page's position, and
    /// the write that keeps it is handed out if keeping is switched on.
    pub fn on_intersect(
        &mut self,
        visit: u64,
        block: usize,
        is_intersecting: bool,
        save_position: bool,
    ) -> (saved: Option<Write>)
        ensures
            final(self)@ == old(self)@.observe(visit, block, is_intersecting),
            write_view(saved) == old(self)@.due_write(
                visit,
                block,
                is_intersecting,
                save_position,
            ),
            old(self)@.wf() ==> final(self)@.wf(),
    {
        if visit != self.visit {
            return None;
        }
        let before = self.visible.first_visible();
        self.visible.on_intersect(block, is_intersecting);
        let after = self.visible.first_visible();
        match after {
            Some(first) => {
                if before != after && self.page < self.page_count {
                    let text = self.positions.on_first_visible_changed(
                        self.page,
                        first,
                        save_position,
                    );
                    match text {
                        Some(value) => Some(Write { key: self.identifier.clone(), value }),
                        None => None,
                    }
                } else {
                    None
                }
            },
            None => None,
        }
    }

    /// Takes note that block `id` of `page` is put on screen, and says
    /// whether to scroll to it: it is the recorded position of the current
    /// page. A visit scrolls back at most once.
    pub fn track(&mut self, id: usize, page: usize) -> (scroll: bool)
        ensures
            scroll == old(self)@.restores(id, page),
            final(self)@ == old(self)@.track(id, page),
            old(self)@.wf() ==> final(self)@.wf(),
    {
        if page == self.page && !self.restored && id != 0 {
            match self.positions.get(page) {
                Some(block) => {
                    if block == id {
                        self.restored = true;
                        true
                    } else {
                        false
                    }
                },
                None => false,
            }
        } else {
            false
        }
    }

    /// Sets the mark `name` to the first visible block of the current page.
    pub fn set_mark(&mut self, name: char)
        ensures
            final(self)@ == old(self)@.set_mark(name),
            old(self)@.wf() ==> final(self)@.wf(),
    {
        match self.visible.first_visible() {
            Some(block) => {
                self.marks.set_mark(name, self.page, block);
            },
            None => {},
        }
    }

    /// Follows the mark `name`, and gives the address to go to.
    pub fn follow_mark(&mut self, name: char) -> (route: Option<Route>)
        ensures
            final(self)@ == old(self)@.follow_mark(name),
            route == old(self)@.route(Action::FollowMark(name)),
            old(self)@.wf() ==> final(self)@.wf(),
    {
        match self.marks.follow_mark(name) {
            Some((page, block)) => {
                if page < self.page_count {
                    self.positions.record(page, block);
                    self.enter(page);
                    Some(Route::Page(page))
                } else {
                    None
                }
            },
            None => None,
        }
    }

    /// Turns to `page` and gives its address, if it is a page of the
    /// document. Any other request changes nothing.
    pub fn go_to_page(&mut self, page: usize) -> (route: Option<Route>)
        ensures
            final(self)@ == old(self)@.go_to_page(page),
            route == (if page < old(self)@.page_count {
                Some(Route::Page(page))
            } else {
                None
            }),
            old(self)@.wf() ==> final(self)@.wf(),
    {
        if page < self.page_count {
            self.enter(page);
            Some(Route::Page(page))
        } else {
            None
        }
    }

    /// Takes what the address bar names: a page, or none. Turns to the
    /// page if it is a page of the document; gives the address the reader
    /// is to end up at, which is the table of contents for anything else.
    pub fn on_address(&mut self, page: Option<usize>) -> (route: Route)
        ensures
            final(self)@ == old(self)@.arrive(page),
            route == old(self)@.landing(page),
            old(self)@.wf() ==> final(self)@.wf(),
    {
        match page {
            Some(page) => match self.go_to_page(page) {
                Some(route) => route,
                None => Route::Contents,
            },
            None => Route::Contents,
        }
    }

    /// Turns to the next page and gives its address. On the last page
    /// nothing changes.
    pub fn move_to_next_page(&mut self) -> (route: Option<Route>)
        ensures
            final(self)@ == old(self)@.next_page(),
            route == old(self)@.route(Action::NextPage),
            old(self)@.wf() ==> final(self)@.wf(),
    {
        if self.page < self.page_count && self.page_count - self.page > 1 {
            let page: usize = self.page + 1;
            self.enter(page);
            Some(Route::Page(page))
        } else {
            None
        }
    }

    /// Turns to the page before and gives its address. On the first page
    /// nothing changes.
    pub fn move_to_previous_page(&mut self) -> (route: Option<Route>)
        ensures
            final(self)@ == old(self)@.previous_page(),
            route == old(self)@.route(Action::PreviousPage),
            old(self)@.wf() ==> final(self)@.wf(),
    {
        if self.page > 0 {
            let page: usize = self.page - 1;
            self.enter(page);
            Some(Route::Page(page))
        } else {
            None
        }
    }

    /// Leaves for the table of contents, and gives its address.
    pub fn leave(&mut self) -> (route: Route)
        ensures
            final(self)@ == old(self)@.leave(),
            route == Route::Contents,
            old(self)@.wf() ==> final(self)@.wf(),
    {
        self.visit = if self.visit == u64::MAX {
            0
        } else {
            self.visit + 1
        };
        self.visible.on_page_changed(self.page);
        Route::Contents
    }

    /// Carries out a command, and gives the address to go to, if any.
    pub fn apply(&mut self, action: Action) -> (route: Option<Route>)
        ensures
            final(self)@ == old(self)@.apply(action),
            route == old(self)@.route(action),
            old(self)@.wf() ==> final(self)@.wf(),
    {
        match action {
            Action::NextPage => self.move_to_next_page(),
            Action::PreviousPage => self.move_to_previous_page(),
            Action::Leave => Some(self.leave()),
            Action::SetMark(name) => {
                self.set_mark(name);
                None
            },
            Action::FollowMark(name) => self.follow_mark(name),
        }
    }
}

} // verus!
