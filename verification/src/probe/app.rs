//! The controller: it owns the probes and the tab layout and applies key,
//! tick and message events to them.

use crate::probe::event::Event;
use crate::probe::event::Key;
use crate::probe::state::AppState;
use crate::probe::state::Probe;
use crate::probe::state::ProbeView;
use crate::probe::tabs::lemma_page_count_bounds;
use crate::probe::tabs::lemma_selection_in_range;
use crate::probe::tabs::page_size_for;
use crate::probe::tabs::probes_per_tab_for;
use crate::probe::tabs::TabsState;
use vstd::prelude::*;

verus! {

/// The mathematical content of a dashboard.
pub struct AppView {
    pub title: Seq<char>,
    pub should_quit: bool,
    pub tabs: TabsState,
    pub probes: Seq<ProbeView>,
    pub detail_view: bool,
}

impl AppView {
    /// The dashboard after the key `c`: `q` asks to quit, `h` and `l` move a
    /// page back and forward, `k` and `j` move the cursor up and down, a
    /// line feed toggles the detail view, and any other key does nothing.
    pub open spec fn after_key(self, c: char) -> AppView {
        if c == 'q' {
            AppView { should_quit: true, ..self }
        } else if c == 'h' {
            AppView { tabs: self.tabs.after_previous(), ..self }
        } else if c == 'j' {
            AppView { tabs: self.tabs.after_next_probe(), ..self }
        } else if c == 'k' {
            AppView { tabs: self.tabs.after_prev_probe(), ..self }
        } else if c == 'l' {
            AppView { tabs: self.tabs.after_next(), ..self }
        } else if c == '\n' {
            AppView { detail_view: !self.detail_view, ..self }
        } else {
            self
        }
    }

    /// Whether the key `c` can be applied: the page or cursor move it asks
    /// for is defined.
    pub open spec fn key_enabled(self, c: char) -> bool {
        &&& c == 'h' ==> self.tabs.previous_defined()
        &&& c == 'j' ==> self.tabs.pages_defined()
        &&& c == 'l' ==> self.tabs.next_defined()
    }

    /// The dashboard after a key press: a character key acts as
    /// `after_key` says, Enter as the line feed, and the arrows as `k`, `j`,
    /// `h` and `l`.
    pub open spec fn after_input(self, key: Key) -> AppView {
        match key {
            Key::Char(c) => self.after_key(c),
            Key::Enter => self.after_key('\n'),
            Key::Up => self.after_key('k'),
            Key::Down => self.after_key('j'),
            Key::Left => self.after_key('h'),
            Key::Right => self.after_key('l'),
            Key::Other => self,
        }
    }

    /// Whether a key press can be applied.
    pub open spec fn input_enabled(self, key: Key) -> bool {
        match key {
            Key::Char(c) => self.key_enabled(c),
            Key::Enter => true,
            Key::Up => true,
            Key::Down => self.key_enabled('j'),
            Key::Left => self.key_enabled('h'),
            Key::Right => self.key_enabled('l'),
            Key::Other => true,
        }
    }

    /// The dashboard after a tick: every probe closes its interval.
    pub open spec fn ticked(self) -> AppView {
        AppView { probes: self.probes.map_values(|p: ProbeView| p.ticked()), ..self }
    }

    /// The dashboard after a message on a stream: every probe of that name
    /// processes the message, and no other probe changes.
    pub open spec fn dispatched(self, stream: Seq<char>, msg: Seq<char>) -> AppView {
        AppView {
            probes: self.probes.map_values(
                |p: ProbeView|
                    if p.name == stream {
                        p.processed(msg)
                    } else {
                        p
                    },
            ),
            ..self
        }
    }

    /// Whether the message can be dispatched on the stream: every probe of
    /// that name can process it.
    pub open spec fn dispatch_enabled(self, stream: Seq<char>, msg: Seq<char>) -> bool {
        forall|i: int|
            0 <= i < self.probes.len() && (#[trigger] self.probes[i]).name == stream
                ==> self.probes[i].can_process(msg)
    }

    /// Whether any message can be dispatched on the stream: every probe of
    /// that name is ready.
    pub open spec fn dispatch_ready(self, stream: Seq<char>) -> bool {
        forall|i: int|
            0 <= i < self.probes.len() && (#[trigger] self.probes[i]).name == stream
                ==> self.probes[i].ready()
    }

    /// The dashboard after an event of the input queue.
    pub open spec fn after_event(self, event: Event<Key>) -> AppView {
        match event {
            Event::Input(key) => self.after_input(key),
            Event::Tick => self.ticked(),
        }
    }

    /// Whether an event of the input queue can be applied.
    pub open spec fn event_enabled(self, event: Event<Key>) -> bool {
        match event {
            Event::Input(key) => self.input_enabled(key),
            Event::Tick => true,
        }
    }

    /// The dashboard after the terminal took the height `height`: laid out
    /// again with the page size for that height, or unchanged where not even
    /// one probe fits.
    pub open spec fn fitted(self, height: u16) -> AppView {
        match page_size_for(height) {
            Some(size) => AppView { tabs: self.tabs.relaid(self.probes.len() as usize, size), ..self },
            None => self,
        }
    }

    /// The layout is well-formed and counts the probes that there are.
    pub open spec fn wf(self) -> bool {
        self.tabs.wf() && self.tabs.num_probes == self.probes.len()
    }

    /// The cursor points at a probe of the list.
    pub open spec fn has_selection(self) -> bool {
        self.tabs.flat_index() < self.probes.len()
    }

    /// The selected page starts within the list or at its end.
    pub open spec fn has_page(self) -> bool {
        self.tabs.selected_tab * self.tabs.probes_per_tab <= self.probes.len()
    }
}

/// The dashboard: title, quit flag, tab layout and data.
#[derive(Debug)]
pub struct App<'a> {
    pub title: &'a str,
    pub should_quit: bool,
    pub tabs: TabsState,
    pub state: AppState,
}

impl<'a> View for App<'a> {
    type V = AppView;

    open spec fn view(&self) -> AppView {
        AppView {
            title: self.title@,
            should_quit: self.should_quit,
            tabs: self.tabs,
            probes: self.state.probes@.map_values(|p: Probe| p@),
            detail_view: self.state.detail_view,
        }
    }
}

impl<'a> App<'a> {
    /// A dashboard over `state` that shows all probes on one page.
    pub fn new(title: &'a str, state: AppState) -> (app: App<'a>)
        ensures
            app.title == title,
            !app.should_quit,
            app.tabs == (TabsState {
                num_tabs: 1,
                num_probes: state.probes@.len() as usize,
                probes_per_tab: state.probes@.len() as usize,
                selected_tab: 0,
                selected_probe: 0,
            }),
            app.state == state,
            app@.wf(),
    {
        let num_probes: usize = state.probes.len();
        App { title, should_quit: false, tabs: TabsState::new(num_probes), state }
    }

    /// Whether `probes_for_tab` may be called.
    pub fn has_page(&self) -> (ok: bool)
        ensures
            ok == self@.has_page(),
    {
        proof {
            assert(self.tabs.selected_tab * self.tabs.probes_per_tab >= 0) by (nonlinear_arith);
            assert(self.state.probes.len() == self@.probes.len());
        }
        match self.tabs.selected_tab.checked_mul(self.tabs.probes_per_tab) {
            Some(start) => start <= self.state.probes.len(),
            None => false,
        }
    }

    /// Whether `selected_probe` may be called.
    pub fn has_selection(&self) -> (ok: bool)
        ensures
            ok == self@.has_selection(),
    {
        proof {
            assert(self.tabs.selected_tab * self.tabs.probes_per_tab >= 0) by (nonlinear_arith);
            assert(self.state.probes.len() == self@.probes.len());
        }
        match self.tabs.selected_tab.checked_mul(self.tabs.probes_per_tab) {
            Some(start) => match start.checked_add(self.tabs.selected_probe) {
                Some(index) => index < self.state.probes.len(),
                None => false,
            },
            None => false,
        }
    }

    /// Whether `on_key` may be called with the key `c`.
    pub fn key_enabled(&self, c: char) -> (ok: bool)
        ensures
            ok == self@.key_enabled(c),
    {
        if c == 'h' {
            self.tabs.selected_tab != 0 || self.tabs.num_tabs > 0
        } else if c == 'j' {
            self.tabs.num_probes <= self.tabs.probes_per_tab || (self.tabs.num_tabs >= 1
                && self.tabs.probes_per_tab >= 1)
        } else if c == 'l' {
            self.tabs.num_tabs > 0 && self.tabs.selected_tab < usize::MAX
        } else {
            true
        }
    }

    /// Whether `on_event` may be called with the event.
    pub fn event_enabled(&self, event: &Event<Key>) -> (ok: bool)
        ensures
            ok == self@.event_enabled(*event),
    {
        match event {
            Event::Input(key) => match key {
                Key::Char(c) => self.key_enabled(*c),
                Key::Enter => true,
                Key::Up => true,
                Key::Down => self.key_enabled('j'),
                Key::Left => self.key_enabled('h'),
                Key::Right => self.key_enabled('l'),
                Key::Other => true,
            },
            Event::Tick => true,
        }
    }

    /// Whether this message can be dispatched on the stream: see
    /// `AppView::dispatch_enabled`. The test runs the pattern of each probe
    /// of that name on the message.
    pub fn dispatch_enabled(&self, stream: &str, msg: &str) -> (ok: bool)
        ensures
            ok == self@.dispatch_enabled(stream@, msg@),
    {
        let wanted: String = stream.to_owned();
        let n: usize = self.state.probes.len();
        let mut i: usize = 0;
        while i < n
            invariant
                n == self.state.probes@.len(),
                i <= n,
                wanted@ == stream@,
                forall|k: int|
                    0 <= k < i && (#[trigger] self@.probes[k]).name == stream@
                        ==> self@.probes[k].can_process(msg@),
            decreases n - i,
        {
            proof {
                assert(self@.probes[i as int] == self.state.probes@[i as int]@);
            }
            if self.state.probes[i].name == wanted && !self.state.probes[i].can_process(msg) {
                return false;
            }
            i += 1;
        }
        true
    }

    /// Whether any message can be dispatched on the stream: see
    /// `AppView::dispatch_ready`.
    pub fn dispatch_ready(&self, stream: &str) -> (ok: bool)
        ensures
            ok == self@.dispatch_ready(stream@),
            ok ==> forall|msg: Seq<char>| self@.dispatch_enabled(stream@, msg),
    {
        let wanted: String = stream.to_owned();
        let n: usize = self.state.probes.len();
        let mut i: usize = 0;
        while i < n
            invariant
                n == self.state.probes@.len(),
                i <= n,
                wanted@ == stream@,
                forall|k: int|
                    0 <= k < i && (#[trigger] self@.probes[k]).name == stream@
                        ==> self@.probes[k].ready(),
            decreases n - i,
        {
            proof {
                assert(self@.probes[i as int] == self.state.probes@[i as int]@);
            }
            if self.state.probes[i].name == wanted && !self.state.probes[i].ready() {
                return false;
            }
            i += 1;
        }
        true
    }

    /// Lays the probes out for a terminal with `height` rows, and says
    /// whether it did: where not even one probe fits, nothing changes.
    pub fn fit_to_height(&mut self, height: u16) -> (fits: bool)
        ensures
            final(self)@ == old(self)@.fitted(height),
            fits == page_size_for(height) is Some,
            final(self).state == old(self).state,
            old(self)@.wf() ==> final(self)@.wf(),
    {
        match probes_per_tab_for(height) {
            Some(size) => {
                self.tabs.recalculate_layout(self.state.probes.len(), size);
                true
            },
            None => false,
        }
    }

    /// Copies of the probes on the selected page, in order.
    pub fn probes_for_tab(&self) -> (page: Vec<Probe>)
        requires
            self@.has_page(),
        ensures
            page@.len() == AppState::page_end(
                self.tabs.selected_tab * self.tabs.probes_per_tab,
                self.tabs.probes_per_tab as int,
                self@.probes.len() as int,
            ) - self.tabs.selected_tab * self.tabs.probes_per_tab,
            forall|i: int|
                0 <= i < page@.len() ==> (#[trigger] page@[i])@ == self@.probes[self.tabs.selected_tab
                    * self.tabs.probes_per_tab + i],
    {
        self.state.probes_for_tab(self.tabs.selected_tab, self.tabs.probes_per_tab)
    }

    /// Moves the cursor one probe up.
    pub fn on_up(&mut self)
        ensures
            final(self)@ == old(self)@.after_key('k'),
            final(self).state == old(self).state,
    {
        self.tabs.prev_probe();
    }

    /// Moves the cursor one probe down.
    pub fn on_down(&mut self)
        requires
            old(self)@.key_enabled('j'),
        ensures
            final(self)@ == old(self)@.after_key('j'),
            final(self).state == old(self).state,
    {
        self.tabs.next_probe();
    }

    /// Moves one page forward.
    pub fn on_right(&mut self)
        requires
            old(self)@.key_enabled('l'),
        ensures
            final(self)@ == old(self)@.after_key('l'),
            final(self).state == old(self).state,
    {
        self.tabs.next();
    }

    /// Moves one page back.
    pub fn on_left(&mut self)
        requires
            old(self)@.key_enabled('h'),
        ensures
            final(self)@ == old(self)@.after_key('h'),
            final(self).state == old(self).state,
    {
        self.tabs.previous();
    }

    /// A copy of the probe under the cursor.
    pub fn selected_probe(&self) -> (probe: Probe)
        requires
            self@.has_selection(),
        ensures
            probe@ == self@.probes[self.tabs.flat_index()],
    {
        proof {
            assert(self.state.probes.len() == self@.probes.len());
        }
        self.state.probes[self.tabs.selected_probe_index()].clone()
    }

    /// Applies a character key.
    pub fn on_key(&mut self, c: char)
        requires
            old(self)@.key_enabled(c),
        ensures
            final(self)@ == old(self)@.after_key(c),
            final(self).state.probes == old(self).state.probes,
    {
        if c == 'q' {
            self.should_quit = true;
        } else if c == 'h' {
            self.on_left();
        } else if c == 'j' {
            self.on_down();
        } else if c == 'k' {
            self.on_up();
        } else if c == 'l' {
            self.on_right();
        } else if c == '\n' {
            self.state.detail_view = !self.state.detail_view;
        }
    }

    /// Closes the interval of every probe.
    pub fn on_tick(&mut self)
        ensures
            final(self)@ == old(self)@.ticked(),
    {
        let n: usize = self.state.probes.len();
        let mut i: usize = 0;
        while i < n
            invariant
                n == self.state.probes@.len(),
                n == old(self).state.probes@.len(),
                i <= n,
                self.title == old(self).title,
                self.should_quit == old(self).should_quit,
                self.tabs == old(self).tabs,
                self.state.detail_view == old(self).state.detail_view,
                forall|k: int| 0 <= k < i ==> (#[trigger] self.state.probes@[k])@ == old(self).state.probes@[k]@.ticked(),
                forall|k: int| i <= k < n ==> (#[trigger] self.state.probes@[k]) == old(self).state.probes@[k],
            decreases n - i,
        {
            self.state.probes[i].update_state();
            i += 1;
        }
        proof {
            assert(self@.probes =~= old(self)@.ticked().probes);
        }
    }

    /// Hands a message of the stream `stream` to every probe of that name.
    pub fn process_message_for_stream(&mut self, stream: &str, msg: &str)
        requires
            old(self)@.dispatch_enabled(stream@, msg@),
        ensures
            final(self)@ == old(self)@.dispatched(stream@, msg@),
    {
        let wanted: String = stream.to_owned();
        let n: usize = self.state.probes.len();
        let mut i: usize = 0;
        while i < n
            invariant
                n == self.state.probes@.len(),
                n == old(self).state.probes@.len(),
                i <= n,
                wanted@ == stream@,
                old(self)@.dispatch_enabled(stream@, msg@),
                self.title == old(self).title,
                self.should_quit == old(self).should_quit,
                self.tabs == old(self).tabs,
                self.state.detail_view == old(self).state.detail_view,
                forall|k: int| 0 <= k < i ==> (#[trigger] self.state.probes@[k])@ == old(self)@.dispatched(stream@, msg@).probes[k],
                forall|k: int| i <= k < n ==> (#[trigger] self.state.probes@[k]) == old(self).state.probes@[k],
            decreases n - i,
        {
            proof {
                assert(old(self)@.probes[i as int] == old(self).state.probes@[i as int]@);
            }
            if self.state.probes[i].name == wanted {
                self.state.probes[i].process_message(msg);
            }
            i += 1;
        }
        proof {
            assert(self@.probes =~= old(self)@.dispatched(stream@, msg@).probes);
        }
    }

    /// Applies an event of the input queue.
    pub fn on_event(&mut self, event: Event<Key>)
        requires
            old(self)@.event_enabled(event),
        ensures
            final(self)@ == old(self)@.after_event(event),
    {
        match event {
            Event::Input(key) => match key {
                Key::Char(c) => self.on_key(c),
                Key::Enter => self.on_key('\n'),
                Key::Up => self.on_up(),
                Key::Down => self.on_down(),
                Key::Left => self.on_left(),
                Key::Right => self.on_right(),
                Key::Other => {},
            },
            Event::Tick => self.on_tick(),
        }
    }
}

/// Events keep a dashboard well-formed: after any event that can be
/// applied, the layout is consistent, counts the probes that there are, and
/// has its cursor on a slot of an existing page.
pub proof fn lemma_events_keep_wf(app: AppView, event: Event<Key>)
    requires
        app.wf(),
        app.event_enabled(event),
    ensures
        app.after_event(event).wf(),
        app.after_event(event).probes.len() == app.probes.len(),
{
}

/// Laying a well-formed dashboard out for another terminal height keeps it
/// well-formed.
pub proof fn lemma_fitted_keeps_wf(app: AppView, height: u16)
    requires
        app.wf(),
        app.probes.len() <= usize::MAX,
    ensures
        app.fitted(height).wf(),
{
    if let Some(size) = page_size_for(height) {
        lemma_page_count_bounds(app.probes.len(), size as nat);
    }
}

/// On a well-formed dashboard with at least one probe every event can be
/// applied, the selected page lies within the list, and the cursor points at
/// a probe.
pub proof fn lemma_wf_enables_events(app: AppView, event: Event<Key>)
    requires
        app.wf(),
        app.probes.len() > 0,
    ensures
        app.event_enabled(event),
        app.has_page(),
        app.has_selection(),
{
    lemma_selection_in_range(app.tabs);
}

/// A message changes the probes of its stream and no others: each probe of
/// that name processes it, and every other probe stays as it is.
pub proof fn lemma_dispatch_touches_only_named(app: AppView, stream: Seq<char>, msg: Seq<char>)
    ensures
        app.dispatched(stream, msg).probes.len() == app.probes.len(),
        forall|i: int|
            0 <= i < app.probes.len() && (#[trigger] app.probes[i]).name == stream ==> app.dispatched(
                stream,
                msg,
            ).probes[i] == app.probes[i].processed(msg),
        forall|i: int|
            0 <= i < app.probes.len() && (#[trigger] app.probes[i]).name != stream ==> app.dispatched(
                stream,
                msg,
            ).probes[i] == app.probes[i],
        app.dispatched(stream, msg).tabs == app.tabs,
        app.dispatched(stream, msg).should_quit == app.should_quit,
        app.dispatched(stream, msg).detail_view == app.detail_view,
{
}

} // verus!
