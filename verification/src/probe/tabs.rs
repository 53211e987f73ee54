//! Pagination of an ordered probe list over tabs of a fixed page size.

use vstd::prelude::*;

verus! {

/// Number of pages needed to place `count` items with `per_page` items on
/// each page: the quotient rounded up.
pub open spec fn page_count(count: nat, per_page: nat) -> nat
    recommends
        per_page >= 1,
{
    if count % per_page == 0 {
        count / per_page
    } else {
        count / per_page + 1
    }
}

/// Layout parameters and cursor of the tab bar.
#[derive(Debug)]
pub struct TabsState {
    pub num_tabs: usize,
    pub num_probes: usize,
    pub probes_per_tab: usize,
    pub selected_tab: usize,
    pub selected_probe: usize,
}

impl TabsState {
    /// Number of probes shown on page `tab` of this layout. On the last of
    /// several pages this is the remainder of the division, which is zero
    /// when that page is exactly full.
    pub open spec fn probes_on_page(self, tab: int) -> nat {
        if self.num_probes <= self.probes_per_tab {
            self.num_probes as nat
        } else if tab < self.num_tabs - 1 {
            self.probes_per_tab as nat
        } else {
            (self.num_probes % self.probes_per_tab) as nat
        }
    }

    /// Number of probes placed on page `tab`, which the cursor can reach.
    /// It is the number that `probes_on_page` gives, but for the last of
    /// several pages with a remainder of zero: that page is exactly full and
    /// holds a whole page of probes.
    pub open spec fn slots_on_page(self, tab: int) -> nat {
        let n = self.probes_on_page(tab);
        if n == 0 && self.num_probes > self.probes_per_tab {
            self.probes_per_tab as nat
        } else {
            n
        }
    }

    /// Largest cursor position reachable on the selected page.
    pub open spec fn last_slot(self) -> nat {
        let n = self.slots_on_page(self.selected_tab as int);
        if n == 0 {
            0
        } else {
            (n - 1) as nat
        }
    }

    /// The page count agrees with the probe count and the page size. A
    /// page size of zero occurs only in the fresh layout of an empty list.
    pub open spec fn layout_ok(self) -> bool {
        if self.probes_per_tab == 0 {
            self.num_probes == 0 && self.num_tabs == 1
        } else {
            self.num_tabs == page_count(self.num_probes as nat, self.probes_per_tab as nat)
        }
    }

    /// The cursor lies on an existing page and on a slot of that page.
    pub open spec fn cursor_ok(self) -> bool {
        &&& self.num_tabs > 0 ==> self.selected_tab < self.num_tabs
        &&& self.num_tabs == 0 ==> self.selected_tab == 0
        &&& self.selected_probe <= self.last_slot()
    }

    /// Well-formedness: consistent layout and cursor within bounds.
    pub open spec fn wf(self) -> bool {
        self.layout_ok() && self.cursor_ok()
    }

    /// A single page that holds all `num_probes` probes, cursor at the start.
    pub fn new(num_probes: usize) -> (state: Self)
        ensures
            state.num_tabs == 1,
            state.num_probes == num_probes,
            state.probes_per_tab == num_probes,
            state.selected_tab == 0,
            state.selected_probe == 0,
            state.wf(),
    {
        Self { num_tabs: 1, num_probes, probes_per_tab: num_probes, selected_tab: 0, selected_probe: 0 }
    }

    /// The layout for `num_probes` probes with `probes_per_tab` on a page.
    /// The cursor returns to the first probe of the first page when the page
    /// count or the page size differs from the current one, and stays where
    /// it is otherwise.
    pub open spec fn relaid(self, num_probes: usize, probes_per_tab: usize) -> TabsState {
        let tabs = page_count(num_probes as nat, probes_per_tab as nat) as usize;
        let reset = tabs != self.num_tabs || probes_per_tab != self.probes_per_tab;
        TabsState {
            num_tabs: tabs,
            num_probes,
            probes_per_tab,
            selected_tab: if reset { 0 } else { self.selected_tab },
            selected_probe: if reset { 0 } else { self.selected_probe },
        }
    }

    /// The state after moving one page forward, wrapping past the last page.
    pub open spec fn after_next(self) -> TabsState {
        TabsState {
            selected_tab: ((self.selected_tab + 1) % (self.num_tabs as int)) as usize,
            selected_probe: 0,
            ..self
        }
    }

    /// The state after moving one page back, wrapping before the first page.
    pub open spec fn after_previous(self) -> TabsState {
        TabsState {
            selected_tab: if self.selected_tab > 0 {
                (self.selected_tab - 1) as usize
            } else {
                (self.num_tabs - 1) as usize
            },
            selected_probe: 0,
            ..self
        }
    }

    /// The state after moving the cursor one probe down, stopping at the last
    /// slot of the page.
    pub open spec fn after_next_probe(self) -> TabsState {
        TabsState {
            selected_probe: if self.selected_probe < self.last_slot() {
                (self.selected_probe + 1) as usize
            } else {
                self.selected_probe
            },
            ..self
        }
    }

    /// The state after moving the cursor one probe up, stopping at the first
    /// slot of the page.
    pub open spec fn after_prev_probe(self) -> TabsState {
        TabsState {
            selected_probe: if self.selected_probe > 0 {
                (self.selected_probe - 1) as usize
            } else {
                self.selected_probe
            },
            ..self
        }
    }

    /// The division and the remainder that size a page are defined: several
    /// pages exist only with a page size of at least one.
    pub open spec fn pages_defined(self) -> bool {
        self.num_probes > self.probes_per_tab ==> self.num_tabs >= 1 && self.probes_per_tab >= 1
    }

    /// Moving a page forward is defined: there is a page to wrap around to,
    /// and the page number can be counted up.
    pub open spec fn next_defined(self) -> bool {
        self.num_tabs > 0 && self.selected_tab < usize::MAX
    }

    /// Moving a page back is defined: from the first page there is a last
    /// page to wrap around to.
    pub open spec fn previous_defined(self) -> bool {
        self.selected_tab == 0 ==> self.num_tabs > 0
    }

    /// Flat index of the selected probe in the ordered probe list.
    pub open spec fn flat_index(self) -> int {
        self.selected_probe + self.selected_tab * self.probes_per_tab
    }

    /// Recomputes the layout for `num_probes` probes, `probes_per_tab` to a
    /// page. A page size of zero is not a layout and is left out.
    pub fn recalculate_layout(&mut self, num_probes: usize, probes_per_tab: usize)
        requires
            probes_per_tab >= 1,
        ensures
            *final(self) == old(self).relaid(num_probes, probes_per_tab),
            final(self).num_tabs == page_count(num_probes as nat, probes_per_tab as nat),
            final(self).layout_ok(),
            old(self).cursor_ok() && old(self).num_probes == num_probes ==> final(self).wf(),
            final(self).selected_tab == 0 && final(self).selected_probe == 0 ==> final(self).wf(),
    {
        proof {
            lemma_page_count_bounds(num_probes as nat, probes_per_tab as nat);
        }
        let full: usize = num_probes / probes_per_tab;
        let new_num_tabs: usize = if num_probes % probes_per_tab == 0 {
            full
        } else {
            full + 1
        };
        if new_num_tabs != self.num_tabs || probes_per_tab != self.probes_per_tab {
            self.selected_probe = 0;
            self.selected_tab = 0;
        }
        self.num_tabs = new_num_tabs;
        self.num_probes = num_probes;
        self.probes_per_tab = probes_per_tab;
    }

    /// Moves to the next page, wrapping to the first after the last, and
    /// puts the cursor on the first probe of that page.
    pub fn next(&mut self)
        requires
            old(self).next_defined(),
        ensures
            *final(self) == old(self).after_next(),
            final(self).selected_tab < final(self).num_tabs,
            old(self).layout_ok() ==> final(self).wf(),
    {
        self.selected_probe = 0;
        self.selected_tab = (self.selected_tab + 1) % self.num_tabs;
    }

    /// Moves to the previous page, wrapping to the last before the first,
    /// and puts the cursor on the first probe of that page.
    pub fn previous(&mut self)
        requires
            old(self).previous_defined(),
        ensures
            *final(self) == old(self).after_previous(),
            old(self).wf() ==> final(self).wf(),
    {
        if self.selected_tab > 0 {
            self.selected_tab -= 1;
        } else {
            self.selected_tab = self.num_tabs - 1;
        }
        self.selected_probe = 0;
    }

    /// Moves the cursor to the next probe of the page; on the last one it
    /// stays.
    pub fn next_probe(&mut self)
        requires
            old(self).pages_defined(),
        ensures
            *final(self) == old(self).after_next_probe(),
            old(self).selected_probe <= old(self).last_slot() ==> final(self).selected_probe
                <= final(self).last_slot(),
            old(self).selected_probe >= old(self).last_slot() ==> *final(self) == *old(self),
            old(self).wf() ==> final(self).wf(),
    {
        if self.selected_probe < self.slots_on_selected_page().saturating_sub(1) {
            self.selected_probe += 1;
        }
    }

    /// Moves the cursor to the previous probe of the page; on the first one
    /// it stays.
    pub fn prev_probe(&mut self)
        ensures
            *final(self) == old(self).after_prev_probe(),
            final(self).selected_probe <= old(self).selected_probe,
            old(self).selected_probe == 0 ==> *final(self) == *old(self),
            old(self).wf() ==> final(self).wf(),
    {
        if self.selected_probe > 0 {
            self.selected_probe -= 1;
        }
    }

    /// Number of probes placed on the selected page, an exactly full last
    /// page counted as full.
    pub fn slots_on_selected_page(&self) -> (n: usize)
        requires
            self.pages_defined(),
        ensures
            n == self.slots_on_page(self.selected_tab as int),
    {
        let n: usize = self.probes_on_selected_page();
        if n == 0 && self.num_probes > self.probes_per_tab {
            self.probes_per_tab
        } else {
            n
        }
    }

    /// Number of probes on the selected page; on the last of several pages
    /// the remainder, which is zero when that page is exactly full.
    pub fn probes_on_selected_page(&self) -> (n: usize)
        requires
            self.pages_defined(),
        ensures
            n == self.probes_on_page(self.selected_tab as int),
            n <= self.num_probes,
    {
        if self.num_probes <= self.probes_per_tab {
            return self.num_probes;
        }
        if self.selected_tab < self.num_tabs - 1 {
            self.probes_per_tab
        } else {
            self.num_probes % self.probes_per_tab
        }
    }

    /// Flat index of the selected probe: its slot on the page plus the probes
    /// of all pages before it.
    pub fn selected_probe_index(&self) -> (index: usize)
        requires
            self.flat_index() <= usize::MAX,
        ensures
            index == self.flat_index(),
    {
        proof {
            assert(self.selected_tab * self.probes_per_tab >= 0) by (nonlinear_arith);
        }
        self.selected_probe + self.selected_tab * self.probes_per_tab
    }
}

/// Rows of the terminal that the frame around the probe list takes.
pub const FRAME_ROWS: u16 = 3;

/// Rows of the terminal that one probe takes.
pub const PROBE_ROWS: u16 = 5;

/// Number of probes that fit on a page of a terminal with `height` rows:
/// the rows that the frame leaves, divided among the probes. There is none
/// where not even one probe fits.
pub open spec fn page_size_for(height: u16) -> Option<usize> {
    if height >= FRAME_ROWS + PROBE_ROWS {
        Some(((height - FRAME_ROWS) / PROBE_ROWS as int) as usize)
    } else {
        None
    }
}

/// Computes the page size for a terminal with `height` rows.
pub fn probes_per_tab_for(height: u16) -> (size: Option<usize>)
    ensures
        size == page_size_for(height),
        size matches Some(n) ==> n >= 1,
{
    if height >= FRAME_ROWS + PROBE_ROWS {
        let rows: u16 = height - FRAME_ROWS;
        Some((rows / PROBE_ROWS) as usize)
    } else {
        None
    }
}

/// Laying out again leaves the cursor where it is exactly when neither the
/// page count nor the page size changes, and puts it on the first probe of
/// the first page when either changes. Laying out twice in the same way
/// therefore never moves the cursor the second time.
pub proof fn lemma_relaid_selection(
    state: TabsState,
    num_probes: usize,
    probes_per_tab: usize,
    again: usize,
)
    requires
        probes_per_tab >= 1,
        page_count(again as nat, probes_per_tab as nat) == page_count(
            num_probes as nat,
            probes_per_tab as nat,
        ),
    ensures
        state.num_tabs == page_count(num_probes as nat, probes_per_tab as nat)
            && state.probes_per_tab == probes_per_tab ==> state.relaid(
            num_probes,
            probes_per_tab,
        ).selected_tab == state.selected_tab && state.relaid(
            num_probes,
            probes_per_tab,
        ).selected_probe == state.selected_probe,
        state.num_tabs != page_count(num_probes as nat, probes_per_tab as nat)
            || state.probes_per_tab != probes_per_tab ==> state.relaid(
            num_probes,
            probes_per_tab,
        ).selected_tab == 0 && state.relaid(num_probes, probes_per_tab).selected_probe == 0,
        state.relaid(num_probes, probes_per_tab).relaid(again, probes_per_tab).selected_tab
            == state.relaid(num_probes, probes_per_tab).selected_tab,
        state.relaid(num_probes, probes_per_tab).relaid(again, probes_per_tab).selected_probe
            == state.relaid(num_probes, probes_per_tab).selected_probe,
{
    lemma_page_count_bounds(num_probes as nat, probes_per_tab as nat);
}

/// The cursor is clamped to the page: from a slot of the page, moving down
/// or up leads to a slot of the page; at the last slot moving down changes
/// nothing, and at the first slot moving up changes nothing, however often
/// it is repeated.
pub proof fn lemma_cursor_clamped(state: TabsState)
    requires
        state.selected_probe <= state.last_slot(),
    ensures
        state.after_next_probe().selected_probe <= state.last_slot(),
        state.after_prev_probe().selected_probe <= state.last_slot(),
        state.after_next_probe().last_slot() == state.last_slot(),
        state.after_prev_probe().last_slot() == state.last_slot(),
        state.selected_probe == state.last_slot() ==> state.after_next_probe() == state,
        state.selected_probe == 0 ==> state.after_prev_probe() == state,
        state.after_next_probe().selected_tab == state.selected_tab,
        state.after_prev_probe().selected_tab == state.selected_tab,
{
}

/// Page moves wrap around: from the last page the next page is the first,
/// from the first page the previous page is the last, and one move back
/// undoes one move forward. Either move puts the cursor on the first probe.
pub proof fn lemma_tabs_wrap(state: TabsState)
    requires
        state.num_tabs > 0,
        state.selected_tab < state.num_tabs,
    ensures
        state.selected_tab + 1 < state.num_tabs ==> state.after_next().selected_tab
            == state.selected_tab + 1,
        state.selected_tab + 1 == state.num_tabs ==> state.after_next().selected_tab == 0,
        state.selected_tab == 0 ==> state.after_previous().selected_tab == state.num_tabs - 1,
        state.after_next().after_previous().selected_tab == state.selected_tab,
        state.after_previous().after_next().selected_tab == state.selected_tab,
        state.after_next().selected_probe == 0,
        state.after_previous().selected_probe == 0,
{
    let n = state.num_tabs as int;
    let t = state.selected_tab as int;
    if t + 1 < n {
        assert((t + 1) % n == t + 1) by {
            vstd::arithmetic::div_mod::lemma_small_mod((t + 1) as nat, n as nat);
        }
    } else {
        assert((t + 1) % n == 0) by {
            vstd::arithmetic::div_mod::lemma_mod_self_0(n);
        }
    }
    if t == 0 {
        assert((n - 1 + 1) % n == 0) by {
            vstd::arithmetic::div_mod::lemma_mod_self_0(n);
        }
    } else {
        assert((t - 1 + 1) % n == t) by {
            vstd::arithmetic::div_mod::lemma_small_mod(t as nat, n as nat);
        }
    }
}

/// In a well-formed layout the selected probe exists: its flat index lies
/// within the probe list, wherever there is a probe at all.
pub proof fn lemma_selection_in_range(state: TabsState)
    requires
        state.wf(),
        state.num_probes > 0,
    ensures
        state.num_tabs > 0,
        state.next_defined(),
        state.previous_defined(),
        state.pages_defined(),
        0 <= state.selected_tab * state.probes_per_tab <= state.flat_index() < state.num_probes,
{
    let n = state.num_probes as int;
    let k = state.probes_per_tab as int;
    let t = state.selected_tab as int;
    lemma_page_count_bounds(n as nat, k as nat);
    assert(t * k >= 0) by (nonlinear_arith)
        requires
            t >= 0,
            k >= 0,
    ;
    if n <= k {
        assert(state.num_tabs == 1) by {
            if n == k {
                vstd::arithmetic::div_mod::lemma_mod_self_0(k);
                vstd::arithmetic::div_mod::lemma_div_basics(k);
            } else {
                vstd::arithmetic::div_mod::lemma_small_mod(n as nat, k as nat);
                vstd::arithmetic::div_mod::lemma_basic_div(n, k);
            }
        }
        assert(t * k == 0) by (nonlinear_arith)
            requires
                t == 0,
        ;
    } else {
        let pages = state.num_tabs as int;
        assert((pages - 1) * k < n);
        if t < pages - 1 {
            assert((t + 1) * k <= (pages - 1) * k) by (nonlinear_arith)
                requires
                    t + 1 <= pages - 1,
                    k >= 0,
            ;
            assert((t + 1) * k == t * k + k) by (nonlinear_arith);
        } else {
            let r = n % k;
            assert(n == k * (n / k) + r && 0 <= r < k) by {
                vstd::arithmetic::div_mod::lemma_fundamental_div_mod(n, k);
                vstd::arithmetic::div_mod::lemma_mod_bound(n, k);
            }
            assert((n / k) * k == k * (n / k)) by (nonlinear_arith);
            if r == 0 {
                assert(t == n / k - 1);
                assert((n / k - 1) * k == (n / k) * k - k) by (nonlinear_arith);
                assert(state.slots_on_page(t) == k);
            } else {
                assert(t == n / k);
            }
        }
    }
}

/// The page count is the least number of pages that hold all items, and it
/// never exceeds the item count.
pub proof fn lemma_page_count_bounds(count: nat, per_page: nat)
    requires
        per_page >= 1,
    ensures
        page_count(count, per_page) * per_page >= count,
        count > 0 ==> (page_count(count, per_page) - 1) * per_page < count,
        page_count(count, per_page) <= count,
        count == 0 <==> page_count(count, per_page) == 0,
        count % per_page != 0 ==> count / per_page < count,
{
    let q = count / per_page;
    let r = count % per_page;
    assert(count == per_page * q + r && 0 <= r < per_page) by {
        vstd::arithmetic::div_mod::lemma_fundamental_div_mod(count as int, per_page as int);
        vstd::arithmetic::div_mod::lemma_mod_bound(count as int, per_page as int);
    }
    assert(q >= 0);
    assert(per_page * q >= q) by (nonlinear_arith)
        requires
            per_page >= 1,
            q >= 0,
    ;
    assert((q + 1) * per_page == q * per_page + per_page) by (nonlinear_arith);
    assert((q - 1) * per_page == q * per_page - per_page) by (nonlinear_arith);
    assert(q * per_page == per_page * q) by (nonlinear_arith);
    if q == 0 {
        assert(per_page * q == 0);
    }
}

} // verus!
