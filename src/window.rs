use vstd::prelude::*;

use crate::config::background_alpha;
use crate::config::bg_alpha_for;
use crate::config::LastTabExitBehavior;
use crate::config::TabMode;
use crate::config::ZohaCfg;
use crate::config::FONT_SCALE_DEFAULT;
use crate::config::FONT_SCALE_MAX;
use crate::config::FONT_SCALE_MIN;
use crate::config::FONT_SCALE_STEP;
use crate::label::label_text;
use crate::label::tab_label;
use crate::registry::lemma_reorder_inverse;
use crate::registry::reorder_seq;
use crate::registry::reorder_slot;
use crate::registry::SessionRegistry;
use crate::terminal::ZohaTerminal;

verus! {

/// A condition that stops an operation; it is reported and the state stays as it was.
#[derive(Clone, Copy, Debug, PartialEq, Eq, Structural)]
pub enum Problem {
    /// The notebook has not been created yet.
    MissingNotebook,
    /// The window has not been created yet.
    MissingWindow,
    /// No tab is open, so none is active.
    NoActivePage,
    /// No session has the given number, or no tab sits at the given slot.
    MissingSession,
    /// Every tab number has been issued.
    CounterExhausted,
}

/// What the user interface has to do after an operation, in order.
#[derive(Clone, Copy, Debug, PartialEq, Eq, Structural)]
pub enum Action {
    /// Create the terminal of session `id`, start its child in the working
    /// directory of session `inherit_from` (or the configured default when
    /// that is unknown), show its page at `slot`, make it the current page,
    /// and give it the keyboard focus when `grab_focus`.
    Spawn { id: u64, slot: usize, grab_focus: bool, inherit_from: Option<u64> },
    /// Stop watching the child of session `id` and remove its page.
    RemovePage { id: u64 },
    /// Move the page of session `id` to `slot`.
    MovePage { id: u64, slot: usize },
    /// Make the page at `slot` the current page.
    SelectPage { slot: usize },
    /// Set the label of every tab again (see `label_at`).
    Relabel,
    /// Show or hide the strip of tabs.
    ShowTabs { show: bool },
    /// Give the keyboard focus to the terminal of session `id`.
    Focus { id: u64 },
    /// Toggle the visibility of the window.
    ToggleWindow,
    /// Close the window.
    CloseWindow,
    /// Apply the font scale (in percent) to the terminal of session `id`.
    SetFontScale { id: u64, scale: u32 },
    /// Apply the background alpha to the terminal of session `id`.
    SetBackground { id: u64, alpha: u8 },
    /// Copy the selection of the terminal of session `id`.
    Copy { id: u64 },
    /// Paste the clipboard into the terminal of session `id`.
    Paste { id: u64 },
    /// Tell the operator that the operation was skipped.
    Report { problem: Problem },
}

/// The process-wide state: configuration, sessions and shared settings.
pub struct ZohaCtx {
    pub cfg: ZohaCfg,
    pub terminals: SessionRegistry,
    /// Slot of the current page; 0 while no tab is open.
    pub current: usize,
    /// Tab number that the next session gets.
    pub next_counter: u64,
    /// Font scale of every session, in percent.
    pub font_scale: u32,
    pub transparency_enabled: bool,
    pub fullscreen: bool,
    pub has_window: bool,
    pub has_notebook: bool,
}

/// The mathematical model of the state, without the configuration.
pub struct CtxModel {
    pub slots: Seq<ZohaTerminal>,
    pub current: int,
    pub next_counter: int,
    pub font_scale: int,
    pub transparency_enabled: bool,
    pub fullscreen: bool,
    pub has_window: bool,
    pub has_notebook: bool,
}

impl View for ZohaCtx {
    type V = CtxModel;

    open spec fn view(&self) -> CtxModel {
        CtxModel {
            slots: self.terminals@,
            current: self.current as int,
            next_counter: self.next_counter as int,
            font_scale: self.font_scale as int,
            transparency_enabled: self.transparency_enabled,
            fullscreen: self.fullscreen,
            has_window: self.has_window,
            has_notebook: self.has_notebook,
        }
    }
}

/// The state is consistent: the current slot is a tab (or 0 without tabs),
/// tab numbers are distinct and below the next one, and every session shows
/// the shared font scale and background alpha.
pub open spec fn ctx_wf(cfg: ZohaCfg, m: CtxModel) -> bool {
    &&& (m.slots.len() == 0 ==> m.current == 0)
    &&& (m.slots.len() > 0 ==> 0 <= m.current < m.slots.len())
    &&& 0 <= m.next_counter <= u64::MAX
    &&& FONT_SCALE_MIN <= m.font_scale <= FONT_SCALE_MAX
    &&& forall|i: int| 0 <= i < m.slots.len() ==> #[trigger] m.slots[i].tab_counter < m.next_counter
    &&& forall|i: int, j: int|
        0 <= i < m.slots.len() && 0 <= j < m.slots.len() && i != j ==> #[trigger] m.slots[i].tab_counter
            != #[trigger] m.slots[j].tab_counter
    &&& forall|i: int| 0 <= i < m.slots.len() ==> #[trigger] m.slots[i].font_scale == m.font_scale
    &&& forall|i: int|
        0 <= i < m.slots.len() ==> #[trigger] m.slots[i].bg_alpha == background_alpha(
            cfg.bg_alpha,
            m.transparency_enabled,
        )
}

impl ZohaCtx {
    pub open spec fn wf(&self) -> bool {
        ctx_wf(self.cfg, self@)
    }
}

pub open spec fn report(p: Problem) -> Seq<Action> {
    seq![Action::Report { problem: p }]
}

/// Number of the session on the current page.
pub open spec fn active_id(m: CtxModel) -> u64 {
    m.slots[m.current].tab_counter
}

/// Slot of the session numbered `id`, if it is open.
pub open spec fn slot_spec(s: Seq<ZohaTerminal>, id: u64) -> Option<int> {
    if exists|k: int| 0 <= k < s.len() && s[k].tab_counter == id {
        Some(choose|k: int| 0 <= k < s.len() && s[k].tab_counter == id)
    } else {
        None
    }
}

/// Showing the strip of tabs follows the count of tabs in automatic mode.
pub open spec fn tab_bar_actions(mode: TabMode, count: int) -> Seq<Action> {
    if mode == TabMode::Auto {
        seq![Action::ShowTabs { show: count >= 2 }]
    } else {
        seq![]
    }
}

/// Focus goes to the current page, when there is one.
pub open spec fn focus_actions(m: CtxModel) -> Seq<Action> {
    if m.slots.len() > 0 {
        seq![Action::Focus { id: active_id(m) }]
    } else {
        seq![]
    }
}

/// Opening a tab: the new session lands right after the current page (at 0
/// without tabs) and becomes current; it inherits the working directory of
/// the session that was current.
pub open spec fn add_tab_spec(cfg: ZohaCfg, m: CtxModel, grab_focus: bool) -> (CtxModel, Seq<Action>) {
    if !m.has_notebook {
        (m, report(Problem::MissingNotebook))
    } else if m.next_counter >= u64::MAX {
        (m, report(Problem::CounterExhausted))
    } else {
        let n = m.slots.len() as int;
        let slot = if n == 0 { 0 } else { m.current + 1 };
        let inherit_from = if n == 0 { None } else { Some(active_id(m)) };
        let t = ZohaTerminal {
            tab_counter: m.next_counter as u64,
            pid: None,
            font_scale: m.font_scale as u32,
            bg_alpha: background_alpha(cfg.bg_alpha, m.transparency_enabled),
        };
        let m2 = CtxModel {
            slots: m.slots.insert(slot, t),
            current: slot,
            next_counter: m.next_counter + 1,
            ..m
        };
        (
            m2,
            seq![
                Action::Spawn {
                    id: m.next_counter as u64,
                    slot: slot as usize,
                    grab_focus,
                    inherit_from,
                },
            ] + tab_bar_actions(cfg.tab_mode, n + 1) + seq![Action::Relabel] + focus_actions(m2),
        )
    }
}

/// The current slot after the page at `page` was removed from `len` pages.
pub open spec fn current_after_remove(current: int, page: int, len: int) -> int {
    if current > page {
        current - 1
    } else if current < page {
        current
    } else if page + 1 < len {
        page
    } else if page > 0 {
        page - 1
    } else {
        0
    }
}

/// Renumbering after the page at `page` was removed: entries above shift down.
pub open spec fn on_page_removed_spec(m: CtxModel, page: int) -> (CtxModel, Seq<Action>) {
    if page < 0 || page >= m.slots.len() {
        (m, report(Problem::MissingSession))
    } else {
        (
            CtxModel {
                slots: m.slots.remove(page),
                current: current_after_remove(m.current, page, m.slots.len() as int),
                ..m
            },
            seq![Action::Relabel],
        )
    }
}

/// Tab strip visibility, then the policy for an empty notebook.
pub open spec fn adjust_tab_bar_spec(cfg: ZohaCfg, m: CtxModel) -> (CtxModel, Seq<Action>) {
    if !m.has_notebook {
        (m, report(Problem::MissingNotebook))
    } else if m.slots.len() > 0 {
        (m, tab_bar_actions(cfg.tab_mode, m.slots.len() as int))
    } else {
        let bar = tab_bar_actions(cfg.tab_mode, 0);
        match cfg.last_tab_exit_behavior {
            LastTabExitBehavior::RestartTerminal => {
                let (m2, a) = add_tab_spec(cfg, m, true);
                (m2, bar + a)
            },
            LastTabExitBehavior::RestartTerminalAndHide => {
                let (m2, a) = add_tab_spec(cfg, m, false);
                (m2, bar + a + seq![Action::ToggleWindow])
            },
            LastTabExitBehavior::Exit => {
                if m.has_window {
                    (m, bar + seq![Action::CloseWindow])
                } else {
                    (m, bar + report(Problem::MissingWindow))
                }
            },
        }
    }
}

/// Removing the page of session `id`, as when its child exits.
pub open spec fn remove_page_spec(cfg: ZohaCfg, m: CtxModel, id: u64) -> (CtxModel, Seq<Action>) {
    if !m.has_notebook {
        (m, report(Problem::MissingNotebook))
    } else {
        match slot_spec(m.slots, id) {
            None => (m, report(Problem::MissingSession)),
            Some(k) => {
                let (m1, a1) = on_page_removed_spec(m, k);
                let (m2, a2) = adjust_tab_bar_spec(cfg, m1);
                (m2, seq![Action::RemovePage { id }] + a1 + a2 + focus_actions(m2))
            },
        }
    }
}

/// Closing the current tab.
pub open spec fn close_tab_spec(cfg: ZohaCfg, m: CtxModel) -> (CtxModel, Seq<Action>) {
    if !m.has_notebook {
        (m, report(Problem::MissingNotebook))
    } else if m.slots.len() == 0 {
        (m, report(Problem::NoActivePage))
    } else {
        remove_page_spec(cfg, m, active_id(m))
    }
}

/// Slot that the current page moves to, wrapping at both ends.
pub open spec fn move_target(current: int, len: int, forward: bool) -> int {
    if forward {
        (current + 1) % len
    } else if current == 0 {
        len - 1
    } else {
        current - 1
    }
}

/// Moving the current page by one slot; it stays current.
pub open spec fn move_tab_spec(m: CtxModel, forward: bool) -> (CtxModel, Seq<Action>) {
    if !m.has_notebook {
        (m, report(Problem::MissingNotebook))
    } else if m.slots.len() == 0 {
        (m, seq![])
    } else {
        let to = move_target(m.current, m.slots.len() as int, forward);
        let m2 = CtxModel { slots: reorder_seq(m.slots, m.current, to), current: to, ..m };
        (
            m2,
            seq![Action::MovePage { id: active_id(m), slot: to as usize }, Action::Relabel]
                + focus_actions(m2),
        )
    }
}

/// A page dragged to `to`: the registry follows, and so does the current slot.
pub open spec fn on_page_reorder_spec(m: CtxModel, id: u64, to: int) -> (CtxModel, Seq<Action>) {
    match slot_spec(m.slots, id) {
        None => (m, report(Problem::MissingSession)),
        Some(from) => {
            if to < 0 || to >= m.slots.len() {
                (m, report(Problem::MissingSession))
            } else if from == to {
                (m, seq![])
            } else {
                (
                    CtxModel {
                        slots: reorder_seq(m.slots, from, to),
                        current: reorder_slot(m.current, from, to),
                        ..m
                    },
                    seq![Action::Relabel],
                )
            }
        },
    }
}

/// Making `to` the current page.
pub open spec fn select_spec(m: CtxModel, to: int) -> (CtxModel, Seq<Action>) {
    let m2 = CtxModel { current: to, ..m };
    (m2, seq![Action::SelectPage { slot: to as usize }] + focus_actions(m2))
}

pub open spec fn goto_next_spec(cfg: ZohaCfg, m: CtxModel) -> (CtxModel, Seq<Action>) {
    if !m.has_notebook {
        (m, report(Problem::MissingNotebook))
    } else if m.slots.len() == 0 {
        (m, seq![])
    } else if m.current + 1 < m.slots.len() {
        select_spec(m, m.current + 1)
    } else if cfg.tab_scroll_wrap {
        select_spec(m, 0)
    } else {
        select_spec(m, m.current)
    }
}

pub open spec fn goto_previous_spec(cfg: ZohaCfg, m: CtxModel) -> (CtxModel, Seq<Action>) {
    if !m.has_notebook {
        (m, report(Problem::MissingNotebook))
    } else if m.slots.len() == 0 {
        (m, seq![])
    } else if m.current > 0 {
        select_spec(m, m.current - 1)
    } else if cfg.tab_scroll_wrap {
        select_spec(m, m.slots.len() - 1)
    } else {
        select_spec(m, 0)
    }
}

pub open spec fn goto_last_spec(m: CtxModel) -> (CtxModel, Seq<Action>) {
    if !m.has_notebook {
        (m, report(Problem::MissingNotebook))
    } else if m.slots.len() == 0 {
        (m, seq![])
    } else {
        select_spec(m, m.slots.len() - 1)
    }
}

/// Jumping to the 1-based tab `n`; out of range it does nothing.
pub open spec fn goto_n_spec(m: CtxModel, n: int) -> (CtxModel, Seq<Action>) {
    if !m.has_notebook {
        (m, report(Problem::MissingNotebook))
    } else if 1 <= n <= m.slots.len() {
        select_spec(m, n - 1)
    } else {
        (m, seq![])
    }
}

/// An action on the terminal of the current page.
pub open spec fn active_action_spec(m: CtxModel, act: Action) -> Seq<Action> {
    if !m.has_notebook {
        report(Problem::MissingNotebook)
    } else if m.slots.len() == 0 {
        report(Problem::NoActivePage)
    } else {
        seq![act]
    }
}

/// Every session shows `scale`; one action per session, in slot order.
pub open spec fn broadcast_font_spec(m: CtxModel, scale: int) -> (CtxModel, Seq<Action>) {
    (
        CtxModel {
            slots: Seq::new(
                m.slots.len(),
                |i: int| ZohaTerminal { font_scale: scale as u32, ..m.slots[i] },
            ),
            font_scale: scale,
            ..m
        },
        Seq::new(
            m.slots.len(),
            |i: int| Action::SetFontScale { id: m.slots[i].tab_counter, scale: scale as u32 },
        ),
    )
}

pub open spec fn font_inc_spec(m: CtxModel) -> (CtxModel, Seq<Action>) {
    broadcast_font_spec(
        m,
        if m.font_scale + FONT_SCALE_STEP > FONT_SCALE_MAX {
            FONT_SCALE_MAX as int
        } else {
            m.font_scale + FONT_SCALE_STEP
        },
    )
}

pub open spec fn font_dec_spec(m: CtxModel) -> (CtxModel, Seq<Action>) {
    broadcast_font_spec(
        m,
        if m.font_scale - FONT_SCALE_STEP < FONT_SCALE_MIN {
            FONT_SCALE_MIN as int
        } else {
            m.font_scale - FONT_SCALE_STEP
        },
    )
}

pub open spec fn font_reset_spec(m: CtxModel) -> (CtxModel, Seq<Action>) {
    broadcast_font_spec(m, FONT_SCALE_DEFAULT as int)
}

/// The transparency flag flips and every session shows the matching alpha.
pub open spec fn toggle_transparency_spec(cfg: ZohaCfg, m: CtxModel) -> (CtxModel, Seq<Action>) {
    let alpha = background_alpha(cfg.bg_alpha, !m.transparency_enabled);
    (
        CtxModel {
            slots: Seq::new(m.slots.len(), |i: int| ZohaTerminal { bg_alpha: alpha, ..m.slots[i] }),
            transparency_enabled: !m.transparency_enabled,
            ..m
        },
        Seq::new(
            m.slots.len(),
            |i: int| Action::SetBackground { id: m.slots[i].tab_counter, alpha },
        ),
    )
}


impl ZohaCtx {
    /// The state at startup: no window, no notebook, no tab.
    pub fn new(cfg: ZohaCfg) -> (r: Self)
        ensures
            r.wf(),
            r.cfg == cfg,
            r@.slots.len() == 0,
            r@.current == 0,
            r@.next_counter == 1,
            r@.font_scale == FONT_SCALE_DEFAULT,
            r@.transparency_enabled,
            r@.fullscreen == cfg.fullscreen,
            !r@.has_window,
            !r@.has_notebook,
    {
        let fullscreen = cfg.fullscreen;
        ZohaCtx {
            cfg,
            terminals: SessionRegistry::new(),
            current: 0,
            next_counter: 1,
            font_scale: FONT_SCALE_DEFAULT,
            transparency_enabled: true,
            fullscreen,
            has_window: false,
            has_notebook: false,
        }
    }

    /// Records that the window exists.
    pub fn set_window(&mut self)
        requires
            old(self).wf(),
        ensures
            final(self).wf(),
            final(self).cfg == old(self).cfg,
            final(self)@ == (CtxModel { has_window: true, ..old(self)@ }),
    {
        self.has_window = true;
    }

    /// Number of open tabs.
    pub fn count(&self) -> (r: usize)
        ensures
            r == self@.slots.len(),
    {
        self.terminals.len()
    }

    /// Process id of the child of session `id`, once known.
    pub fn pid_of(&self, id: u64) -> (r: Option<i32>)
        requires
            self.wf(),
        ensures
            r == (match slot_spec(self@.slots, id) {
                Some(k) => self@.slots[k].pid,
                None => None,
            }),
    {
        match self.terminals.slot_of(id) {
            Some(k) => {
                proof { lemma_slot_unique(self.cfg, self@, id, k as int); }
                self.terminals.terminals[k].pid
            },
            None => None,
        }
    }
}

/// With distinct tab numbers, the slot holding `id` is the one `slot_spec` picks.
pub proof fn lemma_slot_unique(cfg: ZohaCfg, m: CtxModel, id: u64, k: int)
    requires
        ctx_wf(cfg, m),
        0 <= k < m.slots.len(),
        m.slots[k].tab_counter == id,
    ensures
        slot_spec(m.slots, id) == Some(k),
{
    let c = choose|c: int| 0 <= c < m.slots.len() && m.slots[c].tab_counter == id;
    if c != k {
        assert(m.slots[c].tab_counter != m.slots[k].tab_counter);
    }
}

/// Creates the notebook; returns whether its strip of tabs starts shown.
pub fn create_notebook(ctx: &mut ZohaCtx) -> (r: bool)
    requires
        old(ctx).wf(),
    ensures
        final(ctx).wf(),
        final(ctx).cfg == old(ctx).cfg,
        final(ctx)@ == (CtxModel { has_notebook: true, ..old(ctx)@ }),
        r == (old(ctx).cfg.tab_mode == TabMode::Always),
{
    ctx.has_notebook = true;
    match ctx.cfg.tab_mode {
        TabMode::Always => true,
        TabMode::Auto => false,
        TabMode::Never => false,
    }
}

fn report_only(p: Problem) -> (r: Vec<Action>)
    ensures
        r@ == report(p),
{
    let mut out: Vec<Action> = Vec::new();
    out.push(Action::Report { problem: p });
    proof { assert(out@ =~= report(p)); }
    out
}

/// Focus for the terminal of the current page.
pub fn set_focus(ctx: &ZohaCtx) -> (r: Vec<Action>)
    requires
        ctx.wf(),
    ensures
        r@ == focus_actions(ctx@),
{
    let mut out: Vec<Action> = Vec::new();
    if ctx.terminals.len() > 0 {
        out.push(Action::Focus { id: ctx.terminals.terminals[ctx.current].tab_counter });
    }
    proof { assert(out@ =~= focus_actions(ctx@)); }
    out
}

fn push_tab_bar(mode: TabMode, count: usize, out: &mut Vec<Action>)
    ensures
        final(out)@ == old(out)@ + tab_bar_actions(mode, count as int),
{
    match mode {
        TabMode::Auto => out.push(Action::ShowTabs { show: count >= 2 }),
        _ => {},
    }
    proof { assert(out@ =~= old(out)@ + tab_bar_actions(mode, count as int)); }
}

/// Opens a new tab after the current one and makes it current.
pub fn add_tab(ctx: &mut ZohaCtx, grab_focus: bool) -> (r: Vec<Action>)
    requires
        old(ctx).wf(),
    ensures
        final(ctx).wf(),
        final(ctx).cfg == old(ctx).cfg,
        (final(ctx)@, r@) == add_tab_spec(old(ctx).cfg, old(ctx)@, grab_focus),
{
    if !ctx.has_notebook {
        return report_only(Problem::MissingNotebook);
    }
    if ctx.next_counter == u64::MAX {
        return report_only(Problem::CounterExhausted);
    }
    let n = ctx.terminals.len();
    let slot: usize;
    let inherit_from: Option<u64>;
    if n == 0 {
        slot = 0;
        inherit_from = None;
    } else {
        slot = ctx.current + 1;
        inherit_from = Some(ctx.terminals.terminals[ctx.current].tab_counter);
    }
    let id = ctx.next_counter;
    let alpha = bg_alpha_for(&ctx.cfg, ctx.transparency_enabled);
    let t = ZohaTerminal::new(id, ctx.font_scale, alpha);
    ctx.terminals.insert(slot, t);
    ctx.current = slot;
    ctx.next_counter = id + 1;
    let mut out: Vec<Action> = Vec::new();
    out.push(Action::Spawn { id, slot, grab_focus, inherit_from });
    push_tab_bar(ctx.cfg.tab_mode, ctx.terminals.len(), &mut out);
    out.push(Action::Relabel);
    proof {
        let m = ctx@;
        assert forall|i: int, j: int|
            0 <= i < m.slots.len() && 0 <= j < m.slots.len() && i != j implies #[trigger] m.slots[i].tab_counter
                != #[trigger] m.slots[j].tab_counter by {
            if i != slot && j != slot {
                let oi = if i < slot { i } else { i - 1 };
                let oj = if j < slot { j } else { j - 1 };
                assert(m.slots[i] == old(ctx)@.slots[oi]);
                assert(m.slots[j] == old(ctx)@.slots[oj]);
            } else if i != slot {
                let oi = if i < slot { i } else { i - 1 };
                assert(m.slots[i] == old(ctx)@.slots[oi]);
            } else {
                let oj = if j < slot { j } else { j - 1 };
                assert(m.slots[j] == old(ctx)@.slots[oj]);
            }
        }
        assert forall|i: int| 0 <= i < m.slots.len() implies #[trigger] m.slots[i].tab_counter < m.next_counter
            && m.slots[i].font_scale == m.font_scale
            && m.slots[i].bg_alpha == background_alpha(ctx.cfg.bg_alpha, m.transparency_enabled) by {
            if i != slot {
                let oi = if i < slot { i } else { i - 1 };
                assert(m.slots[i] == old(ctx)@.slots[oi]);
            }
        }
    }
    let mut f = set_focus(ctx);
    out.append(&mut f);
    proof {
        let (m2, a) = add_tab_spec(old(ctx).cfg, old(ctx)@, grab_focus);
        assert(ctx@.slots =~= m2.slots);
        assert(out@ =~= a);
    }
    out
}

/// Renumbers the registry after the page at `page` was removed: entries
/// above it shift down by one, the current slot follows.
pub fn on_page_removed(ctx: &mut ZohaCtx, page: usize) -> (r: Vec<Action>)
    requires
        old(ctx).wf(),
    ensures
        final(ctx).wf(),
        final(ctx).cfg == old(ctx).cfg,
        (final(ctx)@, r@) == on_page_removed_spec(old(ctx)@, page as int),
{
    let n = ctx.terminals.len();
    if page >= n {
        return report_only(Problem::MissingSession);
    }
    ctx.terminals.remove(page);
    if ctx.current > page {
        ctx.current = ctx.current - 1;
    } else if ctx.current == page && page + 1 >= n {
        if page > 0 {
            ctx.current = page - 1;
        } else {
            ctx.current = 0;
        }
    }
    proof {
        let m = ctx@;
        let o = old(ctx)@;
        assert forall|i: int, j: int|
            0 <= i < m.slots.len() && 0 <= j < m.slots.len() && i != j implies #[trigger] m.slots[i].tab_counter
                != #[trigger] m.slots[j].tab_counter by {
            let oi = if i < page { i } else { i + 1 };
            let oj = if j < page { j } else { j + 1 };
            assert(m.slots[i] == o.slots[oi]);
            assert(m.slots[j] == o.slots[oj]);
        }
        assert forall|i: int| 0 <= i < m.slots.len() implies #[trigger] m.slots[i].tab_counter < m.next_counter
            && m.slots[i].font_scale == m.font_scale
            && m.slots[i].bg_alpha == background_alpha(ctx.cfg.bg_alpha, m.transparency_enabled) by {
            let oi = if i < page { i } else { i + 1 };
            assert(m.slots[i] == o.slots[oi]);
        }
    }
    let mut out: Vec<Action> = Vec::new();
    out.push(Action::Relabel);
    proof { assert(out@ =~= seq![Action::Relabel]); }
    out
}

/// Shows or hides the strip of tabs, and applies the configured policy
/// when no tab is left.
pub fn adjust_tab_bar(ctx: &mut ZohaCtx) -> (r: Vec<Action>)
    requires
        old(ctx).wf(),
    ensures
        final(ctx).wf(),
        final(ctx).cfg == old(ctx).cfg,
        (final(ctx)@, r@) == adjust_tab_bar_spec(old(ctx).cfg, old(ctx)@),
{
    if !ctx.has_notebook {
        return report_only(Problem::MissingNotebook);
    }
    let n = ctx.terminals.len();
    let mut out: Vec<Action> = Vec::new();
    push_tab_bar(ctx.cfg.tab_mode, n, &mut out);
    if n == 0 {
        match ctx.cfg.last_tab_exit_behavior {
            LastTabExitBehavior::RestartTerminal => {
                let mut a = add_tab(ctx, true);
                out.append(&mut a);
            },
            LastTabExitBehavior::RestartTerminalAndHide => {
                let mut a = add_tab(ctx, false);
                out.append(&mut a);
                out.push(Action::ToggleWindow);
            },
            LastTabExitBehavior::Exit => {
                if ctx.has_window {
                    out.push(Action::CloseWindow);
                } else {
                    out.push(Action::Report { problem: Problem::MissingWindow });
                }
            },
        }
    }
    proof {
        let (m2, a) = adjust_tab_bar_spec(old(ctx).cfg, old(ctx)@);
        assert(out@ =~= a);
    }
    out
}

/// Removes the page of session `id`, as when its child process exits.
pub fn remove_page_by_id(ctx: &mut ZohaCtx, id: u64) -> (r: Vec<Action>)
    requires
        old(ctx).wf(),
    ensures
        final(ctx).wf(),
        final(ctx).cfg == old(ctx).cfg,
        (final(ctx)@, r@) == remove_page_spec(old(ctx).cfg, old(ctx)@, id),
{
    if !ctx.has_notebook {
        return report_only(Problem::MissingNotebook);
    }
    let k = match ctx.terminals.slot_of(id) {
        Some(k) => k,
        None => {
            return report_only(Problem::MissingSession);
        },
    };
    proof { lemma_slot_unique(ctx.cfg, ctx@, id, k as int); }
    let ghost m0 = ctx@;
    let mut out: Vec<Action> = Vec::new();
    out.push(Action::RemovePage { id });
    let mut a1 = on_page_removed(ctx, k);
    out.append(&mut a1);
    let ghost m1 = ctx@;
    let mut a2 = adjust_tab_bar(ctx);
    out.append(&mut a2);
    let mut f = set_focus(ctx);
    out.append(&mut f);
    proof {
        let (s1, b1) = on_page_removed_spec(m0, k as int);
        let (s2, b2) = adjust_tab_bar_spec(ctx.cfg, s1);
        assert(out@ =~= seq![Action::RemovePage { id }] + b1 + b2 + focus_actions(s2));
    }
    out
}

/// Closes the current tab.
pub fn close_tab(ctx: &mut ZohaCtx) -> (r: Vec<Action>)
    requires
        old(ctx).wf(),
    ensures
        final(ctx).wf(),
        final(ctx).cfg == old(ctx).cfg,
        (final(ctx)@, r@) == close_tab_spec(old(ctx).cfg, old(ctx)@),
{
    if !ctx.has_notebook {
        return report_only(Problem::MissingNotebook);
    }
    if ctx.terminals.len() == 0 {
        return report_only(Problem::NoActivePage);
    }
    let id = ctx.terminals.terminals[ctx.current].tab_counter;
    remove_page_by_id(ctx, id)
}

/// Moving entries of a consistent state keeps it consistent.
proof fn lemma_wf_reorder(cfg: ZohaCfg, m: CtxModel, from: int, to: int, current: int)
    requires
        ctx_wf(cfg, m),
        0 <= from < m.slots.len(),
        0 <= to < m.slots.len(),
        0 <= current < m.slots.len(),
    ensures
        ctx_wf(cfg, CtxModel { slots: reorder_seq(m.slots, from, to), current, ..m }),
{
    lemma_reorder_inverse(m.slots, from, to);
    let r = reorder_seq(m.slots, from, to);
    assert forall|i: int, j: int|
        0 <= i < r.len() && 0 <= j < r.len() && i != j implies #[trigger] r[i].tab_counter
            != #[trigger] r[j].tab_counter by {
        assert(r[i] == m.slots[reorder_slot(i, to, from)]);
        assert(r[j] == m.slots[reorder_slot(j, to, from)]);
    }
    assert forall|i: int| 0 <= i < r.len() implies #[trigger] r[i].tab_counter < m.next_counter
        && r[i].font_scale == m.font_scale
        && r[i].bg_alpha == background_alpha(cfg.bg_alpha, m.transparency_enabled) by {
        assert(r[i] == m.slots[reorder_slot(i, to, from)]);
    }
}

/// Moves the current page by one slot, wrapping at both ends.
pub fn move_tab(ctx: &mut ZohaCtx, forward: bool) -> (r: Vec<Action>)
    requires
        old(ctx).wf(),
    ensures
        final(ctx).wf(),
        final(ctx).cfg == old(ctx).cfg,
        (final(ctx)@, r@) == move_tab_spec(old(ctx)@, forward),
{
    if !ctx.has_notebook {
        return report_only(Problem::MissingNotebook);
    }
    let n = ctx.terminals.len();
    if n == 0 {
        return Vec::new();
    }
    let from = ctx.current;
    let id = ctx.terminals.terminals[from].tab_counter;
    let to: usize = if forward {
        (from + 1) % n
    } else if from == 0 {
        n - 1
    } else {
        from - 1
    };
    proof { lemma_wf_reorder(ctx.cfg, ctx@, from as int, to as int, to as int); }
    ctx.terminals.reorder(from, to);
    ctx.current = to;
    let mut out: Vec<Action> = Vec::new();
    out.push(Action::MovePage { id, slot: to });
    out.push(Action::Relabel);
    let mut f = set_focus(ctx);
    out.append(&mut f);
    proof {
        let (m2, a) = move_tab_spec(old(ctx)@, forward);
        assert(out@ =~= a);
    }
    out
}

/// Moves the current page one slot back, from the first to the last.
pub fn move_backward(ctx: &mut ZohaCtx) -> (r: Vec<Action>)
    requires
        old(ctx).wf(),
    ensures
        final(ctx).wf(),
        final(ctx).cfg == old(ctx).cfg,
        (final(ctx)@, r@) == move_tab_spec(old(ctx)@, false),
{
    move_tab(ctx, false)
}

/// Moves the current page one slot on, from the last to the first.
pub fn move_forward(ctx: &mut ZohaCtx) -> (r: Vec<Action>)
    requires
        old(ctx).wf(),
    ensures
        final(ctx).wf(),
        final(ctx).cfg == old(ctx).cfg,
        (final(ctx)@, r@) == move_tab_spec(old(ctx)@, true),
{
    move_tab(ctx, true)
}

/// Follows a page of session `id` that was dragged to slot `to`.
pub fn on_page_reorder(ctx: &mut ZohaCtx, id: u64, to: usize) -> (r: Vec<Action>)
    requires
        old(ctx).wf(),
    ensures
        final(ctx).wf(),
        final(ctx).cfg == old(ctx).cfg,
        (final(ctx)@, r@) == on_page_reorder_spec(old(ctx)@, id, to as int),
{
    let from = match ctx.terminals.slot_of(id) {
        Some(k) => k,
        None => {
            return report_only(Problem::MissingSession);
        },
    };
    proof { lemma_slot_unique(ctx.cfg, ctx@, id, from as int); }
    let n = ctx.terminals.len();
    if to >= n {
        return report_only(Problem::MissingSession);
    }
    if from == to {
        return Vec::new();
    }
    let cur = ctx.current;
    let new_cur: usize = if cur == from {
        to
    } else if from < cur && cur <= to {
        cur - 1
    } else if to <= cur && cur < from {
        cur + 1
    } else {
        cur
    };
    proof { lemma_wf_reorder(ctx.cfg, ctx@, from as int, to as int, new_cur as int); }
    ctx.terminals.reorder(from, to);
    ctx.current = new_cur;
    let mut out: Vec<Action> = Vec::new();
    out.push(Action::Relabel);
    proof { assert(out@ =~= seq![Action::Relabel]); }
    out
}

/// Follows the user selecting the page at `page`.
pub fn on_page_switched(ctx: &mut ZohaCtx, page: usize)
    requires
        old(ctx).wf(),
    ensures
        final(ctx).wf(),
        final(ctx).cfg == old(ctx).cfg,
        final(ctx)@ == (if page < old(ctx)@.slots.len() {
            CtxModel { current: page as int, ..old(ctx)@ }
        } else {
            old(ctx)@
        }),
{
    if page < ctx.terminals.len() {
        ctx.current = page;
    }
}

fn select(ctx: &mut ZohaCtx, to: usize) -> (r: Vec<Action>)
    requires
        old(ctx).wf(),
        to < old(ctx)@.slots.len(),
    ensures
        final(ctx).wf(),
        final(ctx).cfg == old(ctx).cfg,
        (final(ctx)@, r@) == select_spec(old(ctx)@, to as int),
{
    ctx.current = to;
    let mut out: Vec<Action> = Vec::new();
    out.push(Action::SelectPage { slot: to });
    let mut f = set_focus(ctx);
    out.append(&mut f);
    proof {
        let (m2, a) = select_spec(old(ctx)@, to as int);
        assert(out@ =~= a);
    }
    out
}

/// Selects the next page; past the last one it wraps only when configured to.
pub fn goto_next(ctx: &mut ZohaCtx) -> (r: Vec<Action>)
    requires
        old(ctx).wf(),
    ensures
        final(ctx).wf(),
        final(ctx).cfg == old(ctx).cfg,
        (final(ctx)@, r@) == goto_next_spec(old(ctx).cfg, old(ctx)@),
{
    if !ctx.has_notebook {
        return report_only(Problem::MissingNotebook);
    }
    let n = ctx.terminals.len();
    if n == 0 {
        return Vec::new();
    }
    if ctx.current + 1 < n {
        select(ctx, ctx.current + 1)
    } else if ctx.cfg.tab_scroll_wrap {
        select(ctx, 0)
    } else {
        select(ctx, ctx.current)
    }
}

/// Selects the previous page; before the first one it wraps only when configured to.
pub fn goto_previous(ctx: &mut ZohaCtx) -> (r: Vec<Action>)
    requires
        old(ctx).wf(),
    ensures
        final(ctx).wf(),
        final(ctx).cfg == old(ctx).cfg,
        (final(ctx)@, r@) == goto_previous_spec(old(ctx).cfg, old(ctx)@),
{
    if !ctx.has_notebook {
        return report_only(Problem::MissingNotebook);
    }
    let n = ctx.terminals.len();
    if n == 0 {
        return Vec::new();
    }
    if ctx.current > 0 {
        select(ctx, ctx.current - 1)
    } else if ctx.cfg.tab_scroll_wrap {
        select(ctx, n - 1)
    } else {
        select(ctx, 0)
    }
}

/// Selects the last page.
pub fn goto_last(ctx: &mut ZohaCtx) -> (r: Vec<Action>)
    requires
        old(ctx).wf(),
    ensures
        final(ctx).wf(),
        final(ctx).cfg == old(ctx).cfg,
        (final(ctx)@, r@) == goto_last_spec(old(ctx)@),
{
    if !ctx.has_notebook {
        return report_only(Problem::MissingNotebook);
    }
    let n = ctx.terminals.len();
    if n == 0 {
        return Vec::new();
    }
    select(ctx, n - 1)
}

/// Selects the 1-based tab `n`; out of range it does nothing.
pub fn goto_n(ctx: &mut ZohaCtx, n: usize) -> (r: Vec<Action>)
    requires
        old(ctx).wf(),
    ensures
        final(ctx).wf(),
        final(ctx).cfg == old(ctx).cfg,
        (final(ctx)@, r@) == goto_n_spec(old(ctx)@, n as int),
{
    if !ctx.has_notebook {
        return report_only(Problem::MissingNotebook);
    }
    if 1 <= n && n <= ctx.terminals.len() {
        select(ctx, n - 1)
    } else {
        Vec::new()
    }
}

fn active_action(ctx: &ZohaCtx, copy: bool) -> (r: Vec<Action>)
    requires
        ctx.wf(),
    ensures
        r@ == active_action_spec(
            ctx@,
            if copy {
                Action::Copy { id: active_id(ctx@) }
            } else {
                Action::Paste { id: active_id(ctx@) }
            },
        ),
{
    if !ctx.has_notebook {
        return report_only(Problem::MissingNotebook);
    }
    if ctx.terminals.len() == 0 {
        return report_only(Problem::NoActivePage);
    }
    let id = ctx.terminals.terminals[ctx.current].tab_counter;
    let mut out: Vec<Action> = Vec::new();
    if copy {
        out.push(Action::Copy { id });
    } else {
        out.push(Action::Paste { id });
    }
    proof { assert(out@ =~= seq![out@[0]]); }
    out
}

/// Copies the selection of the terminal of the current page.
pub fn copy(ctx: &ZohaCtx) -> (r: Vec<Action>)
    requires
        ctx.wf(),
    ensures
        r@ == active_action_spec(ctx@, Action::Copy { id: active_id(ctx@) }),
{
    active_action(ctx, true)
}

/// Pastes the clipboard into the terminal of the current page.
pub fn paste(ctx: &ZohaCtx) -> (r: Vec<Action>)
    requires
        ctx.wf(),
    ensures
        r@ == active_action_spec(ctx@, Action::Paste { id: active_id(ctx@) }),
{
    active_action(ctx, false)
}

/// Sets the shared font scale and applies it to every session, in slot order.
fn broadcast_font_size(ctx: &mut ZohaCtx, scale: u32) -> (r: Vec<Action>)
    requires
        old(ctx).wf(),
        FONT_SCALE_MIN <= scale <= FONT_SCALE_MAX,
    ensures
        final(ctx).wf(),
        final(ctx).cfg == old(ctx).cfg,
        (final(ctx)@, r@) == broadcast_font_spec(old(ctx)@, scale as int),
{
    ctx.font_scale = scale;
    let n = ctx.terminals.len();
    let mut out: Vec<Action> = Vec::new();
    let mut i: usize = 0;
    while i < n
        invariant
            n == old(ctx)@.slots.len(),
            ctx.terminals@.len() == n,
            ctx.cfg == old(ctx).cfg,
            ctx@ == (CtxModel { slots: ctx@.slots, font_scale: scale as int, ..old(ctx)@ }),
            i <= n,
            forall|j: int|
                0 <= j < i ==> #[trigger] ctx@.slots[j] == (ZohaTerminal {
                    font_scale: scale,
                    ..old(ctx)@.slots[j]
                }),
            forall|j: int| i <= j < n ==> #[trigger] ctx@.slots[j] == old(ctx)@.slots[j],
            out@ == Seq::new(
                i as nat,
                |j: int| Action::SetFontScale { id: old(ctx)@.slots[j].tab_counter, scale },
            ),
        decreases n - i,
    {
        let mut t = ctx.terminals.terminals[i];
        t.enforce_font_size(scale);
        ctx.terminals.terminals[i] = t;
        out.push(Action::SetFontScale { id: t.tab_counter, scale });
        proof {
            assert(out@ =~= Seq::new(
                (i + 1) as nat,
                |j: int| Action::SetFontScale { id: old(ctx)@.slots[j].tab_counter, scale },
            ));
        }
        i = i + 1;
    }
    proof {
        let (m2, a) = broadcast_font_spec(old(ctx)@, scale as int);
        assert(ctx@.slots =~= m2.slots);
        assert(out@ =~= a);
        let m = ctx@;
        let o = old(ctx)@;
        assert forall|i: int, j: int|
            0 <= i < m.slots.len() && 0 <= j < m.slots.len() && i != j implies #[trigger] m.slots[i].tab_counter
                != #[trigger] m.slots[j].tab_counter by {
            assert(m.slots[i].tab_counter == o.slots[i].tab_counter);
            assert(m.slots[j].tab_counter == o.slots[j].tab_counter);
        }
    }
    out
}

/// Enlarges the font of every session by one step, up to the largest scale.
pub fn font_inc(ctx: &mut ZohaCtx) -> (r: Vec<Action>)
    requires
        old(ctx).wf(),
    ensures
        final(ctx).wf(),
        final(ctx).cfg == old(ctx).cfg,
        (final(ctx)@, r@) == font_inc_spec(old(ctx)@),
{
    let scale = if ctx.font_scale > FONT_SCALE_MAX - FONT_SCALE_STEP {
        FONT_SCALE_MAX
    } else {
        ctx.font_scale + FONT_SCALE_STEP
    };
    broadcast_font_size(ctx, scale)
}

/// Shrinks the font of every session by one step, down to the smallest scale.
pub fn font_dec(ctx: &mut ZohaCtx) -> (r: Vec<Action>)
    requires
        old(ctx).wf(),
    ensures
        final(ctx).wf(),
        final(ctx).cfg == old(ctx).cfg,
        (final(ctx)@, r@) == font_dec_spec(old(ctx)@),
{
    let scale = if ctx.font_scale < FONT_SCALE_MIN + FONT_SCALE_STEP {
        FONT_SCALE_MIN
    } else {
        ctx.font_scale - FONT_SCALE_STEP
    };
    broadcast_font_size(ctx, scale)
}

/// Puts the font of every session back to the default scale.
pub fn font_reset(ctx: &mut ZohaCtx) -> (r: Vec<Action>)
    requires
        old(ctx).wf(),
    ensures
        final(ctx).wf(),
        final(ctx).cfg == old(ctx).cfg,
        (final(ctx)@, r@) == font_reset_spec(old(ctx)@),
{
    broadcast_font_size(ctx, FONT_SCALE_DEFAULT)
}

/// Flips transparency and applies the matching background alpha to every
/// session, in slot order.
pub fn toggle_transparency(ctx: &mut ZohaCtx) -> (r: Vec<Action>)
    requires
        old(ctx).wf(),
    ensures
        final(ctx).wf(),
        final(ctx).cfg == old(ctx).cfg,
        (final(ctx)@, r@) == toggle_transparency_spec(old(ctx).cfg, old(ctx)@),
{
    let enabled = !ctx.transparency_enabled;
    ctx.transparency_enabled = enabled;
    let alpha = bg_alpha_for(&ctx.cfg, enabled);
    let n = ctx.terminals.len();
    let mut out: Vec<Action> = Vec::new();
    let mut i: usize = 0;
    while i < n
        invariant
            n == old(ctx)@.slots.len(),
            ctx.terminals@.len() == n,
            ctx.cfg == old(ctx).cfg,
            alpha == background_alpha(ctx.cfg.bg_alpha, enabled),
            enabled == !old(ctx)@.transparency_enabled,
            ctx@ == (CtxModel { slots: ctx@.slots, transparency_enabled: enabled, ..old(ctx)@ }),
            i <= n,
            forall|j: int|
                0 <= j < i ==> #[trigger] ctx@.slots[j] == (ZohaTerminal {
                    bg_alpha: alpha,
                    ..old(ctx)@.slots[j]
                }),
            forall|j: int| i <= j < n ==> #[trigger] ctx@.slots[j] == old(ctx)@.slots[j],
            out@ == Seq::new(
                i as nat,
                |j: int| Action::SetBackground { id: old(ctx)@.slots[j].tab_counter, alpha },
            ),
        decreases n - i,
    {
        let mut t = ctx.terminals.terminals[i];
        t.enforce_transparency(alpha);
        ctx.terminals.terminals[i] = t;
        out.push(Action::SetBackground { id: t.tab_counter, alpha });
        proof {
            assert(out@ =~= Seq::new(
                (i + 1) as nat,
                |j: int| Action::SetBackground { id: old(ctx)@.slots[j].tab_counter, alpha },
            ));
        }
        i = i + 1;
    }
    proof {
        let (m2, a) = toggle_transparency_spec(old(ctx).cfg, old(ctx)@);
        assert(ctx@.slots =~= m2.slots);
        assert(out@ =~= a);
        let m = ctx@;
        let o = old(ctx)@;
        assert forall|i: int, j: int|
            0 <= i < m.slots.len() && 0 <= j < m.slots.len() && i != j implies #[trigger] m.slots[i].tab_counter
                != #[trigger] m.slots[j].tab_counter by {
            assert(m.slots[i].tab_counter == o.slots[i].tab_counter);
            assert(m.slots[j].tab_counter == o.slots[j].tab_counter);
        }
    }
    out
}

/// Records the process id of the child of session `id` once its spawn has completed.
pub fn on_spawned(ctx: &mut ZohaCtx, id: u64, pid: i32) -> (r: Vec<Action>)
    requires
        old(ctx).wf(),
    ensures
        final(ctx).wf(),
        final(ctx).cfg == old(ctx).cfg,
        match slot_spec(old(ctx)@.slots, id) {
            None => final(ctx)@ == old(ctx)@ && r@ == report(Problem::MissingSession),
            Some(k) => final(ctx)@ == (CtxModel {
                slots: old(ctx)@.slots.update(k, ZohaTerminal { pid: Some(pid), ..old(ctx)@.slots[k] }),
                ..old(ctx)@
            }) && r@.len() == 0,
        },
{
    let k = match ctx.terminals.slot_of(id) {
        Some(k) => k,
        None => {
            return report_only(Problem::MissingSession);
        },
    };
    proof { lemma_slot_unique(ctx.cfg, ctx@, id, k as int); }
    let mut t = ctx.terminals.terminals[k];
    t.pid = Some(pid);
    ctx.terminals.terminals[k] = t;
    proof {
        let m = ctx@;
        let o = old(ctx)@;
        assert forall|i: int, j: int|
            0 <= i < m.slots.len() && 0 <= j < m.slots.len() && i != j implies #[trigger] m.slots[i].tab_counter
                != #[trigger] m.slots[j].tab_counter by {
            assert(m.slots[i].tab_counter == o.slots[i].tab_counter);
            assert(m.slots[j].tab_counter == o.slots[j].tab_counter);
        }
        assert forall|i: int| 0 <= i < m.slots.len() implies #[trigger] m.slots[i].tab_counter < m.next_counter
            && m.slots[i].font_scale == m.font_scale
            && m.slots[i].bg_alpha == background_alpha(ctx.cfg.bg_alpha, m.transparency_enabled) by {
            assert(m.slots[i].tab_counter == o.slots[i].tab_counter);
        }
    }
    Vec::new()
}

/// The label of the tab at `slot`, given the working directory of its child.
pub fn label_at(ctx: &ZohaCtx, slot: usize, cwd: Option<&str>) -> (r: Option<String>)
    ensures
        slot >= ctx@.slots.len() ==> r is None,
        slot < ctx@.slots.len() ==> (r matches Some(t) && t@ == label_text(
            slot as nat + 1,
            ctx@.slots[slot as int].tab_counter as nat,
            match cwd {
                None => None,
                Some(c) => Some(c@),
            },
            ctx.cfg.tab_title_num_characters,
        )),
{
    if slot >= ctx.terminals.len() {
        return None;
    }
    let counter = ctx.terminals.terminals[slot].tab_counter;
    Some(tab_label(slot as u64 + 1, counter, cwd, ctx.cfg.tab_title_num_characters))
}

} // verus!
