use vstd::prelude::*;

use crate::config::background_alpha;
use crate::config::LastTabExitBehavior;
use crate::config::ZohaCfg;
use crate::registry::lemma_reorder_shifts;
use crate::registry::reorder_slot;
use crate::terminal::ZohaTerminal;
use crate::window::active_id;
use crate::window::add_tab_spec;
use crate::window::close_tab_spec;
use crate::window::ctx_wf;
use crate::window::goto_n_spec;
use crate::window::lemma_slot_unique;
use crate::window::on_page_reorder_spec;
use crate::window::tab_bar_actions;
use crate::window::toggle_transparency_spec;
use crate::window::Action;
use crate::window::CtxModel;

verus! {

/// Opening a tab while slot `k` is current: slots up to `k` keep their
/// sessions, the new session sits at `k + 1` and becomes current, and every
/// session above `k` moves up by one.
pub proof fn lemma_add_tab_inserts_after_current(cfg: ZohaCfg, m: CtxModel, grab_focus: bool)
    requires
        ctx_wf(cfg, m),
        m.has_notebook,
        m.next_counter < u64::MAX,
        m.slots.len() > 0,
    ensures
        ({
            let (m2, _) = add_tab_spec(cfg, m, grab_focus);
            let k = m.current;
            &&& m2.slots.len() == m.slots.len() + 1
            &&& m2.current == k + 1
            &&& m2.slots[k + 1].tab_counter == m.next_counter
            &&& m2.slots[k + 1].pid is None
            &&& forall|j: int| 0 <= j <= k ==> #[trigger] m2.slots[j] == m.slots[j]
            &&& forall|j: int| k < j < m.slots.len() ==> #[trigger] m2.slots[j + 1] == m.slots[j]
        }),
{
}

/// Closing the current tab `k` while another stays open: slots below `k`
/// keep their sessions and every session above `k` moves down by one.
pub proof fn lemma_close_tab_removes_current(cfg: ZohaCfg, m: CtxModel)
    requires
        ctx_wf(cfg, m),
        m.has_notebook,
        m.slots.len() >= 2,
    ensures
        ({
            let (m2, _) = close_tab_spec(cfg, m);
            let k = m.current;
            &&& m2.slots.len() == m.slots.len() - 1
            &&& forall|j: int| 0 <= j < k ==> #[trigger] m2.slots[j] == m.slots[j]
            &&& forall|j: int| k < j < m.slots.len() ==> #[trigger] m2.slots[j - 1] == m.slots[j]
        }),
{
    lemma_slot_unique(cfg, m, active_id(m), m.current);
}

/// Dragging the page at `from` to `to`: the dragged session lands at `to`,
/// the sessions between shift by one towards `from`, the others stay.
pub proof fn lemma_reorder_moves_between(cfg: ZohaCfg, m: CtxModel, from: int, to: int)
    requires
        ctx_wf(cfg, m),
        0 <= from < m.slots.len(),
        0 <= to < m.slots.len(),
    ensures
        ({
            let (m2, _) = on_page_reorder_spec(m, m.slots[from].tab_counter, to);
            &&& m2.slots.len() == m.slots.len()
            &&& m2.slots[to] == m.slots[from]
            &&& forall|i: int|
                0 <= i < m.slots.len() ==> #[trigger] m2.slots[reorder_slot(i, from, to)] == m.slots[i]
        }),
{
    lemma_slot_unique(cfg, m, m.slots[from].tab_counter, from);
    lemma_reorder_shifts(m.slots, from, to);
    assert(reorder_slot(from, from, to) == to);
}

/// Closing the last tab when the policy restarts a terminal leaves exactly
/// one tab: a new session, current and focused, spawned once.
pub proof fn lemma_close_last_tab_restarts(cfg: ZohaCfg, m: CtxModel)
    requires
        ctx_wf(cfg, m),
        m.has_notebook,
        m.slots.len() == 1,
        m.next_counter < u64::MAX,
        cfg.last_tab_exit_behavior == LastTabExitBehavior::RestartTerminal,
    ensures
        ({
            let (m2, a) = close_tab_spec(cfg, m);
            let id = m.next_counter as u64;
            &&& m2.slots.len() == 1
            &&& m2.current == 0
            &&& m2.slots[0].tab_counter == id
            &&& a == seq![Action::RemovePage { id: m.slots[0].tab_counter }, Action::Relabel]
                + tab_bar_actions(cfg.tab_mode, 0) + seq![
                Action::Spawn { id, slot: 0, grab_focus: true, inherit_from: None },
            ] + tab_bar_actions(cfg.tab_mode, 1) + seq![
                Action::Relabel,
                Action::Focus { id },
                Action::Focus { id },
            ]
        }),
{
    lemma_slot_unique(cfg, m, active_id(m), 0);
    let (m2, a) = close_tab_spec(cfg, m);
    let id = m.next_counter as u64;
    assert(a =~= seq![Action::RemovePage { id: m.slots[0].tab_counter }, Action::Relabel]
        + tab_bar_actions(cfg.tab_mode, 0) + seq![
        Action::Spawn { id, slot: 0, grab_focus: true, inherit_from: None },
    ] + tab_bar_actions(cfg.tab_mode, 1) + seq![
        Action::Relabel,
        Action::Focus { id },
        Action::Focus { id },
    ]);
}

/// Closing the last tab when the policy exits, with the window present,
/// leaves no tab and asks once for the window to close.
pub proof fn lemma_close_last_tab_exits(cfg: ZohaCfg, m: CtxModel)
    requires
        ctx_wf(cfg, m),
        m.has_notebook,
        m.has_window,
        m.slots.len() == 1,
        cfg.last_tab_exit_behavior == LastTabExitBehavior::Exit,
    ensures
        ({
            let (m2, a) = close_tab_spec(cfg, m);
            &&& m2.slots.len() == 0
            &&& a == seq![Action::RemovePage { id: m.slots[0].tab_counter }, Action::Relabel]
                + tab_bar_actions(cfg.tab_mode, 0) + seq![Action::CloseWindow]
        }),
{
    lemma_slot_unique(cfg, m, active_id(m), 0);
    let (m2, a) = close_tab_spec(cfg, m);
    assert(a =~= seq![Action::RemovePage { id: m.slots[0].tab_counter }, Action::Relabel]
        + tab_bar_actions(cfg.tab_mode, 0) + seq![Action::CloseWindow]);
}

/// Toggling transparency twice gives back the same state, so every session
/// shows its original background alpha again.
pub proof fn lemma_toggle_transparency_twice(cfg: ZohaCfg, m: CtxModel)
    requires
        ctx_wf(cfg, m),
    ensures
        toggle_transparency_spec(cfg, toggle_transparency_spec(cfg, m).0).0 == m,
{
    let m1 = toggle_transparency_spec(cfg, m).0;
    let m2 = toggle_transparency_spec(cfg, m1).0;
    assert forall|i: int| 0 <= i < m.slots.len() implies #[trigger] m2.slots[i] == m.slots[i] by {
        assert(m1.slots[i] == ZohaTerminal {
            bg_alpha: background_alpha(cfg.bg_alpha, !m.transparency_enabled),
            ..m.slots[i]
        });
        assert(m2.slots[i].bg_alpha == background_alpha(cfg.bg_alpha, m.transparency_enabled));
        assert(m.slots[i].bg_alpha == background_alpha(cfg.bg_alpha, m.transparency_enabled));
    }
    assert(m2.slots =~= m.slots);
}

/// `goto_n` ignores 0 and any `n` past the last tab; `n` equal to the count
/// selects the last tab.
pub proof fn lemma_goto_n_bounds(cfg: ZohaCfg, m: CtxModel)
    requires
        ctx_wf(cfg, m),
        m.has_notebook,
    ensures
        goto_n_spec(m, 0) == (m, Seq::<Action>::empty()),
        goto_n_spec(m, m.slots.len() + 1int) == (m, Seq::<Action>::empty()),
        m.slots.len() > 0 ==> goto_n_spec(m, m.slots.len() as int).0.current == m.slots.len() - 1,
{
}

} // verus!
