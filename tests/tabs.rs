use zoha::config::LastTabExitBehavior;
use zoha::config::TabMode;
use zoha::config::ZohaCfg;
use zoha::config::FONT_SCALE_DEFAULT;
use zoha::config::FONT_SCALE_MAX;
use zoha::config::FONT_SCALE_MIN;
use zoha::window::add_tab;
use zoha::window::close_tab;
use zoha::window::copy;
use zoha::window::create_notebook;
use zoha::window::font_dec;
use zoha::window::font_inc;
use zoha::window::font_reset;
use zoha::window::goto_last;
use zoha::window::goto_n;
use zoha::window::goto_next;
use zoha::window::goto_previous;
use zoha::window::label_at;
use zoha::window::move_backward;
use zoha::window::move_forward;
use zoha::window::on_page_removed;
use zoha::window::on_page_reorder;
use zoha::window::on_page_switched;
use zoha::window::on_spawned;
use zoha::window::paste;
use zoha::window::remove_page_by_id;
use zoha::window::toggle_transparency;
use zoha::window::Action;
use zoha::window::Problem;
use zoha::window::ZohaCtx;

fn cfg(mode: TabMode, policy: LastTabExitBehavior) -> ZohaCfg {
    ZohaCfg {
        tab_mode: mode,
        tab_scroll_wrap: false,
        tab_title_num_characters: None,
        last_tab_exit_behavior: policy,
        working_dir: None,
        bg_alpha: 200,
        fullscreen: false,
    }
}

fn ctx_with_tabs(n: usize, policy: LastTabExitBehavior) -> ZohaCtx {
    let mut ctx = ZohaCtx::new(cfg(TabMode::Never, policy));
    ctx.set_window();
    create_notebook(&mut ctx);
    for _ in 0..n {
        add_tab(&mut ctx, true);
    }
    ctx
}

fn counters(ctx: &ZohaCtx) -> Vec<u64> {
    ctx.terminals.terminals.iter().map(|t| t.tab_counter).collect()
}

#[test]
fn add_tab_to_empty_notebook() {
    let mut ctx = ZohaCtx::new(cfg(TabMode::Auto, LastTabExitBehavior::Exit));
    assert!(create_notebook(&mut ctx) == false);
    let a = add_tab(&mut ctx, true);
    assert_eq!(
        a,
        vec![
            Action::Spawn { id: 1, slot: 0, grab_focus: true, inherit_from: None },
            Action::ShowTabs { show: false },
            Action::Relabel,
            Action::Focus { id: 1 },
        ]
    );
    assert_eq!(ctx.count(), 1);
    assert_eq!(ctx.current, 0);
}

#[test]
fn add_tab_inserts_after_current() {
    let mut ctx = ctx_with_tabs(4, LastTabExitBehavior::Exit);
    assert_eq!(counters(&ctx), vec![1, 2, 3, 4]);
    on_page_switched(&mut ctx, 1);
    let a = add_tab(&mut ctx, false);
    assert_eq!(counters(&ctx), vec![1, 2, 5, 3, 4]);
    assert_eq!(ctx.current, 2);
    assert_eq!(
        a,
        vec![
            Action::Spawn { id: 5, slot: 2, grab_focus: false, inherit_from: Some(2) },
            Action::Relabel,
            Action::Focus { id: 5 },
        ]
    );
}

#[test]
fn close_tab_shifts_higher_slots_down() {
    let mut ctx = ctx_with_tabs(4, LastTabExitBehavior::Exit);
    on_page_switched(&mut ctx, 1);
    let a = close_tab(&mut ctx);
    assert_eq!(counters(&ctx), vec![1, 3, 4]);
    assert_eq!(ctx.current, 1);
    assert_eq!(a, vec![Action::RemovePage { id: 2 }, Action::Relabel, Action::Focus { id: 3 }]);
}

#[test]
fn close_last_slot_selects_previous() {
    let mut ctx = ctx_with_tabs(3, LastTabExitBehavior::Exit);
    assert_eq!(ctx.current, 2);
    close_tab(&mut ctx);
    assert_eq!(counters(&ctx), vec![1, 2]);
    assert_eq!(ctx.current, 1);
}

#[test]
fn reorder_backward_shifts_between_up() {
    let mut ctx = ctx_with_tabs(5, LastTabExitBehavior::Exit);
    let a = on_page_reorder(&mut ctx, 4, 1);
    assert_eq!(a, vec![Action::Relabel]);
    assert_eq!(counters(&ctx), vec![1, 4, 2, 3, 5]);
}

#[test]
fn reorder_forward_shifts_between_down() {
    let mut ctx = ctx_with_tabs(5, LastTabExitBehavior::Exit);
    on_page_reorder(&mut ctx, 2, 3);
    assert_eq!(counters(&ctx), vec![1, 3, 4, 2, 5]);
}

#[test]
fn reorder_keeps_current_session() {
    let mut ctx = ctx_with_tabs(5, LastTabExitBehavior::Exit);
    on_page_switched(&mut ctx, 2);
    on_page_reorder(&mut ctx, 4, 1);
    assert_eq!(ctx.terminals.terminals[ctx.current].tab_counter, 3);
    assert!(on_page_reorder(&mut ctx, 3, 3).is_empty());
    assert_eq!(on_page_reorder(&mut ctx, 9, 0), vec![Action::Report { problem: Problem::MissingSession }]);
    assert_eq!(on_page_reorder(&mut ctx, 1, 5), vec![Action::Report { problem: Problem::MissingSession }]);
}

#[test]
fn move_forward_wraps_from_last_to_first() {
    let mut ctx = ctx_with_tabs(3, LastTabExitBehavior::Exit);
    let a = move_forward(&mut ctx);
    assert_eq!(counters(&ctx), vec![3, 1, 2]);
    assert_eq!(ctx.current, 0);
    assert_eq!(a, vec![Action::MovePage { id: 3, slot: 0 }, Action::Relabel, Action::Focus { id: 3 }]);
}

#[test]
fn move_backward_wraps_from_first_to_last() {
    let mut ctx = ctx_with_tabs(3, LastTabExitBehavior::Exit);
    on_page_switched(&mut ctx, 0);
    move_backward(&mut ctx);
    assert_eq!(counters(&ctx), vec![2, 3, 1]);
    assert_eq!(ctx.current, 2);
    move_backward(&mut ctx);
    assert_eq!(counters(&ctx), vec![2, 1, 3]);
    assert_eq!(ctx.current, 1);
}

#[test]
fn move_without_tabs_does_nothing() {
    let mut ctx = ctx_with_tabs(0, LastTabExitBehavior::Exit);
    assert!(move_forward(&mut ctx).is_empty());
}

#[test]
fn label_truncation() {
    let mut ctx = ctx_with_tabs(1, LastTabExitBehavior::Exit);
    let cwd = "/home/user/projects/zoha";
    ctx.cfg.tab_title_num_characters = Some(6);
    assert_eq!(label_at(&ctx, 0, Some(cwd)).unwrap(), "[1] - 1@s/zoha");
    ctx.cfg.tab_title_num_characters = Some(-6);
    assert_eq!(label_at(&ctx, 0, Some(cwd)).unwrap(), "[1] - 1@/home/");
    ctx.cfg.tab_title_num_characters = None;
    assert_eq!(label_at(&ctx, 0, Some(cwd)).unwrap(), "[1] - 1@/home/user/projects/zoha");
    ctx.cfg.tab_title_num_characters = Some(-40);
    assert_eq!(label_at(&ctx, 0, Some(cwd)).unwrap(), "[1] - 1@/home/user/projects/zoha");
    ctx.cfg.tab_title_num_characters = Some(24);
    assert_eq!(label_at(&ctx, 0, Some(cwd)).unwrap(), "[1] - 1@/home/user/projects/zoha");
    ctx.cfg.tab_title_num_characters = Some(0);
    assert_eq!(label_at(&ctx, 0, Some(cwd)).unwrap(), "[1] - 1@");
}

#[test]
fn label_without_cwd_and_multi_digit_numbers() {
    let mut ctx = ctx_with_tabs(12, LastTabExitBehavior::Exit);
    assert_eq!(label_at(&ctx, 11, None).unwrap(), "[12] - 12@?");
    assert_eq!(label_at(&ctx, 12, None), None);
    ctx.next_counter = 305;
    add_tab(&mut ctx, true);
    assert_eq!(label_at(&ctx, 12, Some("/")).unwrap(), "[13] - 305@/");
    assert_eq!(zoha::label::tab_label(100, 0, Some("é/ü"), Some(2)), "[100] - 0@/ü");
}

#[test]
fn close_last_tab_restarts_terminal() {
    let mut ctx = ctx_with_tabs(1, LastTabExitBehavior::RestartTerminal);
    let a = close_tab(&mut ctx);
    assert_eq!(counters(&ctx), vec![2]);
    assert_eq!(ctx.current, 0);
    let spawns: Vec<&Action> = a.iter().filter(|x| matches!(x, Action::Spawn { .. })).collect();
    assert_eq!(spawns, vec![&Action::Spawn { id: 2, slot: 0, grab_focus: true, inherit_from: None }]);
    assert_eq!(a.last(), Some(&Action::Focus { id: 2 }));
}

#[test]
fn close_last_tab_restarts_and_hides() {
    let mut ctx = ctx_with_tabs(1, LastTabExitBehavior::RestartTerminalAndHide);
    let a = close_tab(&mut ctx);
    assert_eq!(counters(&ctx), vec![2]);
    assert_eq!(
        a,
        vec![
            Action::RemovePage { id: 1 },
            Action::Relabel,
            Action::Spawn { id: 2, slot: 0, grab_focus: false, inherit_from: None },
            Action::Relabel,
            Action::Focus { id: 2 },
            Action::ToggleWindow,
            Action::Focus { id: 2 },
        ]
    );
}

#[test]
fn close_last_tab_exits() {
    let mut ctx = ctx_with_tabs(1, LastTabExitBehavior::Exit);
    let a = close_tab(&mut ctx);
    assert_eq!(ctx.count(), 0);
    assert_eq!(a, vec![Action::RemovePage { id: 1 }, Action::Relabel, Action::CloseWindow]);
    assert_eq!(close_tab(&mut ctx), vec![Action::Report { problem: Problem::NoActivePage }]);
}

#[test]
fn close_last_tab_exit_without_window_is_reported() {
    let mut ctx = ZohaCtx::new(cfg(TabMode::Auto, LastTabExitBehavior::Exit));
    create_notebook(&mut ctx);
    add_tab(&mut ctx, true);
    let a = close_tab(&mut ctx);
    assert_eq!(
        a,
        vec![
            Action::RemovePage { id: 1 },
            Action::Relabel,
            Action::ShowTabs { show: false },
            Action::Report { problem: Problem::MissingWindow },
        ]
    );
}

#[test]
fn tab_strip_follows_count_in_auto_mode() {
    let mut ctx = ZohaCtx::new(cfg(TabMode::Auto, LastTabExitBehavior::Exit));
    create_notebook(&mut ctx);
    add_tab(&mut ctx, true);
    let a = add_tab(&mut ctx, true);
    assert!(a.contains(&Action::ShowTabs { show: true }));
    let a = close_tab(&mut ctx);
    assert!(a.contains(&Action::ShowTabs { show: false }));
    let mut always = ZohaCtx::new(cfg(TabMode::Always, LastTabExitBehavior::Exit));
    assert!(create_notebook(&mut always));
    assert!(!add_tab(&mut always, true).iter().any(|x| matches!(x, Action::ShowTabs { .. })));
}

#[test]
fn toggle_transparency_twice_restores_alpha() {
    let mut ctx = ctx_with_tabs(3, LastTabExitBehavior::Exit);
    let before: Vec<u8> = ctx.terminals.terminals.iter().map(|t| t.bg_alpha).collect();
    assert_eq!(before, vec![200, 200, 200]);
    let a = toggle_transparency(&mut ctx);
    assert!(!ctx.transparency_enabled);
    assert_eq!(
        a,
        vec![
            Action::SetBackground { id: 1, alpha: 255 },
            Action::SetBackground { id: 2, alpha: 255 },
            Action::SetBackground { id: 3, alpha: 255 },
        ]
    );
    toggle_transparency(&mut ctx);
    let after: Vec<u8> = ctx.terminals.terminals.iter().map(|t| t.bg_alpha).collect();
    assert_eq!(after, before);
    assert!(ctx.transparency_enabled);
}

#[test]
fn new_session_gets_current_settings() {
    let mut ctx = ctx_with_tabs(1, LastTabExitBehavior::Exit);
    toggle_transparency(&mut ctx);
    font_inc(&mut ctx);
    add_tab(&mut ctx, true);
    assert_eq!(ctx.terminals.terminals[1].bg_alpha, 255);
    assert_eq!(ctx.terminals.terminals[1].font_scale, FONT_SCALE_DEFAULT + 10);
}

#[test]
fn font_scale_steps_and_clamps() {
    let mut ctx = ctx_with_tabs(2, LastTabExitBehavior::Exit);
    let a = font_inc(&mut ctx);
    assert_eq!(ctx.font_scale, 110);
    assert_eq!(
        a,
        vec![Action::SetFontScale { id: 1, scale: 110 }, Action::SetFontScale { id: 2, scale: 110 }]
    );
    font_dec(&mut ctx);
    font_dec(&mut ctx);
    assert_eq!(ctx.font_scale, 90);
    for _ in 0..200 {
        font_dec(&mut ctx);
    }
    assert_eq!(ctx.font_scale, FONT_SCALE_MIN);
    for _ in 0..200 {
        font_inc(&mut ctx);
    }
    assert_eq!(ctx.font_scale, FONT_SCALE_MAX);
    assert!(ctx.terminals.terminals.iter().all(|t| t.font_scale == FONT_SCALE_MAX));
    font_reset(&mut ctx);
    assert_eq!(ctx.font_scale, FONT_SCALE_DEFAULT);
    assert!(ctx.terminals.terminals.iter().all(|t| t.font_scale == FONT_SCALE_DEFAULT));
}

#[test]
fn goto_n_bounds() {
    let mut ctx = ctx_with_tabs(4, LastTabExitBehavior::Exit);
    on_page_switched(&mut ctx, 1);
    assert!(goto_n(&mut ctx, 0).is_empty());
    assert_eq!(ctx.current, 1);
    assert!(goto_n(&mut ctx, 5).is_empty());
    assert_eq!(ctx.current, 1);
    let a = goto_n(&mut ctx, 4);
    assert_eq!(ctx.current, 3);
    assert_eq!(a, vec![Action::SelectPage { slot: 3 }, Action::Focus { id: 4 }]);
    goto_n(&mut ctx, 1);
    assert_eq!(ctx.current, 0);
}

#[test]
fn goto_next_and_previous_clamp_without_wrap() {
    let mut ctx = ctx_with_tabs(3, LastTabExitBehavior::Exit);
    goto_next(&mut ctx);
    assert_eq!(ctx.current, 2);
    goto_previous(&mut ctx);
    goto_previous(&mut ctx);
    goto_previous(&mut ctx);
    assert_eq!(ctx.current, 0);
}

#[test]
fn goto_next_and_previous_wrap_when_enabled() {
    let mut ctx = ctx_with_tabs(3, LastTabExitBehavior::Exit);
    ctx.cfg.tab_scroll_wrap = true;
    goto_next(&mut ctx);
    assert_eq!(ctx.current, 0);
    goto_previous(&mut ctx);
    assert_eq!(ctx.current, 2);
    on_page_switched(&mut ctx, 0);
    goto_last(&mut ctx);
    assert_eq!(ctx.current, 2);
}

#[test]
fn operations_without_notebook_are_reported() {
    let mut ctx = ZohaCtx::new(cfg(TabMode::Auto, LastTabExitBehavior::Exit));
    let missing = vec![Action::Report { problem: Problem::MissingNotebook }];
    assert_eq!(add_tab(&mut ctx, true), missing);
    assert_eq!(close_tab(&mut ctx), missing);
    assert_eq!(move_forward(&mut ctx), missing);
    assert_eq!(goto_next(&mut ctx), missing);
    assert_eq!(goto_n(&mut ctx, 1), missing);
    assert_eq!(copy(&ctx), missing);
    assert_eq!(remove_page_by_id(&mut ctx, 1), missing);
    assert_eq!(ctx.count(), 0);
}

#[test]
fn copy_and_paste_target_current_terminal() {
    let mut ctx = ctx_with_tabs(2, LastTabExitBehavior::Exit);
    on_page_switched(&mut ctx, 0);
    assert_eq!(copy(&ctx), vec![Action::Copy { id: 1 }]);
    assert_eq!(paste(&ctx), vec![Action::Paste { id: 1 }]);
    let empty = ctx_with_tabs(0, LastTabExitBehavior::Exit);
    assert_eq!(paste(&empty), vec![Action::Report { problem: Problem::NoActivePage }]);
}

#[test]
fn child_exit_removes_its_page() {
    let mut ctx = ctx_with_tabs(3, LastTabExitBehavior::Exit);
    let a = remove_page_by_id(&mut ctx, 1);
    assert_eq!(counters(&ctx), vec![2, 3]);
    assert_eq!(ctx.current, 1);
    assert_eq!(a, vec![Action::RemovePage { id: 1 }, Action::Relabel, Action::Focus { id: 3 }]);
    assert_eq!(remove_page_by_id(&mut ctx, 1), vec![Action::Report { problem: Problem::MissingSession }]);
}

#[test]
fn page_removed_out_of_range_is_reported() {
    let mut ctx = ctx_with_tabs(2, LastTabExitBehavior::Exit);
    assert_eq!(on_page_removed(&mut ctx, 2), vec![Action::Report { problem: Problem::MissingSession }]);
    assert_eq!(on_page_removed(&mut ctx, 0), vec![Action::Relabel]);
    assert_eq!(counters(&ctx), vec![2]);
}

#[test]
fn spawn_completion_records_pid() {
    let mut ctx = ctx_with_tabs(2, LastTabExitBehavior::Exit);
    assert_eq!(ctx.pid_of(2), None);
    assert!(on_spawned(&mut ctx, 2, 4242).is_empty());
    assert_eq!(ctx.pid_of(2), Some(4242));
    assert_eq!(ctx.pid_of(1), None);
    assert_eq!(on_spawned(&mut ctx, 7, 1), vec![Action::Report { problem: Problem::MissingSession }]);
}

#[test]
fn counter_exhaustion_is_reported() {
    let mut ctx = ctx_with_tabs(1, LastTabExitBehavior::Exit);
    ctx.next_counter = u64::MAX;
    assert_eq!(add_tab(&mut ctx, true), vec![Action::Report { problem: Problem::CounterExhausted }]);
    assert_eq!(ctx.count(), 1);
}

#[test]
fn spawn_dir_prefers_inherited() {
    let default = Some("/srv".to_string());
    assert_eq!(zoha::terminal::spawn_dir(Some("/tmp".to_string()), &default), Some("/tmp".to_string()));
    assert_eq!(zoha::terminal::spawn_dir(None, &default), Some("/srv".to_string()));
    assert_eq!(zoha::terminal::spawn_dir(None, &None), None);
}

#[test]
fn slots_stay_dense_over_mixed_operations() {
    let mut ctx = ctx_with_tabs(3, LastTabExitBehavior::RestartTerminal);
    close_tab(&mut ctx);
    add_tab(&mut ctx, true);
    on_page_reorder(&mut ctx, 1, 2);
    move_backward(&mut ctx);
    close_tab(&mut ctx);
    add_tab(&mut ctx, false);
    let n = ctx.count();
    assert_eq!(n, 3);
    for i in 0..n {
        assert!(label_at(&ctx, i, None).unwrap().starts_with(&format!("[{}] - ", i + 1)));
    }
    assert_eq!(label_at(&ctx, n, None), None);
    let mut ids = counters(&ctx);
    ids.sort();
    ids.dedup();
    assert_eq!(ids.len(), n);
    assert!(ctx.current < n);
}
