//! What the screens promise across key presses and actions.
use vstd::prelude::*;
use crate::config::AppConfig;
use crate::control::actions::{Action, KeyCode, KeyPress};
use crate::control::handler::{edit_text, key_action, menu_down, menu_up, step_post, Effect};
use crate::control::state::{distinct_ids, toggled_ids, without_id, App, InputMode};
use crate::control::view;

verus! {

/// Ctrl+C quits whatever is shown and whatever popup is open, and quitting
/// asks for all containers to be stopped.
pub proof fn law_ctrl_c_quits(o: App, n: App, docker: bool, config: AppConfig, eff: Effect)
    requires
        step_post(o, n, key_action(o, KeyPress { code: KeyCode::Char('c'), ctrl: true }), docker, config, eff),
    ensures
        n.should_quit,
        eff is StopAllContainers,
{
}

/// On the splash screen any key (but Ctrl+C) leads to the menu.
pub proof fn law_splash_any_key(o: App, n: App, key: KeyPress, docker: bool, config: AppConfig, eff: Effect)
    requires
        o.input_mode == InputMode::Normal,
        o.current_view == view::View::Splash,
        !(key.ctrl && key.code == KeyCode::Char('c')),
        step_post(o, n, key_action(o, key), docker, config, eff),
    ensures
        n.current_view == view::View::Menu,
        eff is Nothing,
{
}

/// Esc on a top-level view (dashboard, GPU monitor, comparison, settings)
/// returns to the menu; on the run detail it returns to the dashboard.
pub proof fn law_escape_goes_back(o: App, n: App, docker: bool, config: AppConfig, eff: Effect)
    requires
        o.input_mode == InputMode::Normal,
        step_post(o, n, key_action(o, KeyPress { code: KeyCode::Esc, ctrl: false }), docker, config, eff),
    ensures
        (o.current_view == view::View::Dashboard || o.current_view == view::View::GpuMonitor
            || o.current_view == view::View::Compare || o.current_view == view::View::Settings)
            ==> n.current_view == view::View::Menu,
        o.current_view == view::View::RunDetail ==> n.current_view == view::View::Dashboard,
{
}

/// Opening and closing the help returns to the view it was opened from.
pub proof fn law_help_round_trip(o: App, m: App, n: App, docker: bool, config: AppConfig, e1: Effect, e2: Effect)
    requires
        !o.show_help,
        step_post(o, m, Action::ToggleHelp, docker, config, e1),
        step_post(m, n, Action::ToggleHelp, docker, config, e2),
    ensures
        n.current_view == o.current_view,
        !n.show_help,
        m.current_view == view::View::Help,
{
}

/// The menu cursor wraps around its six items: down then up, and up then
/// down, come back; six steps down come back too.
pub proof fn law_menu_wraps(m: usize)
    requires
        m < 6,
    ensures
        menu_up(menu_down(m)) == m,
        menu_down(menu_up(m)) == m,
        menu_down(menu_down(menu_down(menu_down(menu_down(menu_down(m)))))) == m,
        menu_up(m) < 6,
        menu_down(m) < 6,
{
}

/// Marking a run that is not marked and then unmarking it (with fewer than
/// five marked) leaves the marks as they were.
pub proof fn law_toggle_twice_unmarked(ids: Seq<i64>, id: i64)
    requires
        distinct_ids(ids),
        !ids.contains(id),
        ids.len() < 5,
    ensures
        toggled_ids(toggled_ids(ids, id), id) == ids,
{
    let p = ids.push(id);
    assert(p.contains(id)) by {
        assert(p[p.len() - 1] == id);
    }
    assert(p.drop_last() == ids);
    crate::control::state::lemma_filter_keeps_all(ids, id);
}

/// Unmarking a marked run and marking it again keeps the same runs marked
/// (the run moves to the end).
pub proof fn law_toggle_twice_marked(ids: Seq<i64>, id: i64)
    requires
        distinct_ids(ids),
        ids.contains(id),
        ids.len() <= 5,
    ensures
        toggled_ids(toggled_ids(ids, id), id) == without_id(ids, id).push(id),
        toggled_ids(toggled_ids(ids, id), id).to_set() == ids.to_set(),
{
    crate::control::state::lemma_remove_id(ids, id);
    let w = without_id(ids, id);
    assert(toggled_ids(ids, id) == w);
    assert(toggled_ids(w, id) == w.push(id));
    assert forall|x: i64| #[trigger] w.push(id).to_set().contains(x) == ids.to_set().contains(x) by {
        if x == id {
            assert(w.push(id)[w.len() as int] == id);
        } else {
            if ids.contains(x) {
                lemma_without_keeps(ids, id, x);
                let k = choose|k: int| 0 <= k < w.len() && w[k] == x;
                assert(w.push(id)[k] == x);
            }
            if w.push(id).contains(x) {
                let k = choose|k: int| 0 <= k < w.push(id).len() && w.push(id)[k] == x;
                assert(k < w.len());
                assert(w.contains(x));
                crate::control::state::lemma_without_id_from(ids, id, x);
            }
        }
    }
    assert(w.push(id).to_set() =~= ids.to_set());
}

/// An id other than the removed one stays.
pub proof fn lemma_without_keeps(s: Seq<i64>, id: i64, x: i64)
    requires
        s.contains(x),
        x != id,
    ensures
        without_id(s, id).contains(x),
    decreases s.len(),
{
    if s.last() == x {
        let w = without_id(s.drop_last(), id).push(x);
        assert(w[w.len() - 1] == x);
    } else {
        let k = choose|k: int| 0 <= k < s.len() && s[k] == x;
        assert(k < s.len() - 1);
        assert(s.drop_last()[k] == x);
        lemma_without_keeps(s.drop_last(), id, x);
        if s.last() != id {
            let w = without_id(s.drop_last(), id);
            let j = choose|j: int| 0 <= j < w.len() && w[j] == x;
            assert(w.push(s.last())[j] == x);
        }
    }
}

/// Typing a character and then deleting it gives back the text.
pub proof fn law_type_then_backspace(s: Seq<char>, c: char)
    ensures
        edit_text(edit_text(s, Some(c)), None) == s,
{
    assert(s.push(c).drop_last() == s);
}

} // verus!
