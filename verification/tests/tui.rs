use autotun::ports::{Direction, Protocol, Tunnel};
use autotun::tui::{
    clamp_selection, copy_url, filter_key, footer, form_line, handle_inline_form, move_selection,
    row_direction, row_label, row_ports, row_status, selected_tunnel, selection_after_add,
    table_action, table_title, visible_indices, FormKey, InlineForm, TableAction,
};

#[test]
fn inline_local_form_uses_service_port_as_default_bind_port() {
    let mut form = InlineForm::new(Direction::Local);
    form.fields = ["3000".into(), String::new(), "frontend".into()];
    let tunnel = form.tunnel().unwrap();
    assert_eq!(tunnel.direction, Direction::Local);
    assert_eq!(tunnel.source_port, 3000);
    assert_eq!(tunnel.requested_port, 3000);
    assert_eq!(tunnel.label, "frontend");
}

#[test]
fn inline_form_rejects_zero_port() {
    let mut form = InlineForm::new(Direction::Reverse);
    form.fields[0] = "0".into();
    assert!(form.tunnel().is_err());
}

#[test]
fn inline_form_typing_and_navigation() {
    let mut form = InlineForm::new(Direction::Local);
    for c in "80a".chars() {
        assert_eq!(handle_inline_form(FormKey::Char(c), &mut form), Ok(None));
    }
    assert_eq!(handle_inline_form(FormKey::Backspace, &mut form), Ok(None));
    assert_eq!(form.fields[0], "80");
    assert_eq!(handle_inline_form(FormKey::Up, &mut form), Ok(None));
    assert_eq!(form.selected, 2);
    assert_eq!(handle_inline_form(FormKey::Tab, &mut form), Ok(None));
    assert_eq!(form.selected, 0);
    assert_eq!(handle_inline_form(FormKey::BackTab, &mut form), Ok(None));
    assert_eq!(form.selected, 2);
    assert_eq!(handle_inline_form(FormKey::Down, &mut form), Ok(None));
    assert_eq!(handle_inline_form(FormKey::Enter, &mut form), Ok(None));
    assert_eq!(form.selected, 1);
    assert_eq!(handle_inline_form(FormKey::Char('9'), &mut form), Ok(None));
    assert_eq!(handle_inline_form(FormKey::Enter, &mut form), Ok(None));
    let saved = handle_inline_form(FormKey::Enter, &mut form).unwrap().unwrap();
    assert_eq!(saved.source_port, 80);
    assert_eq!(saved.requested_port, 9);
    assert_eq!(saved.label, "");
}

#[test]
fn inline_form_enter_on_last_field_reports_errors() {
    let mut form = InlineForm::new(Direction::Reverse);
    form.selected = 2;
    assert!(handle_inline_form(FormKey::Enter, &mut form).is_err());
    assert_eq!(form.selected, 2);
}

#[test]
fn backspace_on_empty_field_keeps_it_empty() {
    let mut form = InlineForm::new(Direction::Local);
    assert_eq!(handle_inline_form(FormKey::Backspace, &mut form), Ok(None));
    assert_eq!(form.fields[0], "");
}

#[test]
fn edit_form_is_filled_from_the_tunnel() {
    let mut tunnel = Tunnel::manual_local(5432, 15432, "db".into());
    tunnel.enabled = true;
    let form = InlineForm::edit(&tunnel, 4);
    assert_eq!(form.fields, ["5432".to_string(), "15432".to_string(), "db".to_string()]);
    assert_eq!(form.edit_index, Some(4));
    assert!(form.was_enabled);
    assert_eq!(form.title(), " Edit forward (remote → local) ");
    assert_eq!(InlineForm::new(Direction::Reverse).title(), " Add reverse (local → remote) ");
    assert_eq!(form.labels(), ["Remote port", "Local port", "Label"]);
}

#[test]
fn form_lines_show_placeholders() {
    let form = InlineForm::new(Direction::Local);
    assert_eq!(form_line(&form, 0), "Remote port: ");
    assert_eq!(form_line(&form, 1), "Local port: same as remote port");
    let mut reverse = InlineForm::new(Direction::Reverse);
    assert_eq!(form_line(&reverse, 1), "Remote port: same as local port");
    reverse.fields[1] = "9000".into();
    assert_eq!(form_line(&reverse, 1), "Remote port: 9000");
}

#[test]
fn selection_wraps_both_ways() {
    assert_eq!(move_selection(Some(0), 3, -1), Some(2));
    assert_eq!(move_selection(Some(2), 3, 1), Some(0));
    assert_eq!(move_selection(None, 3, 1), Some(1));
    assert_eq!(move_selection(Some(1), 0, 1), Some(1));
    assert_eq!(move_selection(Some(0), 4, -5), Some(3));
}

#[test]
fn selection_is_clamped_to_the_shown_rows() {
    assert_eq!(clamp_selection(Some(5), 3), Some(2));
    assert_eq!(clamp_selection(Some(1), 3), Some(1));
    assert_eq!(clamp_selection(None, 3), Some(0));
    assert_eq!(clamp_selection(Some(1), 0), None);
}

#[test]
fn filter_matches_label_and_ports_case_insensitively() {
    let mut web = Tunnel::local(3000);
    web.label = "Frontend".into();
    let mut db = Tunnel::local(5432);
    db.bind_port = Some(15432);
    let tunnels = vec![web, db, Tunnel::reverse(8080)];
    assert_eq!(visible_indices(&tunnels, None), vec![0, 1, 2]);
    assert_eq!(visible_indices(&tunnels, Some("FRONT")), vec![0]);
    assert_eq!(visible_indices(&tunnels, Some("154")), vec![1]);
    assert_eq!(visible_indices(&tunnels, Some("80")), vec![2]);
    assert_eq!(visible_indices(&tunnels, Some("")), vec![0, 1, 2]);
    assert!(visible_indices(&tunnels, Some("zzz")).is_empty());
}

#[test]
fn selected_row_maps_to_its_tunnel() {
    let visible = vec![2, 5, 7];
    assert_eq!(selected_tunnel(&visible, Some(1)), Some(5));
    assert_eq!(selected_tunnel(&visible, Some(3)), None);
    assert_eq!(selected_tunnel(&visible, None), None);
    assert_eq!(selection_after_add(&visible, 7), 2);
    assert_eq!(selection_after_add(&visible, 9), 9);
}

#[test]
fn row_columns() {
    let mut local = Tunnel::local(3000);
    assert_eq!(row_direction(local.direction), "Forward");
    assert_eq!(row_label(&local), "—");
    assert_eq!(row_ports(&local), ("3000".to_string(), "auto".to_string()));
    assert_eq!(row_status(&local), "off");
    local.enabled = true;
    local.bind_port = Some(3001);
    local.label = "web".into();
    assert_eq!(row_label(&local), "web");
    assert_eq!(row_ports(&local), ("3000".to_string(), "3001".to_string()));
    assert_eq!(row_status(&local), "ON");
    local.error = Some("boom".into());
    assert_eq!(row_status(&local), "boom");

    let mut reverse = Tunnel::manual_reverse(8080, 9090, String::new());
    assert_eq!(row_direction(reverse.direction), "Reverse");
    assert_eq!(row_ports(&reverse), ("9090".to_string(), "8080".to_string()));
    reverse.bind_port = Some(9091);
    assert_eq!(row_ports(&reverse), ("9091".to_string(), "8080".to_string()));

    let mut down = Tunnel::local(4000);
    down.present = false;
    assert_eq!(row_status(&down), "TARGET DOWN");
    down.manual_off = true;
    assert_eq!(row_status(&down), "MANUAL OFF");
}

#[test]
fn only_web_forwards_have_a_url_to_copy() {
    let mut tunnel = Tunnel::local(3000);
    tunnel.enabled = true;
    tunnel.bind_port = Some(3000);
    assert_eq!(copy_url(&tunnel), None);
    tunnel.protocol = Protocol::Http;
    assert_eq!(copy_url(&tunnel), Some("http://127.0.0.1:3000".to_string()));
}

#[test]
fn filter_keys() {
    assert_eq!(filter_key(FormKey::Char('a'), String::new()), Some("a".to_string()));
    assert_eq!(filter_key(FormKey::Backspace, "ab".into()), Some("a".to_string()));
    assert_eq!(filter_key(FormKey::Backspace, "a".into()), None);
    assert_eq!(filter_key(FormKey::Enter, String::new()), None);
    assert_eq!(filter_key(FormKey::Enter, "a".into()), Some("a".to_string()));
    assert_eq!(filter_key(FormKey::Esc, "a".into()), None);
    assert_eq!(filter_key(FormKey::Down, "a".into()), Some("a".to_string()));
}

#[test]
fn footer_and_title() {
    assert_eq!(footer(true, true, Some("n"), true), "  ↑↓ Select  Enter Next/Save  Esc Cancel");
    assert_eq!(footer(false, true, None, false), "  Type to filter  Esc Clear  Enter Confirm");
    assert_eq!(footer(false, false, Some("copied"), true), "  copied");
    assert_eq!(footer(false, false, None, false), "  ? Help");
    assert!(footer(false, false, None, true).starts_with("  ↑↓ Select  Space Toggle"));
    assert_eq!(table_title("dev"), "──autotun─dev ");
}

#[test]
fn table_keys() {
    assert_eq!(table_action(FormKey::Char('q')), TableAction::Quit);
    assert_eq!(table_action(FormKey::Esc), TableAction::Quit);
    assert_eq!(table_action(FormKey::Char('j')), TableAction::MoveDown);
    assert_eq!(table_action(FormKey::Up), TableAction::MoveUp);
    assert_eq!(table_action(FormKey::Char(' ')), TableAction::Toggle);
    assert_eq!(table_action(FormKey::Enter), TableAction::Toggle);
    assert_eq!(table_action(FormKey::Char('e')), TableAction::Edit);
    assert_eq!(table_action(FormKey::Char('v')), TableAction::AddReverse);
    assert_eq!(table_action(FormKey::Char('x')), TableAction::Nothing);
}

#[test]
fn form_closing_selection_and_help() {
    assert!(autotun::tui::form_stays_open(FormKey::Char('1'), false));
    assert!(!autotun::tui::form_stays_open(FormKey::Esc, false));
    assert!(!autotun::tui::form_stays_open(FormKey::Enter, true));
    assert_eq!(autotun::tui::selection_after_delete(Some(3), 0), None);
    assert_eq!(autotun::tui::selection_after_delete(Some(3), 2), Some(3));
    assert_eq!(autotun::tui::toggle_help(false), (true, true));
    assert_eq!(autotun::tui::toggle_help(true), (false, true));
}
