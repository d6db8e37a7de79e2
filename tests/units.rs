use filman::commands::{
    cursor_ascend, cursor_down, cursor_up, delete, forget_deleted, parse_command, parse_shell_command, paste,
    rename, toggle_select, yank, Command,
};
use filman::config::Config;
use filman::error::FilmanError;
use filman::input::{
    command_mode_input, custom_simple_binding, normal_mode_input, shell_mode_input, Action,
};
use filman::path::{split_str, Path};
use filman::prompt::{Key, PromptReader};
use filman::render::{format_file, DirectoryEntry, RenderState};
use filman::state::{previewable, Mode, State};

fn strings(v: &[&str]) -> Vec<String> {
    v.iter().map(|s| s.to_string()).collect()
}

fn state_in(dir: &str) -> State {
    State::new(Path::root().join(dir))
}

fn texts_of(paths: &[Path]) -> Vec<String> {
    paths.iter().map(|p| p.full_path_str()).collect()
}

fn command_line(a: &Action) -> String {
    match a {
        Action::Command(s) => s.clone(),
        _ => panic!("not a command"),
    }
}

fn editor_text(a: &Action) -> String {
    match a {
        Action::ModeSwitch(Mode::CommandMode(p)) => p.result(),
        _ => panic!("not a command-mode switch"),
    }
}

#[test]
fn split_keeps_empty_pieces() {
    assert_eq!(split_str("", ' '), strings(&[""]));
    assert_eq!(split_str("a  b", ' '), strings(&["a", "", "b"]));
    assert_eq!(split_str(":rename x", ' '), strings(&[":rename", "x"]));
}

#[test]
fn join_resolves_relative_and_absolute_arguments() {
    let dir = Path::root().join("/home/user");
    assert_eq!(dir.join("a.txt").full_path_str(), "/home/user/a.txt");
    assert_eq!(dir.join("./a//b/").full_path_str(), "/home/user/a/b");
    assert_eq!(dir.join("/etc/hosts").full_path_str(), "/etc/hosts");
    assert_eq!(dir.join("..").full_path_str(), "/home/user/..");
    assert_eq!(Path::root().full_path_str(), "/");
}

#[test]
fn filename_of_root_and_dot_dot_fails() {
    assert!(matches!(
        Path::root().filename(),
        Err(FilmanError::PathHasNoFilename)
    ));
    let up = Path::root().join("/a/..");
    assert!(matches!(up.filename(), Err(FilmanError::PathHasNoFilename)));
    assert_eq!(Path::root().join("/a/b.txt").filename().unwrap(), "b.txt");
}

#[test]
fn parent_and_membership() {
    let p = Path::root().join("/a/b");
    let dir = Path::root().join("/a");
    assert!(p.parent().unwrap().same(&dir));
    assert!(p.is_in(&dir));
    assert!(!dir.is_in(&dir));
    assert!(Path::root().parent().is_none());
}

#[test]
fn empty_line_is_a_parse_error() {
    match parse_command("") {
        Err(FilmanError::CommandParseError(m)) => assert_eq!(
            m,
            "Could not split command string into command name and arguments "
        ),
        other => panic!("unexpected {:?}", other),
    }
}

#[test]
fn unknown_command_is_refused() {
    match parse_command(":frobnicate x") {
        Err(e @ FilmanError::CommandError(_)) => assert_eq!(
            e.message(),
            "Error executing filman command: Unrecognized command :frobnicate x"
        ),
        other => panic!("unexpected {:?}", other),
    }
}

#[test]
fn commands_parse_with_their_arguments() {
    match parse_command(":delete a b").unwrap() {
        Command::Delete(args) => assert_eq!(args, strings(&["a", "b"])),
        other => panic!("unexpected {:?}", other),
    }
    assert!(matches!(
        parse_command(":clear_selection").unwrap(),
        Command::ClearSelection
    ));
    assert!(matches!(
        parse_command(":cursor_up").unwrap(),
        Command::CursorUp
    ));
}

#[test]
fn shell_line_splits_into_program_and_arguments() {
    let (program, args) = parse_shell_command("!touch a b");
    assert_eq!(program, "touch");
    assert_eq!(args, strings(&["a", "b"]));
    let (program, args) = parse_shell_command("");
    assert_eq!(program, "");
    assert!(args.is_empty());
}

#[test]
fn cursor_down_then_up_is_identity() {
    for start in 0..4usize {
        let mut s = state_in("/d");
        let dir = s.pwd.copy();
        s.set_cursor(&dir, start);
        cursor_down(&mut s, 4);
        cursor_up(&mut s, 4);
        assert_eq!(s.selected_index_in_pwd(), start);
        cursor_up(&mut s, 4);
        cursor_down(&mut s, 4);
        assert_eq!(s.selected_index_in_pwd(), start);
    }
}

#[test]
fn cursor_moves_are_noops_on_empty_listing() {
    let mut s = state_in("/d");
    cursor_up(&mut s, 0);
    assert_eq!(s.selected_index_in_pwd(), 0);
    cursor_down(&mut s, 0);
    assert_eq!(s.selected_index_in_pwd(), 0);
}

#[test]
fn cursor_down_len_times_wraps_around() {
    let mut s = state_in("/d");
    let dir = s.pwd.copy();
    s.set_cursor(&dir, 2);
    for _ in 0..5 {
        cursor_down(&mut s, 5);
    }
    assert_eq!(s.selected_index_in_pwd(), 2);
}

#[test]
fn cursor_wraps_at_both_ends() {
    let mut s = state_in("/d");
    cursor_up(&mut s, 3);
    assert_eq!(s.selected_index_in_pwd(), 2);
    cursor_down(&mut s, 3);
    assert_eq!(s.selected_index_in_pwd(), 0);
}

#[test]
fn stale_cursor_is_clamped() {
    let mut s = state_in("/d");
    let dir = s.pwd.copy();
    s.set_cursor(&dir, 9);
    let names = strings(&["a", "b"]);
    assert_eq!(s.path_of_selected(&names).unwrap().full_path_str(), "/d/b");
    cursor_up(&mut s, 2);
    assert_eq!(s.selected_index_in_pwd(), 0);
}

#[test]
fn toggle_twice_restores_selection() {
    let mut s = state_in("/d");
    toggle_select(&strings(&["a"]), &mut s).unwrap();
    let before = texts_of(&s.multi_select);
    toggle_select(&strings(&["b"]), &mut s).unwrap();
    toggle_select(&strings(&["b"]), &mut s).unwrap();
    assert_eq!(texts_of(&s.multi_select), before);
    toggle_select(&strings(&["a"]), &mut s).unwrap();
    assert!(s.multi_select.is_empty());
}

#[test]
fn toggle_without_arguments_fails() {
    let mut s = state_in("/d");
    match toggle_select(&vec![], &mut s) {
        Err(FilmanError::CommandError(m)) => {
            assert_eq!(m, ":select takes at least one argument")
        }
        other => panic!("unexpected {:?}", other),
    }
}

#[test]
fn yank_replaces_the_buffer() {
    let mut s = state_in("/d");
    yank(&strings(&["a", "b"]), &mut s).unwrap();
    yank(&strings(&["c"]), &mut s).unwrap();
    assert_eq!(texts_of(&s.yanked), strings(&["/d/c"]));
    assert!(yank(&vec![], &mut s).is_err());
    assert_eq!(texts_of(&s.yanked), strings(&["/d/c"]));
}

#[test]
fn paste_stops_at_the_first_collision() {
    let mut s = state_in("/dst");
    s.yanked = vec![
        Path::root().join("/src/new.txt"),
        Path::root().join("/src/old.txt"),
        Path::root().join("/src/later.txt"),
    ];
    let plan = paste(&vec![], &s, &strings(&["old.txt"]));
    assert_eq!(plan.copies.len(), 1);
    assert_eq!(plan.copies[0].0.full_path_str(), "/src/new.txt");
    assert_eq!(plan.copies[0].1.full_path_str(), "/dst/new.txt");
    match plan.outcome {
        Err(FilmanError::FileOverwriteError(name)) => assert_eq!(name, "old.txt"),
        other => panic!("unexpected {:?}", other),
    }
}

#[test]
fn paste_refuses_two_sources_with_one_name() {
    let mut s = state_in("/dst");
    s.yanked = vec![
        Path::root().join("/a/f"),
        Path::root().join("/b/f"),
    ];
    let plan = paste(&vec![], &s, &vec![]);
    assert_eq!(plan.copies.len(), 1);
    assert!(matches!(plan.outcome, Err(FilmanError::FileOverwriteError(_))));
}

#[test]
fn paste_of_the_root_has_no_filename() {
    let mut s = state_in("/dst");
    s.yanked = vec![Path::root()];
    let plan = paste(&vec![], &s, &vec![]);
    assert!(plan.copies.is_empty());
    assert!(matches!(plan.outcome, Err(FilmanError::PathHasNoFilename)));
}

#[test]
fn paste_with_arguments_fails() {
    let s = state_in("/dst");
    let plan = paste(&strings(&["x"]), &s, &vec![]);
    assert!(plan.copies.is_empty());
    match plan.outcome {
        Err(FilmanError::CommandError(m)) => assert_eq!(m, ":paste takes not arguments"),
        other => panic!("unexpected {:?}", other),
    }
}

#[test]
fn error_messages() {
    assert_eq!(
        FilmanError::FileOverwriteError("x".to_string()).message(),
        "This would overwrite an existing file: x"
    );
    assert_eq!(FilmanError::NoParentError.message(), "Directory has no parent");
    assert_eq!(
        FilmanError::ReadDirectoryError("denied".to_string()).message(),
        "Failed to read directory"
    );
    assert_eq!(FilmanError::NotADirectory.message(), "Not a directory");
}

#[test]
fn format_file_marks() {
    let e = DirectoryEntry {
        name: "notes.txt".to_string(),
        info: "1 KiB".to_string(),
    };
    assert_eq!(format_file(&e, true, true, true), ">> notes.txt");
    assert_eq!(format_file(&e, false, true, false), "Y  notes.txt");
    assert_eq!(format_file(&e, false, false, true), " S notes.txt");
    assert_eq!(format_file(&e, false, true, true), "YS notes.txt");
    assert_eq!(format_file(&e, false, false, false), "   notes.txt");
}

#[test]
fn preview_limit() {
    assert!(previewable(2047));
    assert!(!previewable(2048));
}

#[test]
fn editor_edits_at_the_cursor() {
    let mut p = PromptReader::new_with_placeholder(":ab");
    p.next_key(&Key::Left);
    p.next_key(&Key::Char('x'));
    assert_eq!(p.result(), ":axb");
    p.next_key(&Key::Backspace);
    assert_eq!(p.result(), ":ab");
    p.next_key(&Key::Delete);
    assert_eq!(p.result(), ":a");
    p.next_key(&Key::Right);
    p.next_key(&Key::Char('c'));
    assert_eq!(p.result(), ":ac");
    assert!(!p.done());
    p.next_key(&Key::Enter);
    assert!(p.done());
}

#[test]
fn command_mode_runs_the_finished_line() {
    let mut p = PromptReader::new_with_placeholder(":cursor_dow");
    assert!(command_mode_input(&Key::Char('n'), &mut p).is_empty());
    let actions = command_mode_input(&Key::Enter, &mut p);
    assert_eq!(actions.len(), 2);
    assert_eq!(command_line(&actions[0]), ":cursor_down");
    assert!(matches!(actions[1], Action::ModeSwitch(Mode::NormalMode)));
}

#[test]
fn escape_leaves_the_editor() {
    let mut p = PromptReader::new_with_placeholder("!ls");
    let actions = shell_mode_input(&Key::Esc, &mut p);
    assert_eq!(actions.len(), 1);
    assert!(matches!(actions[0], Action::ModeSwitch(Mode::NormalMode)));
    let actions = shell_mode_input(&Key::Enter, &mut p);
    match &actions[0] {
        Action::ShellCommand(s) => assert_eq!(s, "!ls"),
        _ => panic!("not a shell command"),
    }
}

#[test]
fn normal_mode_shortcuts() {
    let s = state_in("/d");
    let names = strings(&["a", "b"]);
    let cfg = Config { simple: vec![] };
    let j = normal_mode_input(&Key::Char('j'), &s, &names, &cfg);
    assert_eq!(command_line(&j[0]), ":cursor_down");
    assert!(matches!(
        normal_mode_input(&Key::Char('q'), &s, &names, &cfg)[0],
        Action::Quit
    ));
    let space = normal_mode_input(&Key::Char(' '), &s, &names, &cfg);
    assert_eq!(command_line(&space[0]), ":toggle_select a");
    assert_eq!(command_line(&space[1]), ":cursor_down");
    let a = normal_mode_input(&Key::Char('A'), &s, &names, &cfg);
    assert_eq!(editor_text(&a[0]), ":rename a");
    let d = normal_mode_input(&Key::Char('D'), &s, &names, &cfg);
    assert_eq!(editor_text(&d[0]), ":delete /d/a");
    assert!(normal_mode_input(&Key::Enter, &s, &names, &cfg).is_empty());
}

#[test]
fn yank_shortcut_uses_the_multi_selection_of_this_directory() {
    let mut s = state_in("/d");
    toggle_select(&strings(&["a", "c", "/elsewhere/x"]), &mut s).unwrap();
    let cfg = Config { simple: vec![] };
    let y = normal_mode_input(&Key::Char('y'), &s, &strings(&["a", "b", "c"]), &cfg);
    assert_eq!(y.len(), 2);
    assert_eq!(command_line(&y[0]), ":yank /d/a /d/c");
    assert_eq!(command_line(&y[1]), ":clear_selection");
}

#[test]
fn shortcuts_in_an_empty_directory_report_errors() {
    let s = state_in("/d");
    let cfg = Config { simple: vec![] };
    match &normal_mode_input(&Key::Char('y'), &s, &vec![], &cfg)[0] {
        Action::SetErrorMessage(m) => assert_eq!(m, "Failed to read filename of selected"),
        _ => panic!("expected an error"),
    }
    match &normal_mode_input(&Key::Char(' '), &s, &vec![], &cfg)[0] {
        Action::SetErrorMessage(m) => assert_eq!(m, "Failed to read filename"),
        _ => panic!("expected an error"),
    }
}

#[test]
fn user_bindings_run_their_command() {
    let cfg = Config {
        simple: vec![('x', ":delete junk".to_string()), ('x', ":paste".to_string())],
    };
    let s = state_in("/d");
    let x = normal_mode_input(&Key::Char('x'), &s, &vec![], &cfg);
    assert_eq!(x.len(), 1);
    assert_eq!(command_line(&x[0]), ":delete junk");
    assert!(custom_simple_binding(&cfg, 'z').is_empty());
}

#[test]
fn render_state_projects_the_session() {
    let mut s = state_in("/home/user");
    toggle_select(&strings(&["a", "/other/b"]), &mut s).unwrap();
    yank(&strings(&["c"]), &mut s).unwrap();
    s.error_message = Some("boom".to_string());
    let files = vec![DirectoryEntry {
        name: "a".to_string(),
        info: "0 B".to_string(),
    }];
    let r = RenderState::from_state(&s, files, strings(&["other", "user"]));
    assert_eq!(r.multi_select, strings(&["a"]));
    assert_eq!(r.yanked, strings(&["c"]));
    assert_eq!(r.selected_in_parent, Some(1));
    assert_eq!(r.selected_in_pwd, Some(0));
    assert_eq!(r.preview, "Binary file");
    assert_eq!(r.command, None);
    assert_eq!(r.error_message, Some("boom".to_string()));
}

#[test]
fn ascend_resets_a_cursor_that_fell_off_the_listing() {
    let mut s = state_in("/a/b");
    cursor_ascend(&mut s, &strings(&["x", "b"]), 1).unwrap();
    assert_eq!(s.pwd.full_path_str(), "/a");
    assert_eq!(s.selected_index_in_pwd(), 0);
    let mut s = state_in("/a/b");
    cursor_ascend(&mut s, &strings(&["x", "b"]), 2).unwrap();
    assert_eq!(s.selected_index_in_pwd(), 1);
}

#[test]
fn ascend_from_a_vanished_directory_lands_at_zero() {
    let mut s = state_in("/a/b");
    let parent = Path::root().join("/a");
    s.set_cursor(&parent, 3);
    cursor_ascend(&mut s, &strings(&["x", "y"]), 2).unwrap();
    assert_eq!(s.pwd.full_path_str(), "/a");
    assert_eq!(s.selected_index_in_pwd(), 0);
}

#[test]
fn ascend_from_root_is_no_parent() {
    let mut s = state_in("/");
    assert!(matches!(
        cursor_ascend(&mut s, &vec![], 0),
        Err(FilmanError::NoParentError)
    ));
    assert_eq!(s.pwd.full_path_str(), "/");
}

#[test]
fn selection_elsewhere_falls_back_to_the_cursor() {
    let mut s = state_in("/d");
    toggle_select(&strings(&["/elsewhere/x"]), &mut s).unwrap();
    let names = strings(&["a", "b"]);
    let t = s.multi_select_or_selected(&names).unwrap();
    assert_eq!(texts_of(&t), strings(&["/d/a"]));
    assert!(matches!(
        s.multi_select_or_selected(&vec![]),
        Err(FilmanError::NoFileSelectedError)
    ));
    let cfg = Config { simple: vec![] };
    let y = normal_mode_input(&Key::Char('y'), &s, &names, &cfg);
    assert_eq!(command_line(&y[0]), ":yank /d/a");
}

#[test]
fn forget_deleted_keeps_targets_after_a_failure() {
    let mut s = state_in("/d");
    toggle_select(&strings(&["a", "b", "c"]), &mut s).unwrap();
    let targets = delete(&strings(&["a", "b", "c"]), &s).unwrap();
    forget_deleted(&mut s, &targets, Some(1));
    assert_eq!(texts_of(&s.multi_select), strings(&["/d/c"]));
    forget_deleted(&mut s, &targets, None);
    assert!(s.multi_select.is_empty());
}

#[test]
fn argument_count_errors() {
    let s = state_in("/d");
    match rename(&strings(&["a", "b"]), &s, &strings(&["f"])) {
        Err(FilmanError::CommandError(m)) => assert_eq!(m, ":rename takes one argument"),
        other => panic!("unexpected {:?}", other),
    }
    match delete(&vec![], &s) {
        Err(FilmanError::CommandError(m)) => assert_eq!(m, ":delete takes at least one argument"),
        other => panic!("unexpected {:?}", other),
    }
    let mut s = s;
    match yank(&vec![], &mut s) {
        Err(FilmanError::CommandError(m)) => assert_eq!(m, ":yank takes at least one argument"),
        other => panic!("unexpected {:?}", other),
    }
}

#[test]
fn rename_targets_the_entry_under_the_cursor() {
    let mut s = state_in("/d");
    cursor_down(&mut s, 2);
    let (from, to) = rename(&strings(&["z"]), &s, &strings(&["a", "b"])).unwrap();
    assert_eq!(from.full_path_str(), "/d/b");
    assert_eq!(to.full_path_str(), "/d/z");
}
