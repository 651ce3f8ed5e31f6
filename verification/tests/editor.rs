use herdr_reviewr::editor::{resolve,  EditorCommand, NoEditor, Platform};

const P: &str = "/repo/src/lib.rs";

fn env(value: &str) -> Option<EditorCommand> {
    resolve(Platform::Other, None, None, Some(value), P, 41).ok()
}

fn argv(cmd: &EditorCommand) -> String {
    format!("{} {}", cmd.program, cmd.args.join(" "))
}

#[test]
fn terminal_editors_take_a_plus_line_and_never_wait() {
    for name in ["vi", "vim", "nvim", "nano", "micro", "kak", "emacs"] {
        assert_eq!(
            argv(&env(name).unwrap()),
            format!("{name} +41 /repo/src/lib.rs"),
            "{name} takes `+LINE` before the path and owns the pane already"
        );
    }
}

#[test]
fn helix_takes_the_line_as_a_path_suffix() {
    assert_eq!(argv(&env("hx").unwrap()), "hx /repo/src/lib.rs:41");
    assert_eq!(argv(&env("helix").unwrap()), "helix /repo/src/lib.rs:41");
}

#[test]
fn window_editors_get_their_line_and_nothing_else() {
    for name in ["code", "code-insiders", "codium", "cursor", "windsurf", "positron"] {
        assert_eq!(argv(&env(name).unwrap()), format!("{name} -g /repo/src/lib.rs:41"));
    }
    assert_eq!(argv(&env("zed").unwrap()), "zed /repo/src/lib.rs:41");
    assert_eq!(argv(&env("subl").unwrap()), "subl /repo/src/lib.rs:41");
    assert_eq!(argv(&env("bbedit").unwrap()), "bbedit +41 /repo/src/lib.rs");
    assert_eq!(argv(&env("mate").unwrap()), "mate --line 41 /repo/src/lib.rs");
    assert_eq!(argv(&env("kate").unwrap()), "kate --line 41 /repo/src/lib.rs");
    let mac = resolve(Platform::MacOs, None, None, Some("xed"), P, 41).unwrap();
    assert_eq!(argv(&mac), "xed --line 41 /repo/src/lib.rs");
    assert_eq!(argv(&env("xed").unwrap()), "xed +41 /repo/src/lib.rs");
    for name in ["idea", "pycharm", "webstorm", "goland", "clion", "rustrover", "fleet"] {
        assert_eq!(argv(&env(name).unwrap()), format!("{name} --line 41 /repo/src/lib.rs"));
    }
}

#[test]
fn only_a_terminal_editor_is_handed_the_pane() {
    for name in ["vim", "nvim", "nano", "micro", "kak", "emacs", "hx", "helix"] {
        assert!(env(name).unwrap().wants_terminal, "{name} paints in the pane");
    }
    for name in ["code", "cursor", "zed", "zeditor", "subl", "idea", "kate", "mate"] {
        assert!(!env(name).unwrap().wants_terminal, "{name} opens a window");
    }
    for name in ["mvim", "gvim", "bbedit", "gedit"] {
        assert!(!env(name).unwrap().wants_terminal, "{name} opens a window");
    }
    let cfg = |t: &str| resolve(Platform::Other, Some(t), None, None, P, 41).unwrap().wants_terminal;
    assert!(!cfg("code -g {file}:{line}"), "the documented example keeps the pane");
    assert!(cfg("vim +{line} {file}"), "a terminal editor still takes it");
    assert!(!cfg("/Applications/Zed.app/Contents/MacOS/cli --wait {file}:{line}"));
    assert!(!cfg("/opt/weird/ed --block --line {line} {file}"));
    assert!(!env("/Applications/Zed.app/Contents/MacOS/cli --wait").unwrap().wants_terminal);
    assert!(cfg("hx -w {file}"));
    assert!(env("myeditor").unwrap().wants_terminal);
    assert!(cfg("myed {file}"));
}

#[test]
fn the_reviewers_own_flags_survive() {
    assert_eq!(argv(&env("code --wait").unwrap()), "code --wait -g /repo/src/lib.rs:41");
    assert_eq!(argv(&env("kate -b").unwrap()), "kate -b --line 41 /repo/src/lib.rs");
    assert_eq!(argv(&env("mvim -f").unwrap()), "mvim -f +41 /repo/src/lib.rs");
}

#[test]
fn a_quoted_path_with_spaces_stays_one_word() {
    let subl = "/Applications/Sublime Text.app/Contents/SharedSupport/bin/subl";
    let cmd = env(&format!("\"{subl}\"")).unwrap();
    assert_eq!(cmd.program, subl, "the whole quoted path is the program");
    assert_eq!(
        cmd.args,
        ["/repo/src/lib.rs:41"],
        "and the quoted path's own name still picks the dialect"
    );

    let cmd = env(&format!("'{subl}' --project 'My Project.sublime-project'")).unwrap();
    assert_eq!(cmd.program, subl);
    assert_eq!(cmd.args, ["--project", "My Project.sublime-project", "/repo/src/lib.rs:41"]);

    let cmd = resolve(Platform::Other, Some("'/opt/my editor' --at {line} {file}"), None, None, P, 41).unwrap();
    assert_eq!(cmd.program, "/opt/my editor");
    assert_eq!(cmd.args, ["--at", "41", "/repo/src/lib.rs"]);

    assert_eq!(env("\"/opt/my editor").unwrap().program, "/opt/my editor");

    assert_eq!(resolve(Platform::Other, None, None, Some("'' vim"), P, 41), Err(NoEditor::NamesNoProgram));
}

#[test]
fn an_unknown_editor_opens_the_file_without_a_line() {
    assert_eq!(
        argv(&env("myeditor").unwrap()),
        "myeditor /repo/src/lib.rs",
        "guessing a flag an unknown editor may not accept would open a stray buffer"
    );
}

#[test]
fn visual_outranks_editor_and_blank_values_fall_through() {
    assert_eq!(
        argv(&resolve(Platform::Other, None, Some("hx"), Some("vim"), P, 41).unwrap()),
        "hx /repo/src/lib.rs:41"
    );
    assert_eq!(
        argv(&resolve(Platform::Other, None, Some("  "), Some("vim"), P, 41).unwrap()),
        "vim +41 /repo/src/lib.rs"
    );
    assert_eq!(resolve(Platform::Other, None, None, None, P, 41), Err(NoEditor::Unset), "no editor anywhere resolves nothing");
    assert_eq!(resolve(Platform::Other, None, Some(""), Some(" "), P, 41), Err(NoEditor::Unset));
    assert_eq!(resolve(Platform::Other, None, None, Some("\"\""), P, 41), Err(NoEditor::NamesNoProgram));
}

#[test]
fn the_config_template_owns_the_whole_command() {
    assert_eq!(
        argv(&resolve(Platform::Other, Some("code -g {file}:{line}"), None, Some("vim"), P, 41).unwrap()),
        "code -g /repo/src/lib.rs:41",
        "the configured template outranks the environment and takes no added flags"
    );
    assert_eq!(
        argv(&resolve(Platform::Other, Some("idea --line {line} --wait {file}"), None, None, P, 41).unwrap()),
        "idea --line 41 --wait /repo/src/lib.rs"
    );
    assert_eq!(
        argv(&resolve(Platform::Other, Some("hx"), None, None, P, 41).unwrap()),
        "hx /repo/src/lib.rs",
        "a template naming no placeholder still gets the path"
    );
    assert_eq!(
        argv(&resolve(Platform::Other, Some("myed {line} {file} {line}"), None, None, P, 41).unwrap()),
        "myed 41 /repo/src/lib.rs 41",
        "every occurrence substitutes"
    );
    assert_eq!(
        argv(&resolve(Platform::Other, Some("myed {file}:{line}"), None, None, "/repo/{line}.cshtml", 41).unwrap()),
        "myed /repo/{line}.cshtml:41",
        "a path that spells a placeholder stays a path"
    );
}

#[test]
fn a_file_placeholder_word_is_the_path_verbatim() {
    let cmd = resolve(Platform::Other, Some("ed {file}"), None, None, "/r/{file}{line}", 7).unwrap();
    assert_eq!(cmd.args, ["/r/{file}{line}"]);
    assert!(cmd.wants_terminal);
}

#[test]
fn a_large_line_renders_in_decimal() {
    let cmd = resolve(Platform::Other, None, None, Some("vim"), P, 4_294_967_295).unwrap();
    assert_eq!(cmd.args, ["+4294967295", "/repo/src/lib.rs"]);
}
