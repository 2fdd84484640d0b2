use cosmic_files::mime_app::{add_app_for_mime, app_order, add_association, exec_to_command, words_to_command, mark_default, remove_association, terminal_index, ExecCommand};

fn commands(exec: &str, paths: &[&str]) -> Vec<ExecCommand> {
    let paths: Vec<String> = paths.iter().map(|p| p.to_string()).collect();
    exec_to_command(exec, &paths).expect("Should parse valid exec")
}

#[test]
fn one_path_f_field_code() {
    let commands = commands("/usr/bin/foo %f", &["file1"]);
    assert_eq!(1, commands.len());
    let command = commands.first().unwrap();
    assert_eq!("/usr/bin/foo", command.program);
    assert_eq!("file1", command.args[0]);
}

#[test]
#[allow(non_snake_case)]
fn one_path_F_field_code() {
    let commands = commands("/usr/bin/bar %F", &["cat"]);
    assert_eq!(1, commands.len());
    let command = commands.first().unwrap();
    assert_eq!("/usr/bin/bar", command.program);
    assert_eq!("cat", command.args[0]);
}

#[test]
fn one_path_u_field_code() {
    let paths = ["/home/josh/krumpli"];
    let commands = commands("/usr/bin/foobar %u", &paths);
    assert_eq!(1, commands.len());
    let command = commands.first().unwrap();
    assert_eq!("/usr/bin/foobar", command.program);
    assert_eq!(paths[0], command.args[0]);
}

#[test]
#[allow(non_snake_case)]
fn one_path_U_field_code() {
    let commands = commands("/usr/bin/rmrfbye %U", &["/"]);
    assert_eq!(1, commands.len());
    let command = commands.first().unwrap();
    assert_eq!("/usr/bin/rmrfbye", command.program);
    assert_eq!("/", command.args[0]);
}

#[test]
fn mult_path_f_field_code() {
    let paths = ["/usr/share/games/psp/miku.iso", "/usr/share/games/psp/eternia.iso"];
    let commands = commands("/usr/games/ppsspp %f", &paths);
    assert_eq!(paths.len(), commands.len());
    for (command, path) in commands.into_iter().zip(paths.iter()) {
        assert_eq!("/usr/games/ppsspp", command.program);
        assert_eq!(1, command.args.len());
        assert_eq!(*path, command.args[0]);
    }
}

#[test]
#[allow(non_snake_case)]
fn mult_path_F_field_code() {
    let paths = ["/usr/share/games/doom2/hr.wad", "/usr/share/games/doom2/hrmus.wad"];
    let commands = commands("/usr/games/gzdoom %F", &paths);
    assert_eq!(1, commands.len());
    let command = commands.first().unwrap();
    assert_eq!("/usr/games/gzdoom", command.program);
    assert!(paths.iter().zip(command.args.iter()).all(|(&expected, actual)| expected == actual));
}

#[test]
fn mult_path_u_field_code() {
    let paths = ["file:///home/josh/Books/osstep.pdf", "https://redox-os.org/", "https://system76.com/"];
    let commands = commands("/usr/bin/cosmic_browser %u", &paths);
    assert_eq!(paths.len(), commands.len());
    for (command, path) in commands.into_iter().zip(paths.iter()) {
        assert_eq!("/usr/bin/cosmic_browser", command.program);
        assert_eq!(1, command.args.len());
        assert_eq!(*path, command.args[0]);
    }
}

#[test]
#[allow(non_snake_case)]
fn mult_path_U_field_code() {
    let paths = ["frieren01.mkv", "rtmp://example.org/this/video/doesnt/exist.avi"];
    let commands = commands("/usr/bin/mpv %U", &paths);
    assert_eq!(1, commands.len());
    let command = commands.first().unwrap();
    assert_eq!(paths.len(), command.args.len());
    assert_eq!("/usr/bin/mpv", command.program);
    assert!(paths.iter().zip(command.args.iter()).all(|(&expected, actual)| expected == actual));
}

#[test]
fn flatpak_style_exec() {
    let exec = "/usr/bin/flatpak run --branch=stable --command=ferris --file-forwarding org.joshfake.ferris @@u %U";
    let args = ["run", "--branch=stable", "--command=ferris", "--file-forwarding", "org.joshfake.ferris", "@@u"];
    let paths = ["file1.rs", "file2.rs"];
    let commands = commands(exec, &paths);
    assert_eq!(1, commands.len());
    let command = commands.first().unwrap();
    assert_eq!(args.len() + paths.len(), command.args.len());
    assert_eq!("/usr/bin/flatpak", command.program);
    assert!(args
        .iter()
        .chain(paths.iter())
        .zip(command.args.iter())
        .all(|(&expected, actual)| expected == actual));
}

#[test]
fn multiple_field_codes() {
    let paths = ["file:///usr/share/games/roguelike/mods/mod1", "file:///usr/share/games/roguelike/mods/mod2"];
    let commands = commands("/usr/games/roguelike %U %f", &paths);
    assert_eq!(1, commands.len());
    let command = commands.first().unwrap();
    assert_eq!("/usr/games/roguelike", command.program);
    assert!(paths.iter().zip(command.args.iter()).all(|(&expected, actual)| expected == actual));
}

#[test]
fn sandwiched_field_code() {
    let exec = "/usr/bin/flatpak run --branch=stable --arch=x86_64 --command=okular --file-forwarding org.kde.okular @@u %U @@";
    let args_leading = [
        "run",
        "--branch=stable",
        "--arch=x86_64",
        "--command=okular",
        "--file-forwarding",
        "org.kde.okular",
        "@@u",
    ];
    let paths = ["rust_game_dev.pdf", "superhero_ferris.epub"];
    let args_trailing = ["@@"];
    let commands = commands(exec, &paths);
    assert_eq!(1, commands.len());
    let command = commands.first().unwrap();
    assert_eq!(args_leading.len() + paths.len() + args_trailing.len(), command.args.len());
    assert_eq!("/usr/bin/flatpak", command.program);
    assert!(args_leading
        .iter()
        .chain(paths.iter())
        .chain(args_trailing.iter())
        .zip(command.args.iter())
        .all(|(&expected, actual)| expected == actual));
}

#[test]
fn unparsable_exec_line_gives_no_command() {
    let paths = vec!["a".to_string()];
    assert!(exec_to_command("foo \"unterminated", &paths).is_none());
    assert!(exec_to_command("", &paths).is_none());
}

#[test]
fn no_field_code_appends_nothing_per_path() {
    let cmds = commands("/usr/bin/plain --flag", &["x", "y"]);
    assert!(!cmds.is_empty());
    assert_eq!("/usr/bin/plain", cmds[0].program);
    assert_eq!("--flag", cmds[0].args[0]);
}

fn app(id: &str, file: &str) -> cosmic_files::mime_app::MimeApp {
    cosmic_files::mime_app::MimeApp {
        id: id.to_string(),
        path: Some(format!("/usr/share/applications/{}", file)),
        name: id.to_string(),
        exec_line: Some(format!("{} %f", id)),
        is_default: false,
        categories: vec![],
        no_display: false,
    }
}

#[test]
fn associations_add_remove_and_default() {
    let all = vec![app("a", "a.desktop"), app("b", "b.desktop"), app("c", "c.desktop")];
    let mut list = Vec::new();
    add_app_for_mime(&mut list, app("a", "a.desktop"));
    add_app_for_mime(&mut list, app("a", "a.desktop"));
    assert_eq!(list.len(), 1);
    assert!(add_association(&mut list, "b.desktop", &all));
    assert!(!add_association(&mut list, "b.desktop", &all));
    assert!(!add_association(&mut list, "zzz.desktop", &all));
    assert_eq!(list.iter().map(|a| a.id.as_str()).collect::<Vec<_>>(), ["a", "b"]);
    mark_default(&mut list, &vec!["zzz.desktop".to_string(), "b.desktop".to_string(), "a.desktop".to_string()]);
    assert_eq!(list.iter().map(|a| a.is_default).collect::<Vec<_>>(), [false, true]);
    mark_default(&mut list, &vec!["nothing.desktop".to_string()]);
    assert!(list.iter().all(|a| !a.is_default));
    remove_association(&mut list, "a.desktop");
    assert_eq!(list.iter().map(|a| a.id.as_str()).collect::<Vec<_>>(), ["b"]);
}

#[test]
fn terminal_preference() {
    let terms = vec![app("xterm", "xterm.desktop"), app("com.system76.CosmicTerm", "c.desktop"), app("kitty", "k.desktop")];
    assert_eq!(terminal_index(&terms, Some("kitty")), Some(2));
    assert_eq!(terminal_index(&terms, Some("missing")), Some(1));
    assert_eq!(terminal_index(&terms, None), Some(1));
    assert_eq!(terminal_index(&terms[..1].to_vec(), None), Some(0));
    assert_eq!(terminal_index(&vec![], None), None);
}

#[test]
fn desktop_file_ids_get_their_suffix() {
    assert_eq!(cosmic_files::mime_app::desktop_file_id("org.a".into()), "org.a.desktop");
    assert_eq!(cosmic_files::mime_app::desktop_file_id("org.a.desktop".into()), "org.a.desktop");
}

#[test]
fn default_terminal_answer_is_cleaned() {
    assert_eq!(cosmic_files::mime_app::default_terminal_id("  org.kitty.desktop\n"), "org.kitty");
    assert_eq!(cosmic_files::mime_app::default_terminal_id("a.desktop.desktopx"), "ax");
    assert_eq!(cosmic_files::mime_app::default_terminal_id(""), "");
}

#[test]
fn words_become_commands_without_the_shell_split() {
    let words: Vec<String> = ["app", "--new", "%u", "%d", "x"].iter().map(|s| s.to_string()).collect();
    let paths: Vec<String> = vec!["a".into(), "b".into()];
    let cmds = words_to_command(&words, &paths).unwrap();
    assert_eq!(cmds.len(), 2);
    assert_eq!(cmds[0].args, vec!["--new".to_string(), "a".to_string(), "x".to_string()]);
    assert_eq!(cmds[1].args, vec!["--new".to_string(), "b".to_string(), "x".to_string()]);
    let bad: Vec<String> = ["app", "%F", "%z"].iter().map(|s| s.to_string()).collect();
    assert!(words_to_command(&bad, &paths).is_none());
    assert!(words_to_command(&vec![], &paths).is_none());
    let none: Vec<String> = ["app", "-v"].iter().map(|s| s.to_string()).collect();
    assert_eq!(words_to_command(&none, &paths).unwrap()[0].args, vec!["-v".to_string()]);
}

#[test]
fn default_applications_are_listed_first_then_by_name() {
    let mut apps = vec![app("zed", "zed.desktop"), app("atom", "atom.desktop"), app("vim", "vim.desktop")];
    apps[2].is_default = true;
    assert_eq!(app_order(&apps, &vec![2, 0, 1]), vec![2, 1, 0]);
    assert_eq!(app_order(&apps, &vec![0, 0, 0]), vec![2, 0, 1]);
    assert_eq!(app_order(&vec![], &vec![]), Vec::<usize>::new());
}
