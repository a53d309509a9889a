use desktop_lister::decode::{read_entry, read_fields, Undecodable};
use desktop_lister::entry::{flatten, ActionFields, EntryFields};
use freedesktop_desktop_entry::DesktopEntry;
use std::path::Path;

const PATH: &str = "/usr/share/applications/foo.desktop";

fn text(s: &str) -> Option<String> {
    Some(String::from(s))
}

fn lines_of(path: &str, contents: &str) -> Vec<String> {
    let fields = read_entry(path, contents).unwrap();
    flatten(&fields).unwrap().iter().map(|r| r.to_line()).collect()
}

#[test]
fn plain_entry_round_trip() {
    let contents = "[Desktop Entry]\nName=Foo\nComment=Bar\nExec=foo --flag\nTerminal=false\n";
    assert_eq!(
        lines_of(PATH, contents),
        vec!["/usr/share/applications/foo.desktop\tFoo\tBar\tfoo --flag\tfalse"]
    );
}

#[test]
fn hidden_entry_with_one_action_gives_one_line() {
    let contents = "[Desktop Entry]\nName=Foo\nActions=open;\nNoDisplay=true\n\n\
        [Desktop Action open]\nName=Open\nExec=foo --open\n";
    assert_eq!(
        lines_of(PATH, contents),
        vec!["/usr/share/applications/foo.desktop\tFoo (Open)\t\tfoo --open\tfalse"]
    );
}

#[test]
fn hidden_entry_with_one_action_in_a_terminal() {
    let contents = "[Desktop Entry]\nName=Foo\nActions=open;\nNoDisplay=true\nTerminal=true\n\
        [Desktop Action open]\nName=Open\nExec=foo --open\n";
    assert_eq!(
        lines_of(PATH, contents),
        vec!["/usr/share/applications/foo.desktop\tFoo (Open)\t\tfoo --open\ttrue"]
    );
}

#[test]
fn fields_of_a_full_entry() {
    let contents = "# a launcher\n[Desktop Entry]\nType=Application\nName=Foo\nComment=Bar\n\
        Exec=foo %U\nTerminal=true\nNoDisplay=true\nActions=new;;private;\n\n\
        [Desktop Action new]\nName=New Window\nExec=foo --new\n\n\
        [Desktop Action private]\nName=Private Window\nExec=foo --private\n";
    let fields = read_entry(PATH, contents).unwrap();
    assert_eq!(
        fields,
        EntryFields {
            path: String::from(PATH),
            name: text("Foo"),
            comment: text("Bar"),
            command: text("foo %U"),
            terminal: true,
            no_display: true,
            actions: vec![
                ActionFields {
                    id: String::from("new"),
                    name: text("New Window"),
                    command: text("foo --new"),
                },
                ActionFields {
                    id: String::from("private"),
                    name: text("Private Window"),
                    command: text("foo --private"),
                },
            ],
        }
    );
}

#[test]
fn absent_keys_are_absent_fields() {
    let fields = read_entry(PATH, "[Desktop Entry]\nType=Application\n").unwrap();
    assert_eq!(
        fields,
        EntryFields {
            path: String::from(PATH),
            name: None,
            comment: None,
            command: None,
            terminal: false,
            no_display: false,
            actions: Vec::new(),
        }
    );
}

#[test]
fn empty_text_decodes_to_an_entry_without_fields() {
    let fields = read_entry(PATH, "").unwrap();
    assert_eq!(fields.name, None);
    assert_eq!(fields.command, None);
    assert!(fields.actions.is_empty());
}

#[test]
fn keys_outside_the_main_group_are_not_the_entry_s() {
    let contents = "[Other]\nName=Other\nExec=other\nTerminal=true\nActions=a;\n\
        [Desktop Entry]\nName=Foo\n";
    let fields = read_entry(PATH, contents).unwrap();
    assert_eq!(fields.name, text("Foo"));
    assert_eq!(fields.command, None);
    assert!(!fields.terminal);
    assert!(fields.actions.is_empty());
}

#[test]
fn flags_are_set_only_by_the_text_true() {
    let fields = read_entry(PATH, "[Desktop Entry]\nTerminal=True\nNoDisplay=1\n").unwrap();
    assert!(!fields.terminal);
    assert!(!fields.no_display);
    let fields = read_entry(PATH, "[Desktop Entry]\nTerminal=true\nNoDisplay=false\n").unwrap();
    assert!(fields.terminal);
    assert!(!fields.no_display);
    let fields = read_entry(PATH, "[Desktop Entry]\nTerminal=false\nNoDisplay=true\n").unwrap();
    assert!(!fields.terminal);
    assert!(fields.no_display);
}

#[test]
fn english_texts_are_preferred() {
    let contents = "[Desktop Entry]\nName=Plain\nName[de]=Deutsch\nName[en]=English\n\
        Comment=Plain comment\nComment[en]=English comment\nExec=foo\nActions=a;\n\
        [Desktop Action a]\nName=Plain action\nName[en]=English action\nExec=foo -a\n";
    let fields = read_entry(PATH, contents).unwrap();
    assert_eq!(fields.name, text("English"));
    assert_eq!(fields.comment, text("English comment"));
    assert_eq!(fields.actions[0].name, text("English action"));
}

#[test]
fn plain_texts_stand_in_where_no_english_text_is_given() {
    let contents = "[Desktop Entry]\nName=Plain\nName[de]=Deutsch\nComment[fr]=Français\n\
        Comment=Plain comment\nExec=foo\nActions=a;\n\
        [Desktop Action a]\nName[de]=Aktion\nName=Plain action\nExec=foo -a\n";
    let fields = read_entry(PATH, contents).unwrap();
    assert_eq!(fields.name, text("Plain"));
    assert_eq!(fields.comment, text("Plain comment"));
    assert_eq!(fields.actions[0].name, text("Plain action"));
}

#[test]
fn a_key_with_only_localized_values_has_an_empty_plain_value() {
    let contents = "[Desktop Entry]\nName[de]=Deutsch\nExec=foo\n";
    let fields = read_entry(PATH, contents).unwrap();
    assert_eq!(fields.name, text(""));
}

#[test]
fn english_texts_are_preferred_in_an_entry_with_a_gettext_domain() {
    let contents = "[Desktop Entry]\nName=Files\nName[en]=English Files\nComment=Browse\n\
        Comment[en]=English Browse\nExec=files\nActions=new;\n\
        X-Ubuntu-Gettext-Domain=no-such-domain\n\
        [Desktop Action new]\nName=New Window\nName[en]=English New Window\nExec=files -n\n";
    assert_eq!(
        lines_of(PATH, contents),
        vec![
            "/usr/share/applications/foo.desktop\tEnglish Files (English New Window)\t\
             English Browse\tfiles -n\tfalse",
            "/usr/share/applications/foo.desktop\tEnglish Files\tEnglish Browse\tfiles\tfalse",
        ]
    );
}

#[test]
fn hidden_entry_with_a_gettext_domain_lists_its_actions_with_english_texts() {
    let contents = "[Desktop Entry]\nX-Ubuntu-Gettext-Domain=d\nName=Files\n\
        Name[en]=English Files\nComment[en]=English Browse\nNoDisplay=true\nActions=new;\n\
        [Desktop Action new]\nName=New Window\nName[en]=English New Window\nExec=files -n\n";
    assert_eq!(
        lines_of(PATH, contents),
        vec![
            "/usr/share/applications/foo.desktop\tEnglish Files (English New Window)\t\
             English Browse\tfiles -n\tfalse",
        ]
    );
}

#[test]
fn plain_texts_are_read_from_an_entry_with_a_gettext_domain_and_no_english_text() {
    let contents = "[Desktop Entry]\nName=Files\nName[de]=Dateien\nComment=Browse\n\
        Exec=files\nActions=new;\nX-Ubuntu-Gettext-Domain=no-such-domain\n\
        [Desktop Action new]\nName=New Window\nName[de]=Neues Fenster\nExec=files -n\n";
    assert_eq!(
        lines_of(PATH, contents),
        vec![
            "/usr/share/applications/foo.desktop\tFiles (New Window)\tBrowse\tfiles -n\tfalse",
            "/usr/share/applications/foo.desktop\tFiles\tBrowse\tfiles\tfalse",
        ]
    );
}

#[test]
fn english_and_plain_texts_may_mix_in_an_entry_with_a_gettext_domain() {
    let contents = "[Desktop Entry]\nX-Ubuntu-Gettext-Domain=d\nName=Files\n\
        Comment=Browse\nComment[en]=English Browse\nExec=files\nActions=a;b;\n\
        [Desktop Action a]\nName=A\nName[en]=English A\nExec=a\n\
        [Desktop Action b]\nName=B\nExec=b\n";
    let fields = read_entry(PATH, contents).unwrap();
    assert_eq!(fields.name, text("Files"));
    assert_eq!(fields.comment, text("English Browse"));
    assert_eq!(fields.actions[0].name, text("English A"));
    assert_eq!(fields.actions[1].name, text("B"));
}

#[test]
fn entry_with_a_gettext_domain_may_lack_fields() {
    let contents = "[Desktop Entry]\nX-Ubuntu-Gettext-Domain=d\nActions=a;\n";
    let fields = read_entry(PATH, contents).unwrap();
    assert_eq!(fields.name, None);
    assert_eq!(fields.comment, None);
    assert_eq!(fields.actions.len(), 1);
    assert_eq!(fields.actions[0].name, None);
    assert_eq!(fields.actions[0].command, None);
}

#[test]
fn declared_action_without_a_group_lacks_its_fields() {
    let contents = "[Desktop Entry]\nName=Foo\nExec=foo\nActions=ghost;\n";
    let fields = read_entry(PATH, contents).unwrap();
    assert_eq!(
        fields.actions,
        vec![ActionFields { id: String::from("ghost"), name: None, command: None }]
    );
}

#[test]
fn action_groups_that_are_not_declared_are_ignored() {
    let contents = "[Desktop Entry]\nName=Foo\nExec=foo\n\
        [Desktop Action hidden]\nName=Hidden\nExec=foo -h\n";
    let fields = read_entry(PATH, contents).unwrap();
    assert!(fields.actions.is_empty());
}

#[test]
fn actions_are_read_in_the_order_of_their_declaration() {
    let contents = "[Desktop Action a]\nName=A\nExec=a\n[Desktop Action b]\nName=B\nExec=b\n\
        [Desktop Entry]\nName=Foo\nExec=foo\nActions=b;a;b;\n";
    let fields = read_entry(PATH, contents).unwrap();
    let ids: Vec<&str> = fields.actions.iter().map(|a| a.id.as_str()).collect();
    assert_eq!(ids, vec!["b", "a", "b"]);
    assert_eq!(
        lines_of(PATH, contents),
        vec![
            "/usr/share/applications/foo.desktop\tFoo (B)\t\tb\tfalse",
            "/usr/share/applications/foo.desktop\tFoo (A)\t\ta\tfalse",
            "/usr/share/applications/foo.desktop\tFoo (B)\t\tb\tfalse",
            "/usr/share/applications/foo.desktop\tFoo\t\tfoo\tfalse",
        ]
    );
}

#[test]
fn number_of_action_lines_is_number_of_non_empty_segments() {
    let lists = ["", ";", "a", "a;", "a;b", ";a;;b;;c;", "a;a;a;a", ";;;;c"];
    for list in lists {
        for hidden in ["false", "true"] {
            let contents = format!(
                "[Desktop Entry]\nName=Foo\nExec=foo\nNoDisplay={}\nActions={}\n\
                 [Desktop Action a]\nName=A\nExec=a\n[Desktop Action b]\nName=B\nExec=b\n\
                 [Desktop Action c]\nName=C\nExec=c\n",
                hidden, list
            );
            let segments = list.split(';').filter(|s| !s.is_empty()).count();
            let lines = lines_of(PATH, &contents);
            let own = if hidden == "true" { 0 } else { 1 };
            assert_eq!(lines.len(), segments + own, "list {:?}", list);
            let action_lines = lines.iter().filter(|l| l.contains("\tFoo (")).count();
            assert_eq!(action_lines, segments, "list {:?}", list);
        }
    }
}

#[test]
fn path_is_kept_as_given() {
    let contents = "[Desktop Entry]\nName=Foo\nExec=foo\n";
    assert_eq!(read_entry("foo.desktop", contents).unwrap().path, "foo.desktop");
    assert_eq!(read_entry("./a b/ü.desktop", contents).unwrap().path, "./a b/ü.desktop");
    assert_eq!(read_entry("/x/noextension", contents).unwrap().path, "/x/noextension");
}

#[test]
fn path_without_a_file_name_is_refused() {
    let contents = "[Desktop Entry]\nName=Foo\nExec=foo\n";
    assert_eq!(read_entry("..", contents), Err(Undecodable::NoAppId));
    assert_eq!(read_entry("/", contents), Err(Undecodable::NoAppId));
    assert_eq!(read_entry("", contents), Err(Undecodable::NoAppId));
    assert_eq!(read_entry("/usr/share/..", contents), Err(Undecodable::NoAppId));
}

#[test]
fn line_that_assigns_to_no_key_is_refused() {
    assert_eq!(read_entry(PATH, "[Desktop Entry]\nName=Foo\n=bar\n"), Err(Undecodable::EmptyKey));
    assert_eq!(read_entry(PATH, "  =\n"), Err(Undecodable::EmptyKey));
    assert_eq!(read_entry("..", "=x"), Err(Undecodable::EmptyKey));
}

#[test]
fn odd_lines_that_the_decoder_accepts() {
    let contents = "garbage without equals\n[unterminated\n[Desktop Entry]\n  Name=Foo  \n\
        # Exec=no\nExec=foo=bar\n[]\n";
    let fields = read_entry(PATH, contents).unwrap();
    assert_eq!(fields.name, text("Foo"));
    assert_eq!(fields.command, text("foo=bar"));
}

#[test]
fn windows_line_endings_are_accepted() {
    let contents = "[Desktop Entry]\r\nName=Foo\r\nExec=foo\r\nTerminal=true\r\n";
    assert_eq!(
        lines_of(PATH, contents),
        vec!["/usr/share/applications/foo.desktop\tFoo\t\tfoo\ttrue"]
    );
}

#[test]
fn read_fields_agrees_with_the_decoder_s_accessors() {
    let contents = "[Desktop Entry]\nName=Plain\nName[en]=English\nComment=C\nExec=foo\n\
        Terminal=true\nActions=a;b;\n[Desktop Action a]\nName=A\nName[en]=EA\nExec=foo -a\n\
        [Desktop Action b]\nName=B\n";
    let entry = DesktopEntry::decode(Path::new(PATH), contents).unwrap();
    let fields = read_fields(PATH, &entry);
    assert_eq!(fields.path, PATH);
    assert_eq!(fields.name.as_deref(), entry.name(Some("en")).as_deref());
    assert_eq!(fields.comment.as_deref(), entry.comment(Some("en")).as_deref());
    assert_eq!(fields.command.as_deref(), entry.exec());
    assert_eq!(fields.terminal, entry.terminal());
    assert_eq!(fields.no_display, entry.no_display());
    assert_eq!(fields.actions.len(), 2);
    for action in &fields.actions {
        assert_eq!(action.name.as_deref(), entry.action_name(&action.id, Some("en")).as_deref());
        assert_eq!(action.command.as_deref(), entry.action_exec(&action.id));
    }
    assert_eq!(fields.actions[0].name, text("EA"));
    assert_eq!(fields.actions[1].command, None);
}

#[test]
fn read_fields_agrees_with_the_decoder_where_english_texts_are_given() {
    let contents = "[Desktop Entry]\nX-Ubuntu-Gettext-Domain=d\nName=Plain\nName[en]=English\n\
        Comment=C\nComment[en]=EC\nExec=foo\nActions=a;\n\
        [Desktop Action a]\nName=A\nName[en]=EA\nExec=foo -a\n";
    let entry = DesktopEntry::decode(Path::new(PATH), contents).unwrap();
    let fields = read_fields(PATH, &entry);
    assert_eq!(fields.name.as_deref(), entry.name(Some("en")).as_deref());
    assert_eq!(fields.comment.as_deref(), entry.comment(Some("en")).as_deref());
    assert_eq!(fields.actions[0].name.as_deref(), entry.action_name("a", Some("en")).as_deref());
    assert_eq!(fields.name, text("English"));
    assert_eq!(fields.comment, text("EC"));
    assert_eq!(fields.actions[0].name, text("EA"));
}
