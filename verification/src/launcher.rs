//! The programs in which a project can be opened.
use crate::text::{cat, cat3, same_text};
use vstd::prelude::*;
use vstd::string::*;

verus! {

/// A way to open a project.
#[derive(Debug)]
pub struct OpenMethod {
    pub label: String,
    pub program: String,
    pub arguments: Vec<String>,
    pub pass_project_path: bool,
    pub use_project_as_working_directory: bool,
}

pub struct OpenMethodView {
    pub label: Seq<char>,
    pub program: Seq<char>,
    pub arguments: Seq<Seq<char>>,
    pub pass_project_path: bool,
    pub use_project_as_working_directory: bool,
}

impl DeepView for OpenMethod {
    type V = OpenMethodView;

    open spec fn deep_view(&self) -> OpenMethodView {
        OpenMethodView {
            label: self.label@,
            program: self.program@,
            arguments: self.arguments.deep_view(),
            pass_project_path: self.pass_project_path,
            use_project_as_working_directory: self.use_project_as_working_directory,
        }
    }
}

/// A command to start: the program, its arguments and where it runs.
#[derive(Debug)]
pub struct Launch {
    pub program: String,
    pub arguments: Vec<String>,
    pub directory: Option<String>,
}

impl OpenMethod {
    pub fn new(
        label: &str,
        program: String,
        arguments: Vec<String>,
        pass_project_path: bool,
        use_project_as_working_directory: bool,
    ) -> (r: OpenMethod)
        ensures
            r.deep_view() == (OpenMethodView {
                label: label@,
                program: program@,
                arguments: arguments.deep_view(),
                pass_project_path,
                use_project_as_working_directory,
            }),
    {
        OpenMethod {
            label: label.to_owned(),
            program,
            arguments,
            pass_project_path,
            use_project_as_working_directory,
        }
    }

    pub fn label(&self) -> (r: &str)
        ensures
            r@ == self.deep_view().label,
    {
        self.label.as_str()
    }

    /// The command that opens a project, given whether the project is a
    /// folder.
    pub fn open(&self, project_path: &str, is_folder: bool) -> (r: Result<Launch, String>)
        ensures
            match r {
                Ok(launch) => {
                    &&& is_folder
                    &&& launch.program@ == self.program@
                    &&& launch.arguments.deep_view() == if self.pass_project_path {
                        self.arguments.deep_view().push(project_path@)
                    } else {
                        self.arguments.deep_view()
                    }
                    &&& launch.directory.deep_view() == if self.use_project_as_working_directory {
                        Some(project_path@)
                    } else {
                        None
                    }
                },
                Err(message) => !is_folder && message@ == "Project folder does not exist: "@
                    + project_path@,
            },
    {
        if !is_folder {
            return Err(cat("Project folder does not exist: ", project_path));
        }
        let mut arguments: Vec<String> = Vec::new();
        let mut i: usize = 0;
        while i < self.arguments.len()
            invariant
                i <= self.arguments@.len(),
                arguments.deep_view() == self.arguments.deep_view().take(i as int),
            decreases self.arguments@.len() - i,
        {
            let ghost before = arguments.deep_view();
            arguments.push(self.arguments[i].clone());
            proof {
                assert(arguments.deep_view() =~= before.push(self.arguments.deep_view()[i as int]));
                assert(self.arguments.deep_view().take(i as int + 1) =~= before.push(
                    self.arguments.deep_view()[i as int],
                ));
            }
            i += 1;
        }
        proof {
            assert(arguments.deep_view() =~= self.arguments.deep_view());
        }
        if self.pass_project_path {
            let ghost before = arguments.deep_view();
            arguments.push(project_path.to_owned());
            assert(arguments.deep_view() =~= before.push(project_path@));
        }
        let directory: Option<String> = if self.use_project_as_working_directory {
            Some(project_path.to_owned())
        } else {
            None
        };
        Ok(Launch { program: self.program.clone(), arguments, directory })
    }

    /// The text for a program that did not start.
    pub fn launch_error(&self, error: &str) -> (r: String)
        ensures
            r@ == "Could not open project in "@ + self.deep_view().label + ": "@ + error@,
    {
        let start = cat3("Could not open project in ", self.label.as_str(), ": ");
        cat(start.as_str(), error)
    }
}

/// The methods with one more at the end, where its program was found.
pub open spec fn with_found(
    methods: Seq<OpenMethodView>,
    label: Seq<char>,
    program: Option<Seq<char>>,
    arguments: Seq<Seq<char>>,
    in_project: bool,
) -> Seq<OpenMethodView> {
    match program {
        Some(program) => methods.push(
            OpenMethodView {
                label,
                program,
                arguments,
                pass_project_path: !in_project,
                use_project_as_working_directory: in_project,
            },
        ),
        None => methods,
    }
}

fn add_found(
    methods: &mut Vec<OpenMethod>,
    label: &str,
    program: Option<String>,
    arguments: Vec<String>,
    in_project: bool,
)
    ensures
        final(methods).deep_view() == with_found(
            old(methods).deep_view(),
            label@,
            program.deep_view(),
            arguments.deep_view(),
            in_project,
        ),
{
    match program {
        Some(program) => {
            let ghost before = methods.deep_view();
            let method = OpenMethod::new(label, program, arguments, !in_project, in_project);
            methods.push(method);
            assert(methods.deep_view() =~= before.push(method.deep_view()));
        },
        None => {},
    }
}

/// Two texts as arguments.
pub open spec fn two(a: Seq<char>, b: Seq<char>) -> Seq<Seq<char>> {
    seq![a, b]
}

fn no_arguments() -> (r: Vec<String>)
    ensures
        r.deep_view() == Seq::<Seq<char>>::empty(),
{
    let r: Vec<String> = Vec::new();
    assert(r.deep_view() =~= Seq::<Seq<char>>::empty());
    r
}

fn one_argument(a: &str) -> (r: Vec<String>)
    ensures
        r.deep_view() == seq![a@],
{
    let mut r: Vec<String> = Vec::new();
    r.push(a.to_owned());
    assert(r.deep_view() =~= seq![a@]);
    r
}

fn two_arguments(a: &str, b: &str) -> (r: Vec<String>)
    ensures
        r.deep_view() == two(a@, b@),
{
    let mut r: Vec<String> = Vec::new();
    r.push(a.to_owned());
    r.push(b.to_owned());
    assert(r.deep_view() =~= two(a@, b@));
    r
}

/// The programs that were found on Windows.
pub struct WindowsPrograms {
    pub code: Option<String>,
    pub cursor: Option<String>,
    pub explorer: Option<String>,
    pub powershell: Option<String>,
    pub command_prompt: Option<String>,
    pub terminal: Option<String>,
}

/// The methods on Windows.
pub open spec fn windows_list(found: WindowsPrograms) -> Seq<OpenMethodView> {
    let none = Seq::<Seq<char>>::empty();
    let m = with_found(
        Seq::empty(),
        "Visual Studio Code"@,
        found.code.deep_view(),
        none,
        false,
    );
    let m = with_found(m, "Cursor"@, found.cursor.deep_view(), none, false);
    let m = with_found(m, "File Explorer"@, found.explorer.deep_view(), none, false);
    let m = with_found(m, "PowerShell"@, found.powershell.deep_view(), seq!["-NoExit"@], true);
    let m = with_found(
        m,
        "Command Prompt"@,
        found.command_prompt.deep_view(),
        two("/D"@, "/K"@),
        true,
    );
    with_found(m, "Windows Terminal"@, found.terminal.deep_view(), seq!["-d"@], false)
}

pub fn windows_methods(found: WindowsPrograms) -> (r: Vec<OpenMethod>)
    ensures
        r.deep_view() == windows_list(found),
{
    let mut m: Vec<OpenMethod> = Vec::new();
    assert(m.deep_view() =~= Seq::<OpenMethodView>::empty());
    add_found(&mut m, "Visual Studio Code", found.code, no_arguments(), false);
    add_found(&mut m, "Cursor", found.cursor, no_arguments(), false);
    add_found(&mut m, "File Explorer", found.explorer, no_arguments(), false);
    add_found(&mut m, "PowerShell", found.powershell, one_argument("-NoExit"), true);
    add_found(&mut m, "Command Prompt", found.command_prompt, two_arguments("/D", "/K"), true);
    add_found(&mut m, "Windows Terminal", found.terminal, one_argument("-d"), false);
    m
}

/// The programs and applications that were found on a Mac.
pub struct MacPrograms {
    pub open: Option<String>,
    pub code: Option<String>,
    pub cursor: Option<String>,
    pub has_code: bool,
    pub has_cursor: bool,
    pub has_terminal: bool,
    pub has_iterm: bool,
}

/// The methods with an application at the end that is opened by name, where it
/// is there.
pub open spec fn with_application(
    methods: Seq<OpenMethodView>,
    label: Seq<char>,
    there: bool,
    open: Option<Seq<char>>,
) -> Seq<OpenMethodView> {
    if there {
        with_found(methods, label, open, two("-a"@, label), false)
    } else {
        methods
    }
}

/// The methods with an editor at the end: by its own command, else by name.
pub open spec fn with_editor(
    methods: Seq<OpenMethodView>,
    label: Seq<char>,
    command: Option<Seq<char>>,
    there: bool,
    open: Option<Seq<char>>,
) -> Seq<OpenMethodView> {
    if command is Some {
        with_found(methods, label, command, Seq::empty(), false)
    } else {
        with_application(methods, label, there, open)
    }
}

/// The methods on a Mac.
pub open spec fn mac_list(found: MacPrograms) -> Seq<OpenMethodView> {
    let open = found.open.deep_view();
    let m = with_editor(
        Seq::empty(),
        "Visual Studio Code"@,
        found.code.deep_view(),
        found.has_code,
        open,
    );
    let m = with_editor(m, "Cursor"@, found.cursor.deep_view(), found.has_cursor, open);
    let m = with_application(m, "Terminal"@, found.has_terminal, open);
    let m = with_application(m, "iTerm"@, found.has_iterm, open);
    with_found(m, "Finder"@, open, Seq::empty(), false)
}

fn add_application(methods: &mut Vec<OpenMethod>, label: &str, there: bool, open: &Option<String>)
    ensures
        final(methods).deep_view() == with_application(
            old(methods).deep_view(),
            label@,
            there,
            open.deep_view(),
        ),
{
    if there {
        let program: Option<String> = match open {
            Some(program) => Some(program.clone()),
            None => None,
        };
        add_found(methods, label, program, two_arguments("-a", label), false);
    }
}

fn add_editor(
    methods: &mut Vec<OpenMethod>,
    label: &str,
    command: Option<String>,
    there: bool,
    open: &Option<String>,
)
    ensures
        final(methods).deep_view() == with_editor(
            old(methods).deep_view(),
            label@,
            command.deep_view(),
            there,
            open.deep_view(),
        ),
{
    if command.is_some() {
        add_found(methods, label, command, no_arguments(), false);
    } else {
        add_application(methods, label, there, open);
    }
}

pub fn mac_methods(found: MacPrograms) -> (r: Vec<OpenMethod>)
    ensures
        r.deep_view() == mac_list(found),
{
    let mut m: Vec<OpenMethod> = Vec::new();
    assert(m.deep_view() =~= Seq::<OpenMethodView>::empty());
    add_editor(&mut m, "Visual Studio Code", found.code, found.has_code, &found.open);
    add_editor(&mut m, "Cursor", found.cursor, found.has_cursor, &found.open);
    add_application(&mut m, "Terminal", found.has_terminal, &found.open);
    add_application(&mut m, "iTerm", found.has_iterm, &found.open);
    add_found(&mut m, "Finder", found.open, no_arguments(), false);
    m
}

/// The programs that were found on another Unix.
pub struct UnixPrograms {
    pub code: Option<String>,
    pub codium: Option<String>,
    pub cursor: Option<String>,
    pub files: Option<String>,
    pub console: Option<String>,
    pub gnome_terminal: Option<String>,
    pub konsole: Option<String>,
    pub xfce_terminal: Option<String>,
    pub alacritty: Option<String>,
    pub kitty: Option<String>,
    pub xterm: Option<String>,
}

pub open spec fn unix_editors(found: UnixPrograms) -> Seq<OpenMethodView> {
    let none = Seq::<Seq<char>>::empty();
    let m = with_found(Seq::empty(), "Visual Studio Code"@, found.code.deep_view(), none, false);
    let m = with_found(m, "VSCodium"@, found.codium.deep_view(), none, false);
    let m = with_found(m, "Cursor"@, found.cursor.deep_view(), none, false);
    with_found(m, "Files"@, found.files.deep_view(), none, false)
}

/// The methods on another Unix: editors and the file manager are given the
/// project's path, terminals start in the project.
pub open spec fn unix_list(found: UnixPrograms) -> Seq<OpenMethodView> {
    let none = Seq::<Seq<char>>::empty();
    let m = with_found(
        unix_editors(found),
        "Terminal"@,
        found.console.deep_view(),
        none,
        true,
    );
    let m = with_found(m, "GNOME Terminal"@, found.gnome_terminal.deep_view(), none, true);
    let m = with_found(m, "Konsole"@, found.konsole.deep_view(), none, true);
    let m = with_found(m, "Xfce Terminal"@, found.xfce_terminal.deep_view(), none, true);
    let m = with_found(m, "Alacritty"@, found.alacritty.deep_view(), none, true);
    let m = with_found(m, "Kitty"@, found.kitty.deep_view(), none, true);
    with_found(m, "xterm"@, found.xterm.deep_view(), none, true)
}

pub fn unix_methods(found: UnixPrograms) -> (r: Vec<OpenMethod>)
    ensures
        r.deep_view() == unix_list(found),
{
    let mut m: Vec<OpenMethod> = Vec::new();
    assert(m.deep_view() =~= Seq::<OpenMethodView>::empty());
    add_found(&mut m, "Visual Studio Code", found.code, no_arguments(), false);
    add_found(&mut m, "VSCodium", found.codium, no_arguments(), false);
    add_found(&mut m, "Cursor", found.cursor, no_arguments(), false);
    add_found(&mut m, "Files", found.files, no_arguments(), false);
    add_found(&mut m, "Terminal", found.console, no_arguments(), true);
    add_found(&mut m, "GNOME Terminal", found.gnome_terminal, no_arguments(), true);
    add_found(&mut m, "Konsole", found.konsole, no_arguments(), true);
    add_found(&mut m, "Xfce Terminal", found.xfce_terminal, no_arguments(), true);
    add_found(&mut m, "Alacritty", found.alacritty, no_arguments(), true);
    add_found(&mut m, "Kitty", found.kitty, no_arguments(), true);
    add_found(&mut m, "xterm", found.xterm, no_arguments(), true);
    m
}

/// No two methods have one label, and all labels are among these.
pub open spec fn labelled_within(methods: Seq<OpenMethodView>, labels: Seq<Seq<char>>) -> bool {
    &&& forall|i: int, j: int| 0 <= i < j < methods.len() ==> methods[i].label != methods[j].label
    &&& forall|i: int| 0 <= i < methods.len() ==> labels.contains(#[trigger] methods[i].label)
}

/// No two methods have one label.
pub open spec fn distinct_labels(methods: Seq<OpenMethodView>) -> bool {
    forall|i: int, j: int| 0 <= i < j < methods.len() ==> methods[i].label != methods[j].label
}

proof fn lemma_adding_keeps_labels_apart(
    methods: Seq<OpenMethodView>,
    labels: Seq<Seq<char>>,
    label: Seq<char>,
    program: Option<Seq<char>>,
    arguments: Seq<Seq<char>>,
    in_project: bool,
)
    requires
        labelled_within(methods, labels),
        !labels.contains(label),
    ensures
        labelled_within(
            with_found(methods, label, program, arguments, in_project),
            labels.push(label),
        ),
        labelled_within(methods, labels.push(label)),
{
    let more = labels.push(label);
    assert forall|l: Seq<char>| labels.contains(l) implies more.contains(l) by {
        let k = choose|k: int| 0 <= k < labels.len() && labels[k] == l;
        assert(more[k] == l);
    }
    assert(more[labels.len() as int] == label);
}

/// Every list of methods offers each label at most once.
pub proof fn lemma_methods_are_unique(
    windows: WindowsPrograms,
    mac: MacPrograms,
    unix: UnixPrograms,
)
    ensures
        distinct_labels(windows_list(windows)),
        distinct_labels(mac_list(mac)),
        distinct_labels(unix_list(unix)),
{
    lemma_windows_labels(windows);
    lemma_mac_labels(mac);
    lemma_unix_labels(unix);
}

proof fn lemma_windows_labels(found: WindowsPrograms)
    ensures
        distinct_labels(windows_list(found)),
{
    reveal_strlit("Visual Studio Code");
    reveal_strlit("Cursor");
    reveal_strlit("File Explorer");
    reveal_strlit("PowerShell");
    reveal_strlit("Command Prompt");
    reveal_strlit("Windows Terminal");
    let none = Seq::<Seq<char>>::empty();
    let e = Seq::<OpenMethodView>::empty();
    let l0 = Seq::<Seq<char>>::empty();
    lemma_adding_keeps_labels_apart(e, l0, "Visual Studio Code"@, found.code.deep_view(), none, false);
    let m = with_found(e, "Visual Studio Code"@, found.code.deep_view(), none, false);
    let l1 = l0.push("Visual Studio Code"@);
    assert("Cursor"@.len() == 6 && "Visual Studio Code"@.len() == 18);
    lemma_adding_keeps_labels_apart(m, l1, "Cursor"@, found.cursor.deep_view(), none, false);
    let m = with_found(m, "Cursor"@, found.cursor.deep_view(), none, false);
    let l2 = l1.push("Cursor"@);
    assert("File Explorer"@.len() == 13);
    lemma_adding_keeps_labels_apart(m, l2, "File Explorer"@, found.explorer.deep_view(), none, false);
    let m = with_found(m, "File Explorer"@, found.explorer.deep_view(), none, false);
    let l3 = l2.push("File Explorer"@);
    assert("PowerShell"@.len() == 10);
    lemma_adding_keeps_labels_apart(
        m,
        l3,
        "PowerShell"@,
        found.powershell.deep_view(),
        seq!["-NoExit"@],
        true,
    );
    let m = with_found(m, "PowerShell"@, found.powershell.deep_view(), seq!["-NoExit"@], true);
    let l4 = l3.push("PowerShell"@);
    assert("Command Prompt"@.len() == 14);
    lemma_adding_keeps_labels_apart(
        m,
        l4,
        "Command Prompt"@,
        found.command_prompt.deep_view(),
        two("/D"@, "/K"@),
        true,
    );
    let m = with_found(
        m,
        "Command Prompt"@,
        found.command_prompt.deep_view(),
        two("/D"@, "/K"@),
        true,
    );
    let l5 = l4.push("Command Prompt"@);
    assert("Windows Terminal"@.len() == 16);
    lemma_adding_keeps_labels_apart(
        m,
        l5,
        "Windows Terminal"@,
        found.terminal.deep_view(),
        seq!["-d"@],
        false,
    );
}

proof fn lemma_mac_labels(found: MacPrograms)
    ensures
        distinct_labels(mac_list(found)),
{
    reveal_strlit("Visual Studio Code");
    reveal_strlit("Cursor");
    reveal_strlit("Terminal");
    reveal_strlit("iTerm");
    reveal_strlit("Finder");
    let none = Seq::<Seq<char>>::empty();
    let open = found.open.deep_view();
    let code = "Visual Studio Code"@;
    let e = Seq::<OpenMethodView>::empty();
    let l0 = Seq::<Seq<char>>::empty();
    lemma_adding_keeps_labels_apart(e, l0, code, found.code.deep_view(), none, false);
    lemma_adding_keeps_labels_apart(e, l0, code, open, two("-a"@, code), false);
    let m = with_editor(e, code, found.code.deep_view(), found.has_code, open);
    let l1 = l0.push(code);
    assert("Cursor"@.len() == 6 && code.len() == 18);
    lemma_adding_keeps_labels_apart(m, l1, "Cursor"@, found.cursor.deep_view(), none, false);
    lemma_adding_keeps_labels_apart(m, l1, "Cursor"@, open, two("-a"@, "Cursor"@), false);
    let m = with_editor(m, "Cursor"@, found.cursor.deep_view(), found.has_cursor, open);
    let l2 = l1.push("Cursor"@);
    assert("Terminal"@.len() == 8);
    lemma_adding_keeps_labels_apart(m, l2, "Terminal"@, open, two("-a"@, "Terminal"@), false);
    let m = with_application(m, "Terminal"@, found.has_terminal, open);
    let l3 = l2.push("Terminal"@);
    assert("iTerm"@.len() == 5);
    lemma_adding_keeps_labels_apart(m, l3, "iTerm"@, open, two("-a"@, "iTerm"@), false);
    let m = with_application(m, "iTerm"@, found.has_iterm, open);
    let l4 = l3.push("iTerm"@);
    assert("Finder"@.len() == 6 && "Finder"@[0] != "Cursor"@[0]);
    lemma_adding_keeps_labels_apart(m, l4, "Finder"@, open, none, false);
}

proof fn lemma_unix_labels(found: UnixPrograms)
    ensures
        distinct_labels(unix_list(found)),
{
    reveal_strlit("Visual Studio Code");
    reveal_strlit("VSCodium");
    reveal_strlit("Cursor");
    reveal_strlit("Files");
    reveal_strlit("Terminal");
    reveal_strlit("GNOME Terminal");
    reveal_strlit("Konsole");
    reveal_strlit("Xfce Terminal");
    reveal_strlit("Alacritty");
    reveal_strlit("Kitty");
    reveal_strlit("xterm");
    let none = Seq::<Seq<char>>::empty();
    let e = Seq::<OpenMethodView>::empty();
    let l0 = Seq::<Seq<char>>::empty();
    let code = "Visual Studio Code"@;
    lemma_adding_keeps_labels_apart(e, l0, code, found.code.deep_view(), none, false);
    let m = with_found(e, code, found.code.deep_view(), none, false);
    let l1 = l0.push(code);
    assert("VSCodium"@.len() == 8 && code.len() == 18);
    lemma_adding_keeps_labels_apart(m, l1, "VSCodium"@, found.codium.deep_view(), none, false);
    let m = with_found(m, "VSCodium"@, found.codium.deep_view(), none, false);
    let l2 = l1.push("VSCodium"@);
    assert("Cursor"@.len() == 6);
    lemma_adding_keeps_labels_apart(m, l2, "Cursor"@, found.cursor.deep_view(), none, false);
    let m = with_found(m, "Cursor"@, found.cursor.deep_view(), none, false);
    let l3 = l2.push("Cursor"@);
    assert("Files"@.len() == 5);
    lemma_adding_keeps_labels_apart(m, l3, "Files"@, found.files.deep_view(), none, false);
    let m = with_found(m, "Files"@, found.files.deep_view(), none, false);
    let l4 = l3.push("Files"@);
    assert("Terminal"@.len() == 8 && "Terminal"@[0] != "VSCodium"@[0]);
    lemma_adding_keeps_labels_apart(m, l4, "Terminal"@, found.console.deep_view(), none, true);
    let m = with_found(m, "Terminal"@, found.console.deep_view(), none, true);
    let l5 = l4.push("Terminal"@);
    assert("GNOME Terminal"@.len() == 14);
    lemma_adding_keeps_labels_apart(
        m,
        l5,
        "GNOME Terminal"@,
        found.gnome_terminal.deep_view(),
        none,
        true,
    );
    let m = with_found(m, "GNOME Terminal"@, found.gnome_terminal.deep_view(), none, true);
    let l6 = l5.push("GNOME Terminal"@);
    assert("Konsole"@.len() == 7);
    lemma_adding_keeps_labels_apart(m, l6, "Konsole"@, found.konsole.deep_view(), none, true);
    let m = with_found(m, "Konsole"@, found.konsole.deep_view(), none, true);
    let l7 = l6.push("Konsole"@);
    assert("Xfce Terminal"@.len() == 13);
    lemma_adding_keeps_labels_apart(
        m,
        l7,
        "Xfce Terminal"@,
        found.xfce_terminal.deep_view(),
        none,
        true,
    );
    let m = with_found(m, "Xfce Terminal"@, found.xfce_terminal.deep_view(), none, true);
    let l8 = l7.push("Xfce Terminal"@);
    assert("Alacritty"@.len() == 9);
    lemma_adding_keeps_labels_apart(m, l8, "Alacritty"@, found.alacritty.deep_view(), none, true);
    let m = with_found(m, "Alacritty"@, found.alacritty.deep_view(), none, true);
    let l9 = l8.push("Alacritty"@);
    assert("Kitty"@.len() == 5 && "Kitty"@[0] != "Files"@[0]);
    lemma_adding_keeps_labels_apart(m, l9, "Kitty"@, found.kitty.deep_view(), none, true);
    let m = with_found(m, "Kitty"@, found.kitty.deep_view(), none, true);
    let l10 = l9.push("Kitty"@);
    assert("xterm"@.len() == 5 && "xterm"@[0] != "Files"@[0] && "xterm"@[0] != "Kitty"@[0]);
    lemma_adding_keeps_labels_apart(m, l10, "xterm"@, found.xterm.deep_view(), none, true);
}

/// The first of the places where a program was found.
pub fn first_found(places: Vec<Option<String>>) -> (r: Option<String>)
    ensures
        match r {
            Some(program) => exists|i: int|
                0 <= i < places@.len() && (#[trigger] places@[i]).deep_view() == Some(program@) && forall|
                    j: int,
                |
                    0 <= j < i ==> (#[trigger] places@[j]) is None,
            None => forall|j: int| 0 <= j < places@.len() ==> (#[trigger] places@[j]) is None,
        },
{
    let mut i: usize = 0;
    while i < places.len()
        invariant
            i <= places@.len(),
            forall|j: int| 0 <= j < i ==> (#[trigger] places@[j]) is None,
        decreases places@.len() - i,
    {
        match &places[i] {
            Some(program) => {
                let found = program.clone();
                assert(places@[i as int].deep_view() == Some(found@));
                return Some(found);
            },
            None => {},
        }
        i += 1;
    }
    None
}

/// The method with a label, for a project that may be selected.
pub fn choose_method(methods: &Vec<OpenMethod>, label: &str, project: Option<&str>) -> (r: Result<
    usize,
    String,
>)
    ensures
        match r {
            Ok(i) => project is Some && i < methods@.len() && methods@[i as int].label@ == label@
                && forall|j: int| 0 <= j < i ==> (#[trigger] methods@[j]).label@ != label@,
            Err(message) => if project is None {
                message@ == "Select a project before opening it"@
            } else {
                &&& message@ == label@ + " is not available on this machine"@
                &&& forall|j: int|
                    0 <= j < methods@.len() ==> (#[trigger] methods@[j]).label@ != label@
            },
        },
{
    if project.is_none() {
        return Err("Select a project before opening it".to_owned());
    }
    let mut i: usize = 0;
    while i < methods.len()
        invariant
            i <= methods@.len(),
            project is Some,
            forall|j: int| 0 <= j < i ==> (#[trigger] methods@[j]).label@ != label@,
        decreases methods@.len() - i,
    {
        if same_text(methods[i].label.as_str(), label) {
            return Ok(i);
        }
        i += 1;
    }
    Err(cat(label, " is not available on this machine"))
}

/// The text that tells where a project was opened.
pub fn opened_text(label: &str) -> (r: String)
    ensures
        r@ == "Opened project in "@ + label@,
{
    cat("Opened project in ", label)
}

} // verus!
