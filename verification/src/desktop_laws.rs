//! The window, the programs beside it, and the work that is done in the
//! background.
use crate::controller::{ControllerView, Moment};
use crate::launcher::{
    mac_list, two, unix_editors, unix_list, windows_list, with_found, MacPrograms, OpenMethodView,
    UnixPrograms, WindowsPrograms,
};
use crate::laws::lemma_draft_is_kept;
use crate::model::DraftView;
use crate::services::{job_asked, Completed, FileJob, SavingView};
use crate::state::{draft_under, AppStateView};
use crate::window_chrome::{
    action_on, border_at, caption_at, held_after, scaled, CaptionCommand, ChromeAction, ChromeEvent,
    Hit,
};
use vstd::prelude::*;
use vstd::string::*;

verus! {

/// Whether a program is offered under a label: with these arguments, and either
/// started in the project or given its path.
pub open spec fn offers(
    methods: Seq<OpenMethodView>,
    label: Seq<char>,
    program: Seq<char>,
    arguments: Seq<Seq<char>>,
    in_project: bool,
) -> bool {
    exists|i: int|
        0 <= i < methods.len() && (#[trigger] methods[i]).label == label && methods[i].program
            == program && methods[i].arguments == arguments
            && methods[i].use_project_as_working_directory == in_project
            && methods[i].pass_project_path == !in_project
}

/// A program that was found is offered, and those before it still are.
proof fn lemma_found_is_added(
    methods: Seq<OpenMethodView>,
    label: Seq<char>,
    program: Option<Seq<char>>,
    arguments: Seq<Seq<char>>,
    in_project: bool,
)
    ensures
        program is Some ==> offers(
            with_found(methods, label, program, arguments, in_project),
            label,
            program->0,
            arguments,
            in_project,
        ),
        forall|l: Seq<char>, p: Seq<char>, a: Seq<Seq<char>>, b: bool|
            offers(methods, l, p, a, b) ==> #[trigger] offers(
                with_found(methods, label, program, arguments, in_project),
                l,
                p,
                a,
                b,
            ),
{
    let after = with_found(methods, label, program, arguments, in_project);
    if program is Some {
        assert(after[methods.len() as int].label == label);
    }
    assert forall|l: Seq<char>, p: Seq<char>, a: Seq<Seq<char>>, b: bool|
        offers(methods, l, p, a, b) implies #[trigger] offers(after, l, p, a, b) by {
        let i = choose|i: int|
            0 <= i < methods.len() && (#[trigger] methods[i]).label == l && methods[i].program == p
                && methods[i].arguments == a && methods[i].use_project_as_working_directory == b
                && methods[i].pass_project_path == !b;
        assert(after[i] == methods[i]);
    }
}

/// On Windows every program that was found is offered: editors, the explorer and
/// the terminal with the path of the project, and shells in the project.
pub proof fn lemma_windows_programs_are_offered(found: WindowsPrograms)
    ensures
        ({
            let m = windows_list(found);
            let none = Seq::<Seq<char>>::empty();
            &&& found.code matches Some(p) ==> offers(m, "Visual Studio Code"@, p@, none, false)
            &&& found.cursor matches Some(p) ==> offers(m, "Cursor"@, p@, none, false)
            &&& found.explorer matches Some(p) ==> offers(m, "File Explorer"@, p@, none, false)
            &&& found.powershell matches Some(p) ==> offers(
                m,
                "PowerShell"@,
                p@,
                seq!["-NoExit"@],
                true,
            )
            &&& found.command_prompt matches Some(p) ==> offers(
                m,
                "Command Prompt"@,
                p@,
                seq!["/D"@, "/K"@],
                true,
            )
            &&& found.terminal matches Some(p) ==> offers(
                m,
                "Windows Terminal"@,
                p@,
                seq!["-d"@],
                false,
            )
        }),
{
    let none = Seq::<Seq<char>>::empty();
    let m0 = Seq::<OpenMethodView>::empty();
    lemma_found_is_added(m0, "Visual Studio Code"@, found.code.deep_view(), none, false);
    let m1 = with_found(m0, "Visual Studio Code"@, found.code.deep_view(), none, false);
    lemma_found_is_added(m1, "Cursor"@, found.cursor.deep_view(), none, false);
    let m2 = with_found(m1, "Cursor"@, found.cursor.deep_view(), none, false);
    lemma_found_is_added(m2, "File Explorer"@, found.explorer.deep_view(), none, false);
    let m3 = with_found(m2, "File Explorer"@, found.explorer.deep_view(), none, false);
    let exits = seq!["-NoExit"@];
    lemma_found_is_added(m3, "PowerShell"@, found.powershell.deep_view(), exits, true);
    let m4 = with_found(m3, "PowerShell"@, found.powershell.deep_view(), exits, true);
    let keeps = two("/D"@, "/K"@);
    lemma_found_is_added(m4, "Command Prompt"@, found.command_prompt.deep_view(), keeps, true);
    let m5 = with_found(m4, "Command Prompt"@, found.command_prompt.deep_view(), keeps, true);
    let starts = seq!["-d"@];
    lemma_found_is_added(m5, "Windows Terminal"@, found.terminal.deep_view(), starts, false);
}

/// On a Mac editors that were found are offered by their commands, and the
/// Finder with the path of the project; an editor without a command is opened by
/// its name when it is there.
pub proof fn lemma_mac_programs_are_offered(found: MacPrograms)
    ensures
        ({
            let m = mac_list(found);
            let none = Seq::<Seq<char>>::empty();
            &&& found.code matches Some(p) ==> offers(m, "Visual Studio Code"@, p@, none, false)
            &&& found.cursor matches Some(p) ==> offers(m, "Cursor"@, p@, none, false)
            &&& found.open matches Some(p) ==> {
                &&& offers(m, "Finder"@, p@, none, false)
                &&& found.code is None && found.has_code ==> offers(
                    m,
                    "Visual Studio Code"@,
                    p@,
                    seq!["-a"@, "Visual Studio Code"@],
                    false,
                )
                &&& found.cursor is None && found.has_cursor ==> offers(
                    m,
                    "Cursor"@,
                    p@,
                    seq!["-a"@, "Cursor"@],
                    false,
                )
                &&& found.has_terminal ==> offers(
                    m,
                    "Terminal"@,
                    p@,
                    seq!["-a"@, "Terminal"@],
                    false,
                )
                &&& found.has_iterm ==> offers(m, "iTerm"@, p@, seq!["-a"@, "iTerm"@], false)
            }
        }),
{
    let none = Seq::<Seq<char>>::empty();
    let open = found.open.deep_view();
    let m0 = Seq::<OpenMethodView>::empty();
    let code = "Visual Studio Code"@;
    lemma_found_is_added(m0, code, found.code.deep_view(), none, false);
    lemma_found_is_added(m0, code, open, two("-a"@, code), false);
    let m1 = crate::launcher::with_editor(m0, code, found.code.deep_view(), found.has_code, open);
    let cursor = "Cursor"@;
    lemma_found_is_added(m1, cursor, found.cursor.deep_view(), none, false);
    lemma_found_is_added(m1, cursor, open, two("-a"@, cursor), false);
    let m2 = crate::launcher::with_editor(
        m1,
        cursor,
        found.cursor.deep_view(),
        found.has_cursor,
        open,
    );
    lemma_found_is_added(m2, "Terminal"@, open, two("-a"@, "Terminal"@), false);
    let m3 = crate::launcher::with_application(m2, "Terminal"@, found.has_terminal, open);
    lemma_found_is_added(m3, "iTerm"@, open, two("-a"@, "iTerm"@), false);
    let m4 = crate::launcher::with_application(m3, "iTerm"@, found.has_iterm, open);
    lemma_found_is_added(m4, "Finder"@, open, none, false);
}

/// On another Unix every program that was found is offered: editors and the file
/// manager with the path of the project, terminals in the project.
pub proof fn lemma_unix_programs_are_offered(found: UnixPrograms)
    ensures
        ({
            let m = unix_list(found);
            let none = Seq::<Seq<char>>::empty();
            &&& found.code matches Some(p) ==> offers(m, "Visual Studio Code"@, p@, none, false)
            &&& found.codium matches Some(p) ==> offers(m, "VSCodium"@, p@, none, false)
            &&& found.cursor matches Some(p) ==> offers(m, "Cursor"@, p@, none, false)
            &&& found.files matches Some(p) ==> offers(m, "Files"@, p@, none, false)
            &&& found.console matches Some(p) ==> offers(m, "Terminal"@, p@, none, true)
            &&& found.gnome_terminal matches Some(p) ==> offers(
                m,
                "GNOME Terminal"@,
                p@,
                none,
                true,
            )
            &&& found.konsole matches Some(p) ==> offers(m, "Konsole"@, p@, none, true)
            &&& found.xfce_terminal matches Some(p) ==> offers(m, "Xfce Terminal"@, p@, none, true)
            &&& found.alacritty matches Some(p) ==> offers(m, "Alacritty"@, p@, none, true)
            &&& found.kitty matches Some(p) ==> offers(m, "Kitty"@, p@, none, true)
            &&& found.xterm matches Some(p) ==> offers(m, "xterm"@, p@, none, true)
        }),
{
    let none = Seq::<Seq<char>>::empty();
    let m0 = Seq::<OpenMethodView>::empty();
    lemma_found_is_added(m0, "Visual Studio Code"@, found.code.deep_view(), none, false);
    let m1 = with_found(m0, "Visual Studio Code"@, found.code.deep_view(), none, false);
    lemma_found_is_added(m1, "VSCodium"@, found.codium.deep_view(), none, false);
    let m2 = with_found(m1, "VSCodium"@, found.codium.deep_view(), none, false);
    lemma_found_is_added(m2, "Cursor"@, found.cursor.deep_view(), none, false);
    let m3 = with_found(m2, "Cursor"@, found.cursor.deep_view(), none, false);
    lemma_found_is_added(m3, "Files"@, found.files.deep_view(), none, false);
    let m4 = unix_editors(found);
    lemma_found_is_added(m4, "Terminal"@, found.console.deep_view(), none, true);
    let m5 = with_found(m4, "Terminal"@, found.console.deep_view(), none, true);
    lemma_found_is_added(m5, "GNOME Terminal"@, found.gnome_terminal.deep_view(), none, true);
    let m6 = with_found(m5, "GNOME Terminal"@, found.gnome_terminal.deep_view(), none, true);
    lemma_found_is_added(m6, "Konsole"@, found.konsole.deep_view(), none, true);
    let m7 = with_found(m6, "Konsole"@, found.konsole.deep_view(), none, true);
    lemma_found_is_added(m7, "Xfce Terminal"@, found.xfce_terminal.deep_view(), none, true);
    let m8 = with_found(m7, "Xfce Terminal"@, found.xfce_terminal.deep_view(), none, true);
    lemma_found_is_added(m8, "Alacritty"@, found.alacritty.deep_view(), none, true);
    let m9 = with_found(m8, "Alacritty"@, found.alacritty.deep_view(), none, true);
    lemma_found_is_added(m9, "Kitty"@, found.kitty.deep_view(), none, true);
    let m10 = with_found(m9, "Kitty"@, found.kitty.deep_view(), none, true);
    lemma_found_is_added(m10, "xterm"@, found.xterm.deep_view(), none, true);
}

/// Pressing a button of the title bar and releasing it there does what the
/// button says; releasing it elsewhere does nothing.
pub proof fn lemma_buttons_do_what_they_say(held: i32, hit: Hit, under: Option<Hit>, maximized: bool)
    requires
        hit == Hit::Close || hit == Hit::Minimize || hit == Hit::Maximize,
    ensures
        ({
            let pressed = held_after(held, ChromeEvent::Pressed(Some(hit)));
            let done = action_on(pressed, ChromeEvent::Released(under), maximized);
            &&& action_on(held, ChromeEvent::Pressed(Some(hit)), maximized) == ChromeAction::Capture
            &&& under != Some(hit) ==> done == ChromeAction::Release
            &&& under == Some(hit) ==> done == ChromeAction::ReleaseAndRun(
                match hit {
                    Hit::Close => CaptionCommand::Close,
                    Hit::Minimize => CaptionCommand::Minimize,
                    _ => if maximized {
                        CaptionCommand::Restore
                    } else {
                        CaptionCommand::Maximize
                    },
                },
            )
            &&& held_after(pressed, ChromeEvent::Released(under)) == 0
        }),
{
}

/// The buttons stand at the right end of the title bar, each as wide as the
/// others: to close at the very end, then to maximize, then to minimize; the menu
/// stands at the left end, and what lies between moves the window.
pub proof fn lemma_buttons_stand_at_the_right(x: int, y: int, width: int, scale: int)
    requires
        0 <= y < scaled(36, scale),
        0 <= x < width,
    ensures
        ({
            let hit = caption_at(x, y, width, scale);
            let button = scaled(46, scale);
            let menu = scaled(34, scale);
            &&& hit is Some
            &&& x < menu <==> hit == Some(Hit::SystemMenu)
            &&& x >= menu ==> {
                &&& x >= width - button <==> hit == Some(Hit::Close)
                &&& width - 2 * button <= x < width - button <==> hit == Some(Hit::Maximize)
                &&& width - 3 * button <= x < width - 2 * button <==> hit == Some(Hit::Minimize)
                &&& x < width - 3 * button && x < width - 2 * button && x < width - button <==> hit
                    == Some(Hit::Caption)
            }
        }),
{
}

/// The border is where the window can be sized: each side at its own edge, a
/// corner where two sides meet, and none of a maximized window.
pub proof fn lemma_border_is_at_the_edges(
    x: int,
    y: int,
    width: int,
    height: int,
    scale: int,
)
    requires
        width > 2 * scaled(6, scale),
        height > 2 * scaled(6, scale),
    ensures
        ({
            let b = scaled(6, scale);
            let hit = border_at(x, y, width, height, scale, false);
            let inside_x = b <= x < width - b;
            let inside_y = b <= y < height - b;
            &&& border_at(x, y, width, height, scale, true) is None
            &&& inside_x && inside_y <==> hit is None
            &&& x < b && inside_y <==> hit == Some(Hit::Left)
            &&& x >= width - b && inside_y <==> hit == Some(Hit::Right)
            &&& inside_x && y < b <==> hit == Some(Hit::Top)
            &&& inside_x && y >= height - b <==> hit == Some(Hit::Bottom)
            &&& x < b && y < b <==> hit == Some(Hit::TopLeft)
            &&& x >= width - b && y < b <==> hit == Some(Hit::TopRight)
            &&& x < b && y >= height - b <==> hit == Some(Hit::BottomLeft)
            &&& x >= width - b && y >= height - b <==> hit == Some(Hit::BottomRight)
        }),
{
}

/// A save that failed is told and made again from the start; one that went well
/// is not told. A restored history is saved from then on.
pub proof fn lemma_failed_save_is_made_again(saving: SavingView, error: Seq<char>, done: Completed)
    ensures
        saving.saved(Err(error)).saved_revision == 0,
        saving.saved(Err(error)).status == "History save failed: "@ + error,
        saving.saved(Ok(())).saved_revision == saving.saved_revision,
        saving.saved(Ok(())).status.len() == 0,
        saving.saved(Ok(())).enabled == saving.enabled && saving.saved(Err(error)).enabled
            == saving.enabled,
        done is Restored ==> saving.after(done).enabled && !saving.after(done).restoring,
        done is Attached || done is Message ==> saving.after(done) == saving,
{
}

/// Files that were prepared in the background come to the draft that they were
/// for, behind those that it had; other drafts keep theirs.
pub proof fn lemma_prepared_files_reach_their_draft(
    c: ControllerView,
    key: String,
    paths: Vec<String>,
    other: Seq<char>,
    now: Moment,
)
    ensures
        ({
            let r = c.work_completed(Completed::Attached(key, paths), now).state.drafts;
            let before = c.state.drafts;
            &&& draft_under(r, key@) matches Some(i) && {
                &&& r[i].draft.attachments == (match draft_under(before, key@) {
                    Some(k) => before[k].draft.attachments,
                    None => Seq::empty(),
                }) + paths.deep_view()
                &&& draft_under(before, key@) matches Some(k) ==> r[i].draft.text
                    == before[k].draft.text
            }
            &&& other != key@ ==> {
                &&& draft_under(r, other) is Some <==> draft_under(before, other) is Some
                &&& draft_under(r, other) is Some ==> r[draft_under(r, other)->0].draft
                    == before[draft_under(before, other)->0].draft
            }
        }),
{
    reveal(ControllerView::work_completed);
    let s = c.state;
    let draft = match draft_under(s.drafts, key@) {
        Some(i) => DraftView {
            attachments: s.drafts[i].draft.attachments + paths.deep_view(),
            ..s.drafts[i].draft
        },
        None => DraftView { text: Seq::empty(), attachments: paths.deep_view() },
    };
    reveal(AppStateView::with_draft_under);
    lemma_draft_is_kept(s, key@, draft, key@);
    lemma_draft_is_kept(s, key@, draft, other);
    if draft_under(s.drafts, key@) is None {
        assert(Seq::<Seq<char>>::empty() + paths.deep_view() =~= paths.deep_view());
    }
}

/// What was done in the background, and what went wrong there, is told in its
/// own words.
pub proof fn lemma_background_work_is_told(
    c: ControllerView,
    text: String,
    restoring: bool,
    job: FileJob,
    now: Moment,
)
    ensures
        c.work_completed(Completed::Message(text), now).state.toast matches Some(t) && t.message
            == text@ && !t.is_error,
        c.work_completed(Completed::Error(text, restoring), now).state.toast matches Some(t)
            && t.message == text@ && t.is_error,
        job_asked(c.state, job, false).toast matches Some(t) && t.is_error,
        job_asked(c.state, job, true).toast matches Some(t) ==> c.state.toast == Some(t)
            || !t.is_error,
{
    reveal(ControllerView::work_completed);
    reveal(AppStateView::with_info);
    reveal(AppStateView::with_error);
    reveal(AppStateView::logged);
}

} // verus!
