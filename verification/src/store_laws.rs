//! Where history is kept, which generation of it is used, and when it is
//! written.
use crate::persistence::{
    chosen_generation, load_source, names_history, save_steps, state_base, Choice, Environment,
    FileReading, FileWriteView, LoadSource, Reading,
};
use crate::snapshot::decoded_snapshot;
use crate::store_path::{bare_length, name_start, stem_length, with_other_extension};
use vstd::prelude::*;
use vstd::string::*;

verus! {

/// History that is sound, or that is not there yet, is saved; what it held
/// before is kept beside it first.
pub proof fn lemma_sound_history_is_saved(previous: Seq<u8>, snapshot: Seq<u8>)
    requires
        decoded_snapshot(previous) is Ok,
    ensures
        save_steps(None, Ok(()), snapshot) matches Ok(steps) && steps.len() == 1 && steps[0]
            == FileWriteView::State(snapshot),
        save_steps(Some(previous), Ok(()), snapshot) matches Ok(steps) && steps.len() == 2
            && steps[0] == FileWriteView::Backup(previous) && steps[1] == FileWriteView::State(
            snapshot,
        ),
{
}

/// Which generation is used: the state file while it can be read or comes from
/// another release, else the previous generation, and else a write that was not
/// finished; a generation that cannot be read is never used.
pub proof fn lemma_generation_is_chosen(
    exists_now: bool,
    backup: Option<Reading>,
    temporary: Option<Reading>,
)
    ensures
        chosen_generation(Reading::Valid, true, backup, temporary) == Choice::Primary,
        chosen_generation(Reading::Unsupported, exists_now, backup, temporary) == Choice::Primary,
        backup == Some(Reading::Valid) ==> chosen_generation(
            Reading::Unreadable,
            exists_now,
            backup,
            temporary,
        ) == Choice::RecoverBackup && chosen_generation(Reading::Valid, false, backup, temporary)
            == Choice::RecoverBackup,
        backup != Some(Reading::Valid) && temporary == Some(Reading::Valid) ==> chosen_generation(
            Reading::Unreadable,
            exists_now,
            backup,
            temporary,
        ) == Choice::RecoverTemporary,
        backup is None && temporary == Some(Reading::Valid) ==> chosen_generation(
            Reading::Valid,
            false,
            backup,
            temporary,
        ) == Choice::RecoverTemporary,
        backup != Some(Reading::Valid) && temporary != Some(Reading::Valid) ==> chosen_generation(
            Reading::Unreadable,
            exists_now,
            backup,
            temporary,
        ) == Choice::Primary,
        backup is Some && backup != Some(Reading::Valid) ==> chosen_generation(
            Reading::Valid,
            false,
            backup,
            temporary,
        ) == Choice::FailBackup,
        backup is None && temporary is None ==> chosen_generation(
            Reading::Valid,
            false,
            backup,
            temporary,
        ) == Choice::Primary,
{
}

/// The state file is read whenever it is there; the file of an earlier release
/// only while it is not.
pub proof fn lemma_state_file_comes_first(state: FileReading, legacy: FileReading, known: bool)
    ensures
        state != FileReading::Missing ==> load_source(state, known, legacy) == LoadSource::State,
        state == FileReading::Missing && known && legacy != FileReading::Missing ==> load_source(
            state,
            known,
            legacy,
        ) == LoadSource::Legacy,
        state == FileReading::Missing && (!known || legacy == FileReading::Missing) ==> load_source(
            state,
            known,
            legacy,
        ) == LoadSource::Defaults,
{
}

/// An export never goes over the history that is in use.
pub proof fn lemma_export_spares_the_history(
    target: Seq<char>,
    primary: Seq<char>,
    backup: Option<Seq<char>>,
)
    ensures
        names_history(Some(primary), Some(primary), backup),
        backup is Some ==> names_history(backup, Some(primary), backup),
        target != primary && backup != Some(target) && target.len() > 0 ==> !names_history(
            Some(target),
            Some(primary),
            backup,
        ),
        !names_history(None, Some(primary), backup),
{
}

/// The folder under which the state is kept is the one that the system names for
/// it, and else lies in the home of the user.
pub proof fn lemma_state_folder_is_the_systems(env: Environment, folder: Seq<char>)
    requires
        folder.len() > 0,
        folder.last() != '/',
    ensures
        env.platform is Unix && env.data_home.deep_view() == Some(folder) ==> state_base(env)
            == folder,
        env.platform is Unix && env.data_home is None && env.home.deep_view() == Some(folder)
            ==> state_base(env) == folder + "/.local/share"@,
        env.platform is Windows && env.local_app_data.deep_view() == Some(folder) ==> state_base(
            env,
        ) == folder,
        env.platform is Windows && env.local_app_data is None && env.app_data.deep_view() == Some(
            folder,
        ) ==> state_base(env) == folder,
        env.platform is Mac && env.home.deep_view() == Some(folder) ==> state_base(env) == folder
            + "/Library/Application Support"@,
{
    reveal_strlit("/.local/share");
    reveal_strlit(".local");
    reveal_strlit("share");
    reveal_strlit("/");
    reveal_strlit("/Library/Application Support");
    reveal_strlit("Library");
    reveal_strlit("Application Support");
    assert(".local"@[0] == '.' && "share"@[0] == 's' && "Library"@[0] == 'L'
        && "Application Support"@[0] == 'A');
    assert(".local"@[5] == 'l' && "Library"@[6] == 'y');
    let a = folder + "/"@ + ".local"@;
    let b = folder + "/"@ + "Library"@;
    assert(a.last() == 'l' && b.last() == 'y');
    assert(a + "/"@ + "share"@ =~= folder + "/.local/share"@);
    assert(b + "/"@ + "Application Support"@ =~= folder + "/Library/Application Support"@);
}

proof fn lemma_name_starts(folder: Seq<char>, name: Seq<char>)
    requires
        forall|i: int| 0 <= i < name.len() ==> (#[trigger] name[i]) != '/',
    ensures
        name_start(folder.push('/') + name, false) == folder.len() + 1,
    decreases name.len(),
{
    let path = folder.push('/') + name;
    if name.len() > 0 {
        assert(path.last() == name.last());
        assert(path.drop_last() =~= folder.push('/') + name.drop_last());
        assert forall|i: int| 0 <= i < name.drop_last().len() implies (
        #[trigger] name.drop_last()[i]) != '/' by {
            assert(name.drop_last()[i] == name[i]);
        }
        lemma_name_starts(folder, name.drop_last());
        assert(name[name.len() - 1] != '/');
    } else {
        assert(path =~= folder.push('/'));
    }
}

proof fn lemma_stem_ends(stem: Seq<char>, extension: Seq<char>, upto: int)
    requires
        stem.len() > 0,
        stem.len() < upto <= stem.len() + 1 + extension.len(),
        forall|i: int| 0 <= i < extension.len() ==> (#[trigger] extension[i]) != '.',
    ensures
        stem_length(stem.push('.') + extension, upto) == stem.len(),
    decreases upto,
{
    let name = stem.push('.') + extension;
    if upto == stem.len() + 1 {
        assert(name[upto - 1] == '.');
    } else {
        assert(name[upto - 1] == extension[upto - 1 - stem.len() - 1]);
        lemma_stem_ends(stem, extension, upto - 1);
    }
}

/// The files that belong to a state file stand beside it: in its folder, under
/// its name, with an extension of their own.
pub proof fn lemma_companions_stand_beside(
    folder: Seq<char>,
    stem: Seq<char>,
    extension: Seq<char>,
    other: Seq<char>,
)
    requires
        stem.len() > 0,
        extension.len() > 0,
        forall|i: int| 0 <= i < stem.len() ==> (#[trigger] stem[i]) != '/',
        forall|i: int|
            0 <= i < extension.len() ==> (#[trigger] extension[i]) != '/' && extension[i] != '.',
    ensures
        with_other_extension(folder.push('/') + (stem.push('.') + extension), other, false)
            == folder.push('/') + (stem.push('.') + other),
{
    let name = stem.push('.') + extension;
    let path = folder.push('/') + name;
    assert(path.last() == extension.last());
    assert(extension[extension.len() - 1] != '/');
    assert(bare_length(path, false) == path.len());
    assert(path.take(path.len() as int) =~= path);
    assert forall|i: int| 0 <= i < name.len() implies (#[trigger] name[i]) != '/' by {
        if i < stem.len() {
            assert(name[i] == stem[i]);
        } else if i > stem.len() {
            assert(name[i] == extension[i - stem.len() - 1]);
        }
    }
    lemma_name_starts(folder, name);
    assert(path.skip(folder.len() as int + 1) =~= name);
    lemma_stem_ends(stem, extension, name.len() as int);
    reveal_strlit(".");
    reveal_strlit("..");
    assert("."@ =~= seq!['.']);
    assert("."@.len() == 1 && ".."@.len() == 2);
    let kept = path.take(folder.len() as int + 1 + stem.len() as int);
    assert(kept + "."@ + other =~= folder.push('/') + (stem.push('.') + other));
}

} // verus!
