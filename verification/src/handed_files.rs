//! How attached files are named, told apart and handed on.
use crate::attachments::attachment_row;
use crate::json::lemma_entry_value;
use crate::path::{extension_in_path, name_in_path, naming_piece, slashed};
use crate::prompt::{
    attachment_label, attachment_view, audio_extensions, image_extensions, prompt_title,
};
use crate::table::{lemma_last_where_is};
use crate::text::{
    lemma_first_char_is, lemma_pieces_around, lemma_single_piece, lower_char, lower_text, pieces,
};
use vstd::prelude::*;
use vstd::string::*;

verus! {

/// A name without a slash.
pub open spec fn slashless(name: Seq<char>) -> bool {
    forall|i: int| 0 <= i < name.len() ==> (#[trigger] name[i]) != '/'
}

/// The last piece of a path is the name behind its last slash.
proof fn lemma_last_piece(folder: Seq<char>, name: Seq<char>)
    requires
        slashless(name),
    ensures
        pieces(folder.push('/') + name, '/').len() > 0,
        pieces(folder.push('/') + name, '/').last() == name,
{
    lemma_pieces_around(folder, '/', name);
    lemma_single_piece(name, '/');
}

/// A file is named by what stands behind the last slash of its path.
pub proof fn lemma_file_is_named_by_its_last_part(folder: Seq<char>, name: Seq<char>)
    requires
        slashless(name),
        name.len() > 0,
        name != "."@ && name != ".."@,
    ensures
        name_in_path(folder.push('/') + name, false) == Some(name),
        attachment_row(folder.push('/') + name, false, 0).name == name,
{
    let path = folder.push('/') + name;
    let parts = pieces(path, '/');
    lemma_last_piece(folder, name);
    lemma_last_where_is(parts, naming_piece(), parts.len() - 1);
}

/// The label of an attachment is the name of its file, with either separator.
pub proof fn lemma_label_is_the_file_name(folder: Seq<char>, separator: char, name: Seq<char>)
    requires
        separator == '/' || separator == '\\',
        slashless(name),
        forall|i: int| 0 <= i < name.len() ==> (#[trigger] name[i]) != '\\',
    ensures
        attachment_label(folder.push(separator) + name) == name,
{
    let path = folder.push(separator) + name;
    lemma_last_piece(slashed(folder), name);
    assert(slashed(path) =~= slashed(folder).push('/') + name);
}

/// The extension of a file is what stands behind the last dot of its name.
pub proof fn lemma_extension_is_behind_the_last_dot(
    folder: Seq<char>,
    stem: Seq<char>,
    extension: Seq<char>,
)
    requires
        stem.len() > 0,
        extension.len() > 0,
        slashless(stem) && slashless(extension),
        forall|i: int| 0 <= i < extension.len() ==> (#[trigger] extension[i]) != '.',
    ensures
        extension_in_path(folder.push('/') + (stem.push('.') + extension), false) == Some(extension),
{
    let name = stem.push('.') + extension;
    assert forall|i: int| 0 <= i < name.len() implies (#[trigger] name[i]) != '/' by {
        if i < stem.len() {
            assert(name[i] == stem[i]);
        } else if i > stem.len() {
            assert(name[i] == extension[i - stem.len() - 1]);
        }
    }
    reveal_strlit(".");
    reveal_strlit("..");
    assert("."@.len() == 1 && ".."@.len() == 2);
    lemma_file_is_named_by_its_last_part(folder, name);
    let dot = |c: char| c == '.';
    assert forall|j: int| stem.len() < j < name.len() implies !dot(#[trigger] name[j]) by {
        assert(name[j] == extension[j - stem.len() - 1]);
    }
    lemma_last_where_is(name, dot, stem.len() as int);
    assert(name.skip(stem.len() as int + 1) =~= extension);
}

/// The lower-case letters of a text that has no others.
proof fn lemma_lower_stays(s: Seq<char>)
    requires
        forall|i: int| 0 <= i < s.len() ==> lower_char(#[trigger] s[i]) == s[i],
    ensures
        lower_text(s) == s,
{
    assert(lower_text(s) =~= s);
}

/// The extensions of pictures, in small letters.
pub open spec fn names_image(e: Seq<char>) -> bool {
    e == "png"@ || e == "jpg"@ || e == "jpeg"@ || e == "gif"@ || e == "webp"@ || e == "bmp"@ || e == "ico"@ || e == "tif"@ || e == "tiff"@
}

/// The extensions of sounds, in small letters.
pub open spec fn names_audio(e: Seq<char>) -> bool {
    e == "mp3"@ || e == "wav"@ || e == "m4a"@ || e == "ogg"@ || e == "flac"@ || e == "aac"@ || e == "webm"@
}

proof fn lemma_known_extensions(e: Seq<char>)
    ensures
        (exists|i: int|
            0 <= i < image_extensions().len() && lower_text(e) == lower_text(
                #[trigger] image_extensions()[i],
            )) <==> names_image(lower_text(e)),
        (exists|i: int|
            0 <= i < audio_extensions().len() && lower_text(e) == lower_text(
                #[trigger] audio_extensions()[i],
            )) <==> names_audio(lower_text(e)),
        names_audio(lower_text(e)) ==> !names_image(lower_text(e)),
{
    reveal_strlit("png");
    assert("png"@ =~= seq!['p', 'n', 'g']);
    reveal_strlit("jpg");
    assert("jpg"@ =~= seq!['j', 'p', 'g']);
    reveal_strlit("jpeg");
    assert("jpeg"@ =~= seq!['j', 'p', 'e', 'g']);
    reveal_strlit("gif");
    assert("gif"@ =~= seq!['g', 'i', 'f']);
    reveal_strlit("webp");
    assert("webp"@ =~= seq!['w', 'e', 'b', 'p']);
    reveal_strlit("bmp");
    assert("bmp"@ =~= seq!['b', 'm', 'p']);
    reveal_strlit("ico");
    assert("ico"@ =~= seq!['i', 'c', 'o']);
    reveal_strlit("tif");
    assert("tif"@ =~= seq!['t', 'i', 'f']);
    reveal_strlit("tiff");
    assert("tiff"@ =~= seq!['t', 'i', 'f', 'f']);
    reveal_strlit("mp3");
    assert("mp3"@ =~= seq!['m', 'p', '3']);
    reveal_strlit("wav");
    assert("wav"@ =~= seq!['w', 'a', 'v']);
    reveal_strlit("m4a");
    assert("m4a"@ =~= seq!['m', '4', 'a']);
    reveal_strlit("ogg");
    assert("ogg"@ =~= seq!['o', 'g', 'g']);
    reveal_strlit("flac");
    assert("flac"@ =~= seq!['f', 'l', 'a', 'c']);
    reveal_strlit("aac");
    assert("aac"@ =~= seq!['a', 'a', 'c']);
    reveal_strlit("webm");
    assert("webm"@ =~= seq!['w', 'e', 'b', 'm']);
    lemma_lower_stays("png"@);
    lemma_lower_stays("jpg"@);
    lemma_lower_stays("jpeg"@);
    lemma_lower_stays("gif"@);
    lemma_lower_stays("webp"@);
    lemma_lower_stays("bmp"@);
    lemma_lower_stays("ico"@);
    lemma_lower_stays("tif"@);
    lemma_lower_stays("tiff"@);
    lemma_lower_stays("mp3"@);
    lemma_lower_stays("wav"@);
    lemma_lower_stays("m4a"@);
    lemma_lower_stays("ogg"@);
    lemma_lower_stays("flac"@);
    lemma_lower_stays("aac"@);
    lemma_lower_stays("webm"@);
    assert("mp3"@[0] != "png"@[0]);
    assert("mp3"@[0] != "jpg"@[0]);
    assert("mp3"@[0] != "gif"@[0]);
    assert("mp3"@[0] != "bmp"@[0]);
    assert("mp3"@[0] != "ico"@[0]);
    assert("mp3"@[0] != "tif"@[0]);
    assert("wav"@[0] != "png"@[0]);
    assert("wav"@[0] != "jpg"@[0]);
    assert("wav"@[0] != "gif"@[0]);
    assert("wav"@[0] != "bmp"@[0]);
    assert("wav"@[0] != "ico"@[0]);
    assert("wav"@[0] != "tif"@[0]);
    assert("m4a"@[0] != "png"@[0]);
    assert("m4a"@[0] != "jpg"@[0]);
    assert("m4a"@[0] != "gif"@[0]);
    assert("m4a"@[0] != "bmp"@[0]);
    assert("m4a"@[0] != "ico"@[0]);
    assert("m4a"@[0] != "tif"@[0]);
    assert("ogg"@[0] != "png"@[0]);
    assert("ogg"@[0] != "jpg"@[0]);
    assert("ogg"@[0] != "gif"@[0]);
    assert("ogg"@[0] != "bmp"@[0]);
    assert("ogg"@[0] != "ico"@[0]);
    assert("ogg"@[0] != "tif"@[0]);
    assert("flac"@[0] != "jpeg"@[0]);
    assert("flac"@[0] != "webp"@[0]);
    assert("flac"@[0] != "tiff"@[0]);
    assert("aac"@[0] != "png"@[0]);
    assert("aac"@[0] != "jpg"@[0]);
    assert("aac"@[0] != "gif"@[0]);
    assert("aac"@[0] != "bmp"@[0]);
    assert("aac"@[0] != "ico"@[0]);
    assert("aac"@[0] != "tif"@[0]);
    assert("webm"@[0] != "jpeg"@[0]);
    assert("webm"@[3] != "webp"@[3]);
    assert("webm"@[0] != "tiff"@[0]);
    let images = image_extensions();
    let sounds = audio_extensions();
    assert(images[0] == "png"@);
    assert(images[1] == "jpg"@);
    assert(images[2] == "jpeg"@);
    assert(images[3] == "gif"@);
    assert(images[4] == "webp"@);
    assert(images[5] == "bmp"@);
    assert(images[6] == "ico"@);
    assert(images[7] == "tif"@);
    assert(images[8] == "tiff"@);
    assert(sounds[0] == "mp3"@);
    assert(sounds[1] == "wav"@);
    assert(sounds[2] == "m4a"@);
    assert(sounds[3] == "ogg"@);
    assert(sounds[4] == "flac"@);
    assert(sounds[5] == "aac"@);
    assert(sounds[6] == "webm"@);
}

/// An attached file goes to the backend as what it is: a picture or a sound by
/// its path, anything else as a mention with its name. The case of the
/// extension does not matter.
pub proof fn lemma_attachment_goes_as_what_it_is(
    folder: Seq<char>,
    stem: Seq<char>,
    extension: Seq<char>,
)
    requires
        stem.len() > 0,
        extension.len() > 0,
        slashless(stem) && slashless(extension),
        forall|i: int| 0 <= i < extension.len() ==> (#[trigger] extension[i]) != '.',
    ensures
        ({
            let path = folder.push('/') + (stem.push('.') + extension);
            let sent = attachment_view(path, false);
            let e = lower_text(extension);
            &&& sent.text_at("path"@) == Some(path)
            &&& sent.text_at("type"@) == Some(
                if names_image(e) {
                    "localImage"@
                } else if names_audio(e) {
                    "localAudio"@
                } else {
                    "mention"@
                },
            )
            &&& attachment_row(path, false, 0).image == names_image(e)
        }),
{
    let path = folder.push('/') + (stem.push('.') + extension);
    lemma_extension_is_behind_the_last_dot(folder, stem, extension);
    lemma_known_extensions(extension);
    let sent = attachment_view(path, false);
    reveal_strlit("type");
    reveal_strlit("path");
    reveal_strlit("name");
    assert("type"@[0] != "path"@[0]);
    assert("name"@[0] != "path"@[0]);
    lemma_entry_value(sent->Object_0, "type"@, 0);
    lemma_entry_value(sent->Object_0, "path"@, sent->Object_0.len() - 1);
}

/// A thread is named by the first line of its first prompt, cut to what fits.
pub proof fn lemma_title_is_the_first_line(line: Seq<char>, rest: Seq<char>)
    requires
        line.len() > 0,
        forall|i: int| 0 <= i < line.len() ==> (#[trigger] line[i]) != '\n',
        line.last() != '\r',
    ensures
        line.len() <= 70 ==> prompt_title(line) == line && prompt_title(line.push('\n') + rest) == line,
        line.len() > 70 ==> prompt_title(line) == line.take(70) && prompt_title(
            line.push('\n') + rest,
        ) == line.take(70),
{
    let text = line.push('\n') + rest;
    lemma_first_char_is(line, '\n', line.len() as int);
    assert forall|j: int| 0 <= j < line.len() implies text[j] != '\n' by {
        assert(text[j] == line[j]);
    }
    assert(text[line.len() as int] == '\n');
    lemma_first_char_is(text, '\n', line.len() as int);
    assert(text.take(line.len() as int) =~= line);
}

} // verus!
