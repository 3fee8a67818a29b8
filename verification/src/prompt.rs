//! What a prompt becomes: the context that goes with it, its attachments, and
//! the titles made from it.
use crate::formatting::{truncate_text, truncated};
use crate::json::{array, object, Json, JsonView};
use crate::model::{ConversationItem, ConversationItemView, ItemKind};
use crate::path::{
    eq_ignore_ascii_case, extension, extension_in_path, path_pieces, same_ignoring_case, to_slashes,
};
use crate::text::{
    blank, cat3, chars_of, is_blank, join, joined, lines, split, string_of_range, text_lines, trim,
    trimmed,
};
use vstd::prelude::*;
use vstd::string::*;

verus! {

/// What a message contributes to the transcript: who said what, if it is a
/// chat message with any text.
pub open spec fn chat_line(item: ConversationItemView) -> Option<Seq<char>> {
    if blank(item.body) {
        None
    } else if item.kind == ItemKind::User {
        Some("User"@ + ": "@ + trimmed(item.body))
    } else if item.kind == ItemKind::Assistant {
        Some("Assistant"@ + ": "@ + trimmed(item.body))
    } else {
        None
    }
}

pub open spec fn chat_lines(items: Seq<ConversationItemView>) -> Seq<Seq<char>>
    decreases items.len(),
{
    if items.len() == 0 {
        Seq::empty()
    } else {
        let before = chat_lines(items.drop_last());
        match chat_line(items.last()) {
            Some(line) => before.push(line),
            None => before,
        }
    }
}

/// The last `max` characters of a text.
pub open spec fn last_chars(text: Seq<char>, max: nat) -> Seq<char> {
    if text.len() <= max {
        text
    } else {
        text.skip(text.len() - max)
    }
}

/// The transcript of a conversation up to its last entry, at most its last
/// sixty thousand characters.
pub open spec fn context_of(conversation: Seq<ConversationItemView>) -> Seq<char> {
    if conversation.len() == 0 {
        Seq::empty()
    } else {
        last_chars(joined(chat_lines(conversation.drop_last()), "\n\n"@), 60_000)
    }
}

fn line_of_chat(item: &ConversationItem) -> (r: Option<String>)
    ensures
        r.deep_view() == chat_line(item.deep_view()),
{
    if is_blank(item.body.as_str()) {
        return None;
    }
    match item.kind {
        ItemKind::User => Some(cat3("User", ": ", trim(item.body.as_str()).as_str())),
        ItemKind::Assistant => Some(cat3("Assistant", ": ", trim(item.body.as_str()).as_str())),
        _ => None,
    }
}

pub fn conversation_context(conversation: &Vec<ConversationItem>) -> (r: String)
    ensures
        r@ == context_of(conversation.deep_view()),
{
    if conversation.len() == 0 {
        return String::new();
    }
    let ghost all = conversation.deep_view();
    let mut parts: Vec<String> = Vec::new();
    let mut i: usize = 0;
    assert(parts.deep_view() =~= chat_lines(all.take(0)));
    while i < conversation.len() - 1
        invariant
            i < conversation@.len(),
            all == conversation.deep_view(),
            parts.deep_view() == chat_lines(all.take(i as int)),
        decreases conversation@.len() - i,
    {
        assert(all.take(i as int + 1).drop_last() =~= all.take(i as int));
        let ghost before = parts.deep_view();
        match line_of_chat(&conversation[i]) {
            Some(line) => {
                let ghost view = line@;
                parts.push(line);
                assert(parts.deep_view() =~= before.push(view));
            },
            None => {},
        }
        i += 1;
    }
    assert(all.take(i as int) =~= all.drop_last());
    let transcript = join(&parts, "\n\n");
    let chars = chars_of(transcript.as_str());
    if chars.len() <= 60_000 {
        transcript
    } else {
        let r = string_of_range(&chars, chars.len() - 60_000, chars.len());
        assert(r@ =~= transcript@.skip(transcript@.len() - 60_000));
        r
    }
}

/// The context never holds the current request: entries that differ only in
/// their last one have the same context, and so have those that differ only in
/// entries that are no chat messages.
pub proof fn lemma_context_excludes_current_request(
    before: Seq<ConversationItemView>,
    current: ConversationItemView,
    other: ConversationItemView,
    silent: ConversationItemView,
)
    requires
        silent.kind != ItemKind::User && silent.kind != ItemKind::Assistant,
    ensures
        context_of(before.push(current)) == context_of(before.push(other)),
        context_of(before.push(silent).push(current)) == context_of(before.push(current)),
        context_of(before.push(current)).len() <= 60_000,
{
    assert(before.push(current).drop_last() =~= before);
    assert(before.push(other).drop_last() =~= before);
    assert(before.push(silent).push(current).drop_last() =~= before.push(silent));
    assert(before.push(silent).drop_last() =~= before);
}

/// The marks that models put round a title.
pub open spec fn is_wrapper(c: char) -> bool {
    c == '"' || c == '\'' || c == '`' || c == '*' || c == '#' || c == ' '
}

/// The marks that end a sentence.
pub open spec fn is_stop(c: char) -> bool {
    c == '.' || c == ',' || c == ':' || c == ';' || c == '!' || c == '?'
}

pub open spec fn unwrapped_start(s: Seq<char>) -> Seq<char>
    decreases s.len(),
{
    if s.len() > 0 && is_wrapper(s[0]) {
        unwrapped_start(s.drop_first())
    } else {
        s
    }
}

pub open spec fn unwrapped_end(s: Seq<char>) -> Seq<char>
    decreases s.len(),
{
    if s.len() > 0 && is_wrapper(s.last()) {
        unwrapped_end(s.drop_last())
    } else {
        s
    }
}

pub open spec fn unstopped(s: Seq<char>) -> Seq<char>
    decreases s.len(),
{
    if s.len() > 0 && is_stop(s.last()) {
        unstopped(s.drop_last())
    } else {
        s
    }
}

/// The first line that is not blank, without white space round it.
pub open spec fn first_text_line(all: Seq<Seq<char>>) -> Seq<char>
    decreases all.len(),
{
    if all.len() == 0 {
        Seq::empty()
    } else if trimmed(all[0]).len() > 0 {
        trimmed(all[0])
    } else {
        first_text_line(all.drop_first())
    }
}

/// A line without marks round it and without a stop at its end.
pub open spec fn bare_line(line: Seq<char>) -> Seq<char> {
    trimmed(unstopped(unwrapped_end(unwrapped_start(line))))
}

/// The title or subject that a model's answer holds.
pub open spec fn summary_of(raw: Seq<char>, max: nat) -> Seq<char> {
    truncated(bare_line(first_text_line(text_lines(raw))), max)
}

fn wraps(c: char) -> (r: bool)
    ensures
        r == is_wrapper(c),
{
    c == '"' || c == '\'' || c == '`' || c == '*' || c == '#' || c == ' '
}

fn stops(c: char) -> (r: bool)
    ensures
        r == is_stop(c),
{
    c == '.' || c == ',' || c == ':' || c == ';' || c == '!' || c == '?'
}

fn strip_line(line: &str) -> (r: String)
    ensures
        r@ == bare_line(line@),
{
    let chars = chars_of(line);
    let ghost whole = line@;
    let mut from: usize = 0;
    assert(whole.skip(0) =~= whole);
    while from < chars.len() && wraps(chars[from])
        invariant
            from <= chars@.len(),
            chars@ == whole,
            unwrapped_start(whole) == unwrapped_start(whole.skip(from as int)),
        decreases chars@.len() - from,
    {
        assert(whole.skip(from as int).drop_first() =~= whole.skip(from as int + 1));
        from += 1;
    }
    let ghost inner = whole.skip(from as int);
    let mut to: usize = chars.len();
    assert(inner =~= whole.subrange(from as int, to as int));
    while to > from && wraps(chars[to - 1])
        invariant
            from <= to <= chars@.len(),
            chars@ == whole,
            unwrapped_end(inner) == unwrapped_end(whole.subrange(from as int, to as int)),
        decreases to,
    {
        assert(whole.subrange(from as int, to as int).drop_last() =~= whole.subrange(
            from as int,
            to as int - 1,
        ));
        to -= 1;
    }
    let ghost middle = whole.subrange(from as int, to as int);
    while to > from && stops(chars[to - 1])
        invariant
            from <= to <= chars@.len(),
            chars@ == whole,
            unstopped(middle) == unstopped(whole.subrange(from as int, to as int)),
        decreases to,
    {
        assert(whole.subrange(from as int, to as int).drop_last() =~= whole.subrange(
            from as int,
            to as int - 1,
        ));
        to -= 1;
    }
    trim(string_of_range(&chars, from, to).as_str())
}

fn first_line_of(all: &Vec<String>) -> (r: String)
    ensures
        r@ == first_text_line(all.deep_view()),
{
    let ghost views = all.deep_view();
    let mut i: usize = 0;
    assert(views.skip(0) =~= views);
    while i < all.len()
        invariant
            i <= all@.len(),
            views == all.deep_view(),
            first_text_line(views) == first_text_line(views.skip(i as int)),
        decreases all@.len() - i,
    {
        assert(views.skip(i as int)[0] == all@[i as int]@);
        let candidate = trim(all[i].as_str());
        if !candidate.as_str().is_empty() {
            return candidate;
        }
        assert(views.skip(i as int).drop_first() =~= views.skip(i as int + 1));
        i += 1;
    }
    assert(views.skip(i as int).len() == 0);
    String::new()
}

pub fn clean_summary(raw: &str, max_chars: usize) -> (r: String)
    ensures
        r@ == summary_of(raw@, max_chars as nat),
{
    let line = first_line_of(&lines(raw));
    truncate_text(strip_line(line.as_str()).as_str(), max_chars)
}

/// The title of a thread from its first prompt: the first line, at most seventy characters.
pub open spec fn prompt_title(text: Seq<char>) -> Seq<char> {
    let all = text_lines(text);
    let line = if all.len() == 0 {
        "New thread"@
    } else {
        all[0]
    };
    if line.len() <= 70 {
        line
    } else {
        line.take(70)
    }
}

pub fn title_from_prompt(text: &str) -> (r: String)
    ensures
        r@ == prompt_title(text@),
{
    let all = lines(text);
    let line = if all.len() == 0 {
        "New thread".to_owned()
    } else {
        assert(all.deep_view()[0] == all@[0]@);
        all[0].clone()
    };
    let chars = chars_of(line.as_str());
    if chars.len() <= 70 {
        line
    } else {
        let r = string_of_range(&chars, 0, 70);
        assert(r@ =~= line@.take(70));
        r
    }
}

/// The name of an attached file.
pub open spec fn attachment_label(path: Seq<char>) -> Seq<char> {
    path_pieces(path).last()
}

pub fn attachment_name(path: &str) -> (r: String)
    ensures
        r@ == attachment_label(path@),
{
    let clean = to_slashes(path);
    let parts = split(clean.as_str(), '/');
    assert(parts.deep_view().last() == parts@[parts@.len() - 1]@);
    parts[parts.len() - 1].clone()
}

/// Whether a path has one of these extensions, in any case of letters.
pub open spec fn extension_among(path: Seq<char>, windows: bool, extensions: Seq<Seq<char>>) -> bool {
    match extension_in_path(path, windows) {
        Some(e) => exists|i: int|
            0 <= i < extensions.len() && same_ignoring_case(e, #[trigger] extensions[i]),
        None => false,
    }
}

pub fn has_extension(path: &str, windows: bool, extensions: &Vec<&str>) -> (r: bool)
    ensures
        r == extension_among(path@, windows, extensions.deep_view()),
{
    match extension(path, windows) {
        Some(e) => {
            let mut i: usize = 0;
            while i < extensions.len()
                invariant
                    i <= extensions@.len(),
                    extension_in_path(path@, windows) == Some(e@),
                    forall|j: int|
                        0 <= j < i ==> !same_ignoring_case(
                            e@,
                            #[trigger] extensions.deep_view()[j],
                        ),
                decreases extensions@.len() - i,
            {
                assert(extensions.deep_view()[i as int] == extensions@[i as int]@);
                if eq_ignore_ascii_case(e.as_str(), extensions[i]) {
                    return true;
                }
                i += 1;
            }
            false
        },
        None => false,
    }
}

pub open spec fn image_extensions() -> Seq<Seq<char>> {
    seq!["png"@, "jpg"@, "jpeg"@, "gif"@, "webp"@, "bmp"@, "ico"@, "tif"@, "tiff"@]
}

pub open spec fn audio_extensions() -> Seq<Seq<char>> {
    seq!["mp3"@, "wav"@, "m4a"@, "ogg"@, "flac"@, "aac"@, "webm"@]
}

/// How an attached file goes into a prompt: images and audio as such, other
/// files as a mention by name.
pub open spec fn attachment_view(path: Seq<char>, windows: bool) -> JsonView {
    if extension_among(path, windows, image_extensions()) {
        JsonView::Object(seq![
            ("type"@, JsonView::Text("localImage"@)),
            ("path"@, JsonView::Text(path)),
        ])
    } else if extension_among(path, windows, audio_extensions()) {
        JsonView::Object(seq![
            ("type"@, JsonView::Text("localAudio"@)),
            ("path"@, JsonView::Text(path)),
        ])
    } else {
        JsonView::Object(seq![
            ("type"@, JsonView::Text("mention"@)),
            ("name"@, JsonView::Text(attachment_label(path))),
            ("path"@, JsonView::Text(path)),
        ])
    }
}

pub fn is_image_path(path: &str, windows: bool) -> (r: bool)
    ensures
        r == extension_among(path@, windows, image_extensions()),
{
    let known: Vec<&str> = vec![
        "png", "jpg", "jpeg", "gif", "webp", "bmp", "ico", "tif", "tiff",
    ];
    assert(known.deep_view() =~= image_extensions());
    has_extension(path, windows, &known)
}

fn is_audio_path(path: &str, windows: bool) -> (r: bool)
    ensures
        r == extension_among(path@, windows, audio_extensions()),
{
    let known: Vec<&str> = vec!["mp3", "wav", "m4a", "ogg", "flac", "aac", "webm"];
    assert(known.deep_view() =~= audio_extensions());
    has_extension(path, windows, &known)
}

pub fn attachment_input(path: &str, windows: bool) -> (r: Json)
    ensures
        r.deep_view() == attachment_view(path@, windows),
{
    if is_image_path(path, windows) {
        let r = object(
            vec![
                ("type".to_owned(), Json::text("localImage")),
                ("path".to_owned(), Json::text(path)),
            ],
        );
        assert(r.deep_view()->Object_0 =~= attachment_view(path@, windows)->Object_0);
        r
    } else if is_audio_path(path, windows) {
        let r = object(
            vec![
                ("type".to_owned(), Json::text("localAudio")),
                ("path".to_owned(), Json::text(path)),
            ],
        );
        assert(r.deep_view()->Object_0 =~= attachment_view(path@, windows)->Object_0);
        r
    } else {
        let name = attachment_name(path);
        let r = object(
            vec![
                ("type".to_owned(), Json::text("mention")),
                ("name".to_owned(), Json::Text(name)),
                ("path".to_owned(), Json::text(path)),
            ],
        );
        assert(r.deep_view()->Object_0 =~= attachment_view(path@, windows)->Object_0);
        r
    }
}

/// A piece of text in a prompt.
pub open spec fn text_input_view(text: Seq<char>) -> JsonView {
    JsonView::Object(seq![
        ("type"@, JsonView::Text("text"@)),
        ("text"@, JsonView::Text(text)),
        ("text_elements"@, JsonView::Array(Seq::empty())),
    ])
}

pub fn text_input(text: &str) -> (r: Json)
    ensures
        r.deep_view() == text_input_view(text@),
{
    let none: Vec<Json> = Vec::new();
    assert(none.deep_view() =~= Seq::empty());
    let r = object(
        vec![
            ("type".to_owned(), Json::text("text")),
            ("text".to_owned(), Json::text(text)),
            ("text_elements".to_owned(), array(none)),
        ],
    );
    assert(r.deep_view()->Object_0 =~= text_input_view(text@)->Object_0);
    r
}

/// A prompt with the transcript of what was said before, if there is any.
pub open spec fn prompt_with_context(text: Seq<char>, transcript: Seq<char>) -> Seq<char> {
    if transcript.len() == 0 {
        text
    } else {
        "Continue this locally saved Ferro Code conversation. Use the transcript as context; do not repeat it in your answer.\n\n<conversation_history>\n"@
            + transcript + "\n</conversation_history>\n\nCurrent user request:\n"@ + text
    }
}

pub fn add_context(text: &str, transcript: &str) -> (r: String)
    ensures
        r@ == prompt_with_context(text@, transcript@),
{
    if transcript.is_empty() {
        text.to_owned()
    } else {
        let mut r = cat3(
            "Continue this locally saved Ferro Code conversation. Use the transcript as context; do not repeat it in your answer.\n\n<conversation_history>\n",
            transcript,
            "\n</conversation_history>\n\nCurrent user request:\n",
        );
        r.append(text);
        r
    }
}

} // verus!
