//! Reading what the command line tool says of its own updates.
use crate::json::{Json, JsonView};
use crate::json_text::{parse_json, parsed_json};
use crate::text::{blank, cat, cat3, is_blank, lines, same_text, text_lines, trim, trimmed};
use vstd::prelude::*;
use vstd::string::*;
use vstd::utf8::{decode_utf8, valid_utf8};

verus! {

/// The member of a report that speaks of updates.
pub open spec fn update_details(report: JsonView) -> Option<JsonView> {
    match report.get2("checks"@, "updates.status"@) {
        Some(status) => match status.get("details"@) {
            Some(details) => if details is Object {
                Some(details)
            } else {
                None
            },
            None => None,
        },
        None => None,
    }
}

/// The newer version that a report tells of: none where the version in use is
/// current, an error where the report does not say.
pub open spec fn available_version(report: JsonView) -> Result<Option<Seq<char>>, Seq<char>> {
    match update_details(report) {
        None => Err("Codex did not include update information in its report"@),
        Some(details) => if details.text_at("latest version status"@) != Some(
            "newer version is available"@,
        ) {
            Ok(None)
        } else {
            match details.text_at("latest version"@) {
                Some(version) => if blank(version) {
                    Err("Codex reported an update without a version number"@)
                } else {
                    Ok(Some(version))
                },
                None => Err("Codex reported an update without a version number"@),
            }
        },
    }
}

/// What is to be said of a report that was printed as bytes.
pub open spec fn reported_version(bytes: Seq<u8>) -> Result<Option<Seq<char>>, Seq<char>> {
    match parsed_json(bytes) {
        Ok(report) => available_version(report),
        Err(message) => Err("Codex returned an unreadable update report: "@ + message),
    }
}

fn find_details(report: &Json) -> (r: Option<&Json>)
    ensures
        match r {
            Some(details) => update_details(report.deep_view()) == Some(details.deep_view()),
            None => update_details(report.deep_view()) is None,
        },
{
    match report.get2("checks", "updates.status") {
        Some(status) => match status.get("details") {
            Some(details) => match details {
                Json::Object(_) => Some(details),
                _ => None,
            },
            None => None,
        },
        None => None,
    }
}

/// Finds the newer version that a report tells of.
pub fn version_in_report(report: &Json) -> (r: Result<Option<String>, String>)
    ensures
        match r {
            Ok(Some(version)) => available_version(report.deep_view()) == Ok::<_, Seq<char>>(
                Some(version@),
            ),
            Ok(None) => available_version(report.deep_view()) == Ok::<Option<Seq<char>>, Seq<char>>(
                None,
            ),
            Err(message) => available_version(report.deep_view()) == Err::<Option<Seq<char>>, _>(
                message@,
            ),
        },
{
    let details = match find_details(report) {
        Some(details) => details,
        None => {
            return Err("Codex did not include update information in its report".to_owned());
        },
    };
    let newer = match details.text_at("latest version status") {
        Some(status) => same_text(status, "newer version is available"),
        None => false,
    };
    if !newer {
        return Ok(None);
    }
    match details.text_at("latest version") {
        Some(version) => {
            if !is_blank(version) {
                return Ok(Some(version.to_owned()));
            }
        },
        None => {},
    }
    Err("Codex reported an update without a version number".to_owned())
}

/// Reads a report that was printed as bytes.
pub fn parse_available_version(bytes: &[u8]) -> (r: Result<Option<String>, String>)
    ensures
        match r {
            Ok(Some(version)) => reported_version(bytes@) == Ok::<_, Seq<char>>(Some(version@)),
            Ok(None) => reported_version(bytes@) == Ok::<Option<Seq<char>>, Seq<char>>(None),
            Err(message) => reported_version(bytes@) == Err::<Option<Seq<char>>, _>(message@),
        },
{
    match parse_json(bytes) {
        Ok(report) => version_in_report(&report),
        Err(message) => Err(cat("Codex returned an unreadable update report: ", message.as_str())),
    }
}

/// `std::str::from_utf8`, owned: the text that the bytes encode, if they are
/// UTF-8.
#[verifier::external_body]
fn utf8_text(bytes: &[u8]) -> (r: Option<String>)
    ensures
        match r {
            Some(text) => valid_utf8(bytes@) && text@ == decode_utf8(bytes@),
            None => !valid_utf8(bytes@),
        },
{
    std::str::from_utf8(bytes).ok().map(str::to_owned)
}

/// The first line that says something, without the space around it.
pub open spec fn first_said(all: Seq<Seq<char>>) -> Option<Seq<char>>
    decreases all.len(),
{
    if all.len() == 0 {
        None
    } else if !blank(all[0]) {
        Some(trimmed(all[0]))
    } else {
        first_said(all.skip(1))
    }
}

/// The first line that some output says; none of output that is not UTF-8.
pub open spec fn said_by(bytes: Seq<u8>) -> Option<Seq<char>> {
    if valid_utf8(bytes) {
        first_said(text_lines(decode_utf8(bytes)))
    } else {
        None
    }
}

fn first_line_said(bytes: &[u8]) -> (r: Option<String>)
    ensures
        match r {
            Some(line) => said_by(bytes@) == Some(line@),
            None => said_by(bytes@) is None,
        },
{
    match utf8_text(bytes) {
        Some(text) => {
            let all = lines(text.as_str());
            let ghost views = all.deep_view();
            let mut i: usize = 0;
            proof {
                assert(views.skip(0) =~= views);
            }
            while i < all.len()
                invariant
                    i <= all@.len(),
                    views == all.deep_view(),
                    valid_utf8(bytes@),
                    views == text_lines(decode_utf8(bytes@)),
                    first_said(views) == first_said(views.skip(i as int)),
                decreases all@.len() - i,
            {
                proof {
                    assert(views[i as int] == all@[i as int]@);
                    assert(views.skip(i as int).skip(1) =~= views.skip(i as int + 1));
                }
                if !is_blank(all[i].as_str()) {
                    return Some(trim(all[i].as_str()));
                }
                i += 1;
            }
            None
        },
        None => None,
    }
}

/// The text of a failure: the first thing that the error output says, else the
/// output, else that the reason is unknown.
pub open spec fn command_failure(context: Seq<char>, stdout: Seq<u8>, stderr: Seq<u8>) -> Seq<char> {
    context + ": "@ + match said_by(stderr) {
        Some(line) => line,
        None => match said_by(stdout) {
            Some(line) => line,
            None => "unknown error"@,
        },
    }
}

pub fn command_error(context: &str, stdout: &[u8], stderr: &[u8]) -> (r: String)
    ensures
        r@ == command_failure(context@, stdout@, stderr@),
{
    let detail = match first_line_said(stderr) {
        Some(line) => line,
        None => match first_line_said(stdout) {
            Some(line) => line,
            None => "unknown error".to_owned(),
        },
    };
    cat3(context, ": ", detail.as_str())
}

/// What a finished version check says.
pub fn check_outcome(success: bool, stdout: &[u8], stderr: &[u8]) -> (r: Result<
    Option<String>,
    String,
>)
    ensures
        match r {
            Ok(Some(version)) => success && reported_version(stdout@) == Ok::<_, Seq<char>>(
                Some(version@),
            ),
            Ok(None) => success && reported_version(stdout@) == Ok::<Option<Seq<char>>, Seq<char>>(
                None,
            ),
            Err(message) => if success {
                reported_version(stdout@) == Err::<Option<Seq<char>>, _>(message@)
            } else {
                message@ == command_failure("Codex could not check for updates"@, stdout@, stderr@)
            },
        },
{
    if success {
        parse_available_version(stdout)
    } else {
        Err(command_error("Codex could not check for updates", stdout, stderr))
    }
}

/// What a finished update says.
pub fn install_outcome(success: bool, stdout: &[u8], stderr: &[u8]) -> (r: Result<(), String>)
    ensures
        match r {
            Ok(_) => success,
            Err(message) => !success && message@ == command_failure(
                "Codex update failed"@,
                stdout@,
                stderr@,
            ),
        },
{
    if success {
        Ok(())
    } else {
        Err(command_error("Codex update failed", stdout, stderr))
    }
}

} // verus!
