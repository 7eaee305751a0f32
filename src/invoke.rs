//! Locating the external tool and turning a finished run into a result.
//!
//! Running the tool is left to the caller, who reports back how the run
//! went as a [`ProcessOutcome`]. A run that could not start, or that exited
//! with a failure status, becomes an error carrying a diagnostic text; a
//! successful run becomes the operation's answer.
use vstd::prelude::*;
use vstd::utf8::{decode_utf8, valid_utf8};

use crate::profiles::{listed_profiles, parse_profile_list, profile_views, Profile};

verus! {

/// Where the tool lives when no location has been configured: next to the
/// front end, as in a development checkout.
pub open spec fn default_tool_path() -> Seq<char> {
    "../myssh"@
}

/// The tool's location: the configured one when there is one, otherwise
/// the development default.
pub fn tool_path(configured: Option<String>) -> (r: String)
    ensures
        r@ == match configured {
            Some(p) => p@,
            None => default_tool_path(),
        },
{
    match configured {
        Some(p) => p,
        None => String::from_str("../myssh"),
    }
}

/// How one run of the tool went.
pub enum ProcessOutcome {
    /// The tool could not be started; `error` is the system's description.
    NotStarted { error: String },
    /// The tool ran to its end, with a success status or not, and wrote
    /// these bytes to its standard output and error streams.
    Finished { success: bool, stdout: Vec<u8>, stderr: Vec<u8> },
}

/// The text that lossy UTF-8 decoding gives for a byte string.
pub uninterp spec fn lossy_text(b: Seq<u8>) -> Seq<char>;

/// Relies on `String::from_utf8_lossy`: the text of the bytes, each invalid
/// sequence replaced by U+FFFD; valid UTF-8 is decoded as it stands.
#[verifier::external_body]
fn decode_lossy(b: &Vec<u8>) -> (r: String)
    ensures
        r@ == lossy_text(b@),
        valid_utf8(b@) ==> r@ == decode_utf8(b@),
{
    String::from_utf8_lossy(b.as_slice()).into_owned()
}

/// The message for a run that could not start.
pub open spec fn not_started_text(error: Seq<char>) -> Seq<char> {
    "Failed to execute myssh: "@ + error
}

/// The error that a run gives, if any: why it could not start, or what it
/// wrote to its error stream when it failed.
pub open spec fn failure_of(o: ProcessOutcome) -> Option<Seq<char>> {
    match o {
        ProcessOutcome::NotStarted { error } => Some(not_started_text(error@)),
        ProcessOutcome::Finished { success, stdout, stderr } => if success {
            None
        } else {
            Some(lossy_text(stderr@))
        },
    }
}

/// What a finished run wrote to its output stream.
pub open spec fn output_of(o: ProcessOutcome) -> Seq<char> {
    match o {
        ProcessOutcome::NotStarted { .. } => seq![],
        ProcessOutcome::Finished { stdout, .. } => lossy_text(stdout@),
    }
}

/// The texts that a result holds.
pub open spec fn result_texts(r: Result<String, String>) -> Result<Seq<char>, Seq<char>> {
    match r {
        Ok(t) => Ok(t@),
        Err(e) => Err(e@),
    }
}

/// The answer to an operation: the failure when the run failed, otherwise
/// `answer`.
pub open spec fn answer_or_failure(o: ProcessOutcome, answer: Seq<char>) -> Result<
    Seq<char>,
    Seq<char>,
> {
    match failure_of(o) {
        Some(e) => Err(e),
        None => Ok(answer),
    }
}

/// A session answers with what the tool printed.
pub open spec fn connect_answer(o: ProcessOutcome) -> Result<Seq<char>, Seq<char>> {
    answer_or_failure(o, output_of(o))
}

/// An upload answers with a fixed confirmation.
pub open spec fn upload_answer(o: ProcessOutcome) -> Result<Seq<char>, Seq<char>> {
    answer_or_failure(o, "Upload r\u{e9}ussi !"@)
}

/// A download answers with a fixed confirmation.
pub open spec fn download_answer(o: ProcessOutcome) -> Result<Seq<char>, Seq<char>> {
    answer_or_failure(o, "Download r\u{e9}ussi !"@)
}

/// Storing a profile answers with a confirmation that names it.
pub open spec fn profile_add_answer(name: Seq<char>, o: ProcessOutcome) -> Result<
    Seq<char>,
    Seq<char>,
> {
    answer_or_failure(o, "Profil '"@ + name + "' cr\u{e9}\u{e9} avec succ\u{e8}s"@)
}

/// Removing a profile answers with a confirmation that names it.
pub open spec fn profile_delete_answer(name: Seq<char>, o: ProcessOutcome) -> Result<
    Seq<char>,
    Seq<char>,
> {
    answer_or_failure(o, "Profil '"@ + name + "' supprim\u{e9}"@)
}

/// The diagnostic of a run that failed.
fn failure_message(o: &ProcessOutcome) -> (r: String)
    requires
        failure_of(*o) is Some,
    ensures
        failure_of(*o) == Some(r@),
{
    match o {
        ProcessOutcome::NotStarted { error } => String::from_str("Failed to execute myssh: ").concat(
            error.as_str(),
        ),
        ProcessOutcome::Finished { stderr, .. } => decode_lossy(stderr),
    }
}

fn answer_with(o: &ProcessOutcome, answer: String) -> (r: Result<String, String>)
    ensures
        result_texts(r) == answer_or_failure(*o, answer@),
{
    match o {
        ProcessOutcome::Finished { success: true, .. } => Ok(answer),
        _ => Err(failure_message(o)),
    }
}

/// The answer to a session: what the tool printed.
pub fn connect_result(o: &ProcessOutcome) -> (r: Result<String, String>)
    ensures
        result_texts(r) == connect_answer(*o),
{
    match o {
        ProcessOutcome::Finished { success: true, stdout, .. } => Ok(decode_lossy(stdout)),
        _ => Err(failure_message(o)),
    }
}

/// The answer to an upload: a confirmation.
pub fn upload_result(o: &ProcessOutcome) -> (r: Result<String, String>)
    ensures
        result_texts(r) == upload_answer(*o),
{
    answer_with(o, String::from_str("Upload r\u{e9}ussi !"))
}

/// The answer to a download: a confirmation.
pub fn download_result(o: &ProcessOutcome) -> (r: Result<String, String>)
    ensures
        result_texts(r) == download_answer(*o),
{
    answer_with(o, String::from_str("Download r\u{e9}ussi !"))
}

/// The answer to storing a profile: a confirmation that names it.
pub fn profile_add_result(name: &str, o: &ProcessOutcome) -> (r: Result<String, String>)
    ensures
        result_texts(r) == profile_add_answer(name@, *o),
{
    let m = String::from_str("Profil '").concat(name).concat("' cr\u{e9}\u{e9} avec succ\u{e8}s");
    answer_with(o, m)
}

/// The answer to removing a profile: a confirmation that names it.
pub fn profile_delete_result(name: &str, o: &ProcessOutcome) -> (r: Result<String, String>)
    ensures
        result_texts(r) == profile_delete_answer(name@, *o),
{
    let m = String::from_str("Profil '").concat(name).concat("' supprim\u{e9}");
    answer_with(o, m)
}

/// The answer to listing the profiles: the profiles of the tool's table.
pub fn profile_list_result(o: &ProcessOutcome) -> (r: Result<Vec<Profile>, String>)
    ensures
        match r {
            Ok(v) => failure_of(*o) is None && profile_views(v@) == listed_profiles(output_of(*o)),
            Err(e) => failure_of(*o) == Some(e@),
        },
{
    match o {
        ProcessOutcome::Finished { success: true, stdout, .. } => {
            let text = decode_lossy(stdout);
            Ok(parse_profile_list(text.as_str()))
        },
        _ => Err(failure_message(o)),
    }
}

/// Whether `part` occurs in `t` as a contiguous piece.
pub open spec fn contains_text(t: Seq<char>, part: Seq<char>) -> bool {
    exists|i: int| 0 <= i && i + part.len() <= t.len() && #[trigger] t.subrange(i, i + part.len()) == part
}

proof fn lemma_contains_middle(a: Seq<char>, m: Seq<char>, b: Seq<char>)
    ensures
        contains_text(a + m + b, m),
{
    let t = a + m + b;
    assert(t.subrange(a.len() as int, (a.len() + m.len()) as int) =~= m);
}

/// A run that could not start fails every operation alike, with a message
/// that is never empty and that carries the system's description.
pub proof fn lemma_not_started_reported(o: ProcessOutcome, name: Seq<char>)
    requires
        o is NotStarted,
    ensures
        failure_of(o) == Some(not_started_text(o->error@)),
        connect_answer(o) == Err::<Seq<char>, Seq<char>>(not_started_text(o->error@)),
        upload_answer(o) == Err::<Seq<char>, Seq<char>>(not_started_text(o->error@)),
        download_answer(o) == Err::<Seq<char>, Seq<char>>(not_started_text(o->error@)),
        profile_add_answer(name, o) == Err::<Seq<char>, Seq<char>>(not_started_text(o->error@)),
        profile_delete_answer(name, o) == Err::<Seq<char>, Seq<char>>(
            not_started_text(o->error@),
        ),
        not_started_text(o->error@).len() > 0,
        contains_text(not_started_text(o->error@), o->error@),
{
    reveal_strlit("Failed to execute myssh: ");
    lemma_contains_middle("Failed to execute myssh: "@, o->error@, seq![]);
    assert("Failed to execute myssh: "@ + o->error@ + seq![] =~= not_started_text(o->error@));
}

/// A profile stored or removed successfully is confirmed by a message that
/// names it.
pub proof fn lemma_confirmation_names_profile(name: Seq<char>, o: ProcessOutcome)
    requires
        failure_of(o) is None,
    ensures
        profile_add_answer(name, o) is Ok,
        contains_text(profile_add_answer(name, o)->Ok_0, name),
        profile_delete_answer(name, o) is Ok,
        contains_text(profile_delete_answer(name, o)->Ok_0, name),
{
    lemma_contains_middle("Profil '"@, name, "' cr\u{e9}\u{e9} avec succ\u{e8}s"@);
    lemma_contains_middle("Profil '"@, name, "' supprim\u{e9}"@);
}

} // verus!
