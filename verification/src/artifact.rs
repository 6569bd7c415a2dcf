//! Artifact locator and response builder: the expected output name, where it
//! must exist, the client-facing URL, and the response for every outcome.
//! Existence of the artifact — not the converter's exit code — decides
//! success.

use vstd::prelude::*;
use crate::text::contains_seq;
use crate::text::lemma_concat_contains;
use crate::workspace::output_root_spec;
use crate::workspace::spec_task_output_dir;
use crate::workspace::task_output_dir;

verus! {

/// True when the name ends in the conventional source extension, in any
/// letter case.
pub open spec fn has_source_ext(name: Seq<char>) -> bool {
    &&& name.len() >= 4
    &&& name[name.len() - 4] == '.'
    &&& (name[name.len() - 3] == 'p' || name[name.len() - 3] == 'P')
    &&& (name[name.len() - 2] == 'd' || name[name.len() - 2] == 'D')
    &&& (name[name.len() - 1] == 'f' || name[name.len() - 1] == 'F')
}

/// The artifact name expected for an input name: a final conventional
/// extension, in any letter case, becomes the markup extension; any other
/// name is expected unchanged.
pub open spec fn spec_output_filename(name: Seq<char>) -> Seq<char> {
    if has_source_ext(name) {
        name.take(name.len() - 4) + ".html"@
    } else {
        name
    }
}

/// Computes the artifact name the converter is expected to produce.
pub fn output_filename(name: &str) -> (r: String)
    ensures
        r@ == spec_output_filename(name@),
{
    let n = name.unicode_len();
    if n >= 4 {
        let c1 = name.get_char(n - 4);
        let c2 = name.get_char(n - 3);
        let c3 = name.get_char(n - 2);
        let c4 = name.get_char(n - 1);
        if c1 == '.' && (c2 == 'p' || c2 == 'P') && (c3 == 'd' || c3 == 'D') && (c4 == 'f' || c4
            == 'F') {
            let stem = name.substring_char(0, n - 4);
            let mut r = stem.to_owned();
            r.append(".html");
            proof {
                assert(name@.take(n - 4 as int) =~= name@.subrange(0, n as int - 4));
                assert(r@ == spec_output_filename(name@));
            }
            return r;
        }
    }
    name.to_owned()
}

/// The filesystem path where the artifact must exist after invocation.
pub open spec fn spec_artifact_path(task_id: Seq<char>, filename: Seq<char>) -> Seq<char> {
    spec_task_output_dir(task_id) + seq!['/'] + filename
}

/// Builds the expected artifact path for a task.
pub fn artifact_path(task_id: &str, filename: &str) -> (r: String)
    ensures
        r@ == spec_artifact_path(task_id@, filename@),
{
    let mut p = task_output_dir(task_id);
    p.append("/");
    p.append(filename);
    proof {
        reveal_strlit("/");
        assert("/"@ =~= seq!['/']);
        assert(p@ =~= spec_artifact_path(task_id@, filename@));
    }
    p
}

/// The client-facing URL under which the artifact is served.
pub open spec fn spec_html_url(task_id: Seq<char>, filename: Seq<char>) -> Seq<char> {
    "/output/"@ + task_id + seq!['/'] + filename
}

/// Builds the client-facing URL for a task's artifact.
pub fn html_url(task_id: &str, filename: &str) -> (r: String)
    ensures
        r@ == spec_html_url(task_id@, filename@),
{
    let mut u = "/output/".to_owned();
    u.append(task_id);
    u.append("/");
    u.append(filename);
    proof {
        reveal_strlit("/");
        assert("/"@ =~= seq!['/']);
        assert(u@ =~= spec_html_url(task_id@, filename@));
    }
    u
}

/// The URL and the artifact path point at the same entry: both are a fixed
/// root — the serving prefix for the one, the artifact store for the other —
/// followed by the same task identifier and artifact name. A URL returned on
/// success therefore resolves exactly to the path whose existence was
/// checked.
pub proof fn lemma_url_names_artifact(task_id: Seq<char>, filename: Seq<char>)
    ensures
        spec_html_url(task_id, filename) == "/output"@ + (seq!['/'] + task_id + seq!['/']
            + filename),
        spec_artifact_path(task_id, filename) == output_root_spec() + (seq!['/'] + task_id
            + seq!['/'] + filename),
{
    reveal_strlit("/output/");
    reveal_strlit("/output");
    assert("/output/"@ =~= "/output"@ + seq!['/']);
    assert(spec_html_url(task_id, filename) =~= "/output"@ + (seq!['/'] + task_id + seq!['/']
        + filename));
    assert(spec_artifact_path(task_id, filename) =~= output_root_spec() + (seq!['/'] + task_id
        + seq!['/'] + filename));
}

/// What a request answers: the JSON-shaped outcome of one conversion.
pub struct ConvertResponse {
    pub success: bool,
    pub message: String,
    pub html_url: Option<String>,
    pub filename: Option<String>,
}

/// The mathematical value of a response.
pub struct ResponseV {
    pub success: bool,
    pub message: Seq<char>,
    pub html_url: Option<Seq<char>>,
    pub filename: Option<Seq<char>>,
}

impl View for ConvertResponse {
    type V = ResponseV;

    open spec fn view(&self) -> ResponseV {
        ResponseV {
            success: self.success,
            message: self.message@,
            html_url: match self.html_url {
                Some(u) => Some(u@),
                None => None,
            },
            filename: match self.filename {
                Some(f) => Some(f@),
                None => None,
            },
        }
    }
}

/// The diagnostic text reported when the artifact is absent: both captured
/// streams, verbatim.
pub open spec fn spec_failure_message(stderr_text: Seq<char>, stdout_text: Seq<char>) -> Seq<
    char,
> {
    "Conversion failed. stderr: "@ + stderr_text + " stdout: "@ + stdout_text
}

/// The failure diagnostic holds both captured streams verbatim.
pub proof fn lemma_failure_message_has_streams(stderr_text: Seq<char>, stdout_text: Seq<char>)
    ensures
        contains_seq(spec_failure_message(stderr_text, stdout_text), stderr_text),
        contains_seq(spec_failure_message(stderr_text, stdout_text), stdout_text),
{
    let m = spec_failure_message(stderr_text, stdout_text);
    assert(m =~= "Conversion failed. stderr: "@ + stderr_text + (" stdout: "@ + stdout_text));
    lemma_concat_contains(
        "Conversion failed. stderr: "@,
        stderr_text,
        " stdout: "@ + stdout_text,
    );
    assert(m =~= ("Conversion failed. stderr: "@ + stderr_text + " stdout: "@) + stdout_text
        + Seq::<char>::empty());
    lemma_concat_contains(
        "Conversion failed. stderr: "@ + stderr_text + " stdout: "@,
        stdout_text,
        Seq::<char>::empty(),
    );
}

/// Decides the response once the invoker has returned: success exactly when
/// the expected artifact exists, with the URL and name on success, and both
/// captured streams verbatim on failure.
pub fn decide_outcome(
    artifact_exists: bool,
    task_id: &str,
    out_name: &str,
    stdout_text: &str,
    stderr_text: &str,
) -> (r: ConvertResponse)
    ensures
        r@.success == artifact_exists,
        artifact_exists ==> r@ == (ResponseV {
            success: true,
            message: "Conversion successful"@,
            html_url: Some(spec_html_url(task_id@, out_name@)),
            filename: Some(out_name@),
        }),
        !artifact_exists ==> r@ == (ResponseV {
            success: false,
            message: spec_failure_message(stderr_text@, stdout_text@),
            html_url: None,
            filename: None,
        }),
{
    if artifact_exists {
        ConvertResponse {
            success: true,
            message: "Conversion successful".to_owned(),
            html_url: Some(html_url(task_id, out_name)),
            filename: Some(out_name.to_owned()),
        }
    } else {
        let mut msg = "Conversion failed. stderr: ".to_owned();
        msg.append(stderr_text);
        msg.append(" stdout: ");
        msg.append(stdout_text);
        proof {
            assert(msg@ =~= spec_failure_message(stderr_text@, stdout_text@));
        }
        ConvertResponse { success: false, message: msg, html_url: None, filename: None }
    }
}

/// The response when the converter process could not be launched at all:
/// an internal error, distinct from a conversion failure.
pub fn launch_failure_response(err_text: &str) -> (r: ConvertResponse)
    ensures
        r@ == (ResponseV {
            success: false,
            message: "Failed to execute pdf2htmlEX: "@ + err_text@,
            html_url: None,
            filename: None,
        }),
{
    let mut msg = "Failed to execute pdf2htmlEX: ".to_owned();
    msg.append(err_text);
    ConvertResponse { success: false, message: msg, html_url: None, filename: None }
}

/// The response when the request carried no file field at all.
pub fn missing_file_response() -> (r: ConvertResponse)
    ensures
        r@ == (ResponseV {
            success: false,
            message: "No PDF file uploaded"@,
            html_url: None,
            filename: None,
        }),
{
    ConvertResponse {
        success: false,
        message: "No PDF file uploaded".to_owned(),
        html_url: None,
        filename: None,
    }
}

} // verus!
