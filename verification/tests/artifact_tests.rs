use pdf2html::artifact::artifact_path;
use pdf2html::artifact::decide_outcome;
use pdf2html::artifact::html_url;
use pdf2html::artifact::launch_failure_response;
use pdf2html::artifact::missing_file_response;
use pdf2html::artifact::output_filename;

#[test]
fn extension_is_replaced_in_any_case() {
    assert_eq!(output_filename("doc.pdf"), "doc.html");
    assert_eq!(output_filename("DOC.PDF"), "DOC.html");
    assert_eq!(output_filename("mixed.Pdf"), "mixed.html");
    assert_eq!(output_filename("odd.pDf"), "odd.html");
    assert_eq!(output_filename("no-extension"), "no-extension");
}

#[test]
fn only_the_final_extension_is_replaced() {
    assert_eq!(output_filename("a.pdf.pdf"), "a.pdf.html");
    assert_eq!(output_filename("report.pdfx"), "report.pdfx");
    assert_eq!(output_filename(".pdf"), ".html");
    assert_eq!(output_filename("pdf"), "pdf");
}

#[test]
fn artifact_path_and_url_share_the_relative_entry() {
    assert_eq!(artifact_path("t1", "a.html"), "/tmp/pdf2html/output/t1/a.html");
    assert_eq!(html_url("t1", "a.html"), "/output/t1/a.html");
}

#[test]
fn success_points_at_the_checked_artifact() {
    let r = decide_outcome(true, "t9", "doc.html", "", "");
    assert!(r.success);
    assert_eq!(r.message, "Conversion successful");
    assert_eq!(r.html_url, Some("/output/t9/doc.html".to_string()));
    assert_eq!(r.filename, Some("doc.html".to_string()));
}

#[test]
fn absent_artifact_reports_both_streams_verbatim() {
    let r = decide_outcome(false, "t9", "doc.html", "the stdout text", "the stderr text");
    assert!(!r.success);
    assert_eq!(r.html_url, None);
    assert_eq!(r.filename, None);
    assert!(r.message.contains("the stdout text"));
    assert!(r.message.contains("the stderr text"));
    assert_eq!(r.message, "Conversion failed. stderr: the stderr text stdout: the stdout text");
}

#[test]
fn launch_failure_is_distinct_from_conversion_failure() {
    let r = launch_failure_response("No such file or directory");
    assert!(!r.success);
    assert_eq!(r.message, "Failed to execute pdf2htmlEX: No such file or directory");
    assert_eq!(r.html_url, None);
}

#[test]
fn missing_file_is_a_bad_request() {
    let r = missing_file_response();
    assert!(!r.success);
    assert_eq!(r.message, "No PDF file uploaded");
    assert_eq!(r.html_url, None);
    assert_eq!(r.filename, None);
}
