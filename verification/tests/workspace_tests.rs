use pdf2html::workspace::fresh_task_id;
use pdf2html::workspace::sanitize_name;
use pdf2html::workspace::staged_upload_path;
use pdf2html::workspace::task_output_dir;
use pdf2html::workspace::upload_root;
use pdf2html::workspace::output_root;

#[test]
fn task_ids_have_uuid_shape() {
    let id = fresh_task_id();
    assert_eq!(id.len(), 36);
    for c in id.chars() {
        assert!(c.is_ascii_hexdigit() && !c.is_ascii_uppercase() || c == '-');
    }
}

#[test]
fn simultaneous_tasks_get_distinct_workspaces() {
    let ids: Vec<String> = (0..8).map(|_| fresh_task_id()).collect();
    for i in 0..ids.len() {
        for j in 0..ids.len() {
            if i != j {
                assert_ne!(ids[i], ids[j]);
                let di = task_output_dir(&ids[i]);
                let dj = task_output_dir(&ids[j]);
                assert_ne!(di, dj);
                assert!(!dj.starts_with(&format!("{}/", di)));
            }
        }
    }
}

#[test]
fn sanitize_strips_traversal_and_separators() {
    let s = sanitize_name("../../etc/passwd");
    assert!(!s.contains('/'));
    assert!(!s.contains('\\'));
    assert_ne!(s, "..");
    assert_eq!(s, "....etcpasswd");
}

#[test]
fn sanitize_neutralizes_dot_names_and_punctuation() {
    assert_eq!(sanitize_name(".."), "");
    assert_eq!(sanitize_name("."), "");
    assert_eq!(sanitize_name("a\\b:c"), "abc");
    assert_eq!(sanitize_name("report.pdf"), "report.pdf");
}

#[test]
fn staged_path_stays_under_upload_root() {
    let name = sanitize_name("../../../../evil.pdf");
    let p = staged_upload_path(&fresh_task_id(), &name);
    assert!(p.starts_with("/tmp/pdf2html/"));
    assert!(!p[upload_root().len() + 1..].contains('/'));
    assert_eq!(staged_upload_path("t1", "report.pdf"), "/tmp/pdf2html/t1-report.pdf");
}

#[test]
fn equal_upload_names_stage_apart_per_task() {
    let id1 = fresh_task_id();
    let id2 = fresh_task_id();
    assert_ne!(id1, id2);
    let p1 = staged_upload_path(&id1, "report.pdf");
    let p2 = staged_upload_path(&id2, "report.pdf");
    assert_ne!(p1, p2);
}

#[test]
fn output_dir_is_keyed_by_task_id() {
    assert_eq!(output_root(), "/tmp/pdf2html/output");
    assert_eq!(task_output_dir("abc"), "/tmp/pdf2html/output/abc");
}
