//! Task workspace manager: a fresh opaque identifier per request, an output
//! directory named by it, and a staging path for the sanitized upload name.
//! The filesystem namespace is partitioned by these paths alone.

use vstd::prelude::*;
use crate::text::contains_char;

verus! {

/// A character the task identifier may contain: lowercase hexadecimal or a
/// hyphen.
pub open spec fn is_id_char(c: char) -> bool {
    let u = c as u32;
    (48 <= u && u <= 57) || (97 <= u && u <= 102) || c == '-'
}

/// Relies on uuid::Uuid::new_v4 and its Display form: a freshly drawn random
/// 128-bit identifier, spelled as 36 characters of lowercase hexadecimal in
/// hyphenated groups. Randomness keeps no two calls related; only the shape
/// of the result is stated.
#[verifier::external_body]
pub fn fresh_task_id() -> (r: String)
    ensures
        r@.len() == 36,
        forall|i: int| 0 <= i < r@.len() ==> is_id_char(#[trigger] r@[i]),
{
    uuid::Uuid::new_v4().to_string()
}

/// Relies on sanitize_filename::sanitize: it removes path separators
/// (`/`, `\`), the other reserved punctuation, and control characters, maps a
/// dot-only name to the empty string, and truncates to at most 255 bytes.
/// Only what holds on every platform the crate sanitizes for is stated.
#[verifier::external_body]
pub fn sanitize_name(name: &str) -> (r: String)
    ensures
        forall|i: int|
            0 <= i < r@.len() ==> (#[trigger] r@[i]) != '/' && r@[i] != '\\' && r@[i] as u32
                > 0x1f && !(0x80 <= r@[i] as u32 <= 0x9f),
        r@ != "."@,
        r@ != ".."@,
        r@.len() <= 255,
{
    sanitize_filename::sanitize(name)
}

/// The flat staging root for uploaded inputs.
pub open spec fn upload_root_spec() -> Seq<char> {
    "/tmp/pdf2html"@
}

/// The staging root as a path string.
pub fn upload_root() -> (r: &'static str)
    ensures
        r@ == upload_root_spec(),
{
    "/tmp/pdf2html"
}

/// The artifact store root, one subdirectory per task.
pub open spec fn output_root_spec() -> Seq<char> {
    "/tmp/pdf2html/output"@
}

/// The artifact store root as a path string.
pub fn output_root() -> (r: &'static str)
    ensures
        r@ == output_root_spec(),
{
    "/tmp/pdf2html/output"
}

/// Where the upload of task `task_id` named `name` is staged: a single
/// file directly under the staging root, keyed by the task identifier and
/// the sanitized name, so concurrent tasks never share an input path.
pub open spec fn spec_staged_upload_path(task_id: Seq<char>, name: Seq<char>) -> Seq<char> {
    upload_root_spec() + seq!['/'] + task_id + seq!['-'] + name
}

/// Builds the staging path for a task's (sanitized) upload name.
pub fn staged_upload_path(task_id: &str, name: &str) -> (r: String)
    ensures
        r@ == spec_staged_upload_path(task_id@, name@),
{
    let mut p = upload_root().to_owned();
    p.append("/");
    p.append(task_id);
    p.append("-");
    p.append(name);
    proof {
        reveal_strlit("/");
        reveal_strlit("-");
        assert("/"@ =~= seq!['/']);
        assert("-"@ =~= seq!['-']);
        assert(p@ =~= spec_staged_upload_path(task_id@, name@));
    }
    p
}

/// The output directory owned by the task `task_id`: directly under the
/// artifact store root.
pub open spec fn spec_task_output_dir(task_id: Seq<char>) -> Seq<char> {
    output_root_spec() + seq!['/'] + task_id
}

/// Builds the output directory path for a task.
pub fn task_output_dir(task_id: &str) -> (r: String)
    ensures
        r@ == spec_task_output_dir(task_id@),
{
    let mut p = output_root().to_owned();
    p.append("/");
    p.append(task_id);
    proof {
        reveal_strlit("/");
        assert("/"@ =~= seq!['/']);
        assert(p@ =~= spec_task_output_dir(task_id@));
    }
    p
}

/// A staged upload can only denote an entry directly inside the staging
/// root: the staged path is the root, a separator, then one final component
/// made of the task identifier, a hyphen, and the sanitized name. With no
/// separator in either part, that component holds no separator and is
/// neither `.` nor `..`, so no such path escapes the staging root.
pub proof fn lemma_staged_path_confined(task_id: Seq<char>, name: Seq<char>)
    requires
        !contains_char(task_id, '/'),
        !contains_char(task_id, '\\'),
        !contains_char(name, '/'),
        !contains_char(name, '\\'),
    ensures
        ({
            let p = spec_staged_upload_path(task_id, name);
            let rl = upload_root_spec().len() as int;
            let component = p.subrange(rl + 1, p.len() as int);
            &&& p.len() == rl + 1 + task_id.len() + 1 + name.len()
            &&& p.subrange(0, rl) == upload_root_spec()
            &&& p[rl] == '/'
            &&& component == task_id + seq!['-'] + name
            &&& forall|i: int| rl + 1 <= i < p.len() ==> p[i] != '/' && p[i] != '\\'
            &&& component != ".."@
            &&& component != "."@
        }),
{
    reveal_strlit(".");
    reveal_strlit("..");
    let p = spec_staged_upload_path(task_id, name);
    let rl = upload_root_spec().len() as int;
    let component = task_id + seq!['-'] + name;
    assert(p.subrange(0, rl) =~= upload_root_spec());
    assert(p.subrange(rl + 1, p.len() as int) =~= component);
    assert(component[task_id.len() as int] == '-');
    assert forall|i: int| rl + 1 <= i < p.len() implies p[i] != '/' && p[i] != '\\' by {
        let j = i - rl - 1;
        if j < task_id.len() {
            assert(p[i] == task_id[j]);
        } else if j == task_id.len() {
            assert(p[i] == '-');
        } else {
            assert(p[i] == name[j - task_id.len() - 1]);
        }
    }
}

/// Two tasks whose identifiers have one fixed length (as the random
/// identifiers do) stage to distinct paths whenever the identifier or the
/// sanitized name differs — in particular, concurrent tasks with equal
/// upload names never share an input path.
pub proof fn lemma_distinct_tasks_distinct_staging(
    id1: Seq<char>,
    n1: Seq<char>,
    id2: Seq<char>,
    n2: Seq<char>,
)
    requires
        id1.len() == id2.len(),
        id1 != id2 || n1 != n2,
    ensures
        spec_staged_upload_path(id1, n1) != spec_staged_upload_path(id2, n2),
{
    let rl = upload_root_spec().len() as int;
    let p1 = spec_staged_upload_path(id1, n1);
    let p2 = spec_staged_upload_path(id2, n2);
    if p1 == p2 {
        assert(p1.len() == rl + 1 + id1.len() + 1 + n1.len());
        assert(p2.len() == rl + 1 + id2.len() + 1 + n2.len());
        assert(n1.len() == n2.len());
        assert(id1 =~= id2) by {
            assert forall|i: int| 0 <= i < id1.len() implies id1[i] == id2[i] by {
                assert(p1[rl + 1 + i] == id1[i]);
                assert(p2[rl + 1 + i] == id2[i]);
            }
        }
        assert(n1 =~= n2) by {
            assert forall|i: int| 0 <= i < n1.len() implies n1[i] == n2[i] by {
                assert(p1[rl + 1 + id1.len() + 1 + i] == n1[i]);
                assert(p2[rl + 1 + id2.len() + 1 + i] == n2[i]);
            }
        }
    }
}

/// Distinct task identifiers own disjoint filesystem footprints: their
/// output directories differ, and neither directory lies inside the other.
pub proof fn lemma_distinct_ids_isolated(a: Seq<char>, b: Seq<char>)
    requires
        a != b,
        !contains_char(a, '/'),
        !contains_char(b, '/'),
    ensures
        spec_task_output_dir(a) != spec_task_output_dir(b),
        !(spec_task_output_dir(a) + seq!['/']).is_prefix_of(spec_task_output_dir(b)),
        !(spec_task_output_dir(b) + seq!['/']).is_prefix_of(spec_task_output_dir(a)),
{
    let rl = output_root_spec().len() as int;
    let da = spec_task_output_dir(a);
    let db = spec_task_output_dir(b);
    if da == db {
        assert(a =~= b) by {
            assert(da.len() == rl + 1 + a.len());
            assert(db.len() == rl + 1 + b.len());
            assert(a.len() == b.len());
            assert forall|i: int| 0 <= i < a.len() implies a[i] == b[i] by {
                assert(da[rl + 1 + i] == a[i]);
                assert(db[rl + 1 + i] == b[i]);
            }
        }
    }
    if (da + seq!['/']).is_prefix_of(db) {
        assert(db[rl + 1 + a.len()] == (da + seq!['/'])[rl + 1 + a.len()]);
        assert(db[rl + 1 + a.len()] == '/');
        assert(b[a.len() as int] == '/');
        assert(contains_char(b, '/'));
    }
    if (db + seq!['/']).is_prefix_of(da) {
        assert(da[rl + 1 + b.len()] == (db + seq!['/'])[rl + 1 + b.len()]);
        assert(da[rl + 1 + b.len()] == '/');
        assert(a[b.len() as int] == '/');
        assert(contains_char(a, '/'));
    }
}

/// A fresh task identifier holds no separator, so the isolation lemma applies
/// to any two of them.
pub proof fn lemma_id_chars_no_separator(id: Seq<char>)
    requires
        forall|i: int| 0 <= i < id.len() ==> is_id_char(#[trigger] id[i]),
    ensures
        !contains_char(id, '/'),
        !contains_char(id, '\\'),
{
    assert forall|i: int| 0 <= i < id.len() implies id[i] != '/' && id[i] != '\\' by {
        assert(is_id_char(id[i]));
    }
}

} // verus!
