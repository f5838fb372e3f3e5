//! The case workflow's rules: store layout, revision checks, schema names, log
//! sequencing, and the autonomy policy that decides which lifecycle proposals an
//! agent may apply unreviewed.
use vstd::prelude::*;
use crate::hg::is_white_space;
use crate::model::{cat, opt_view, text, AdvisoryError};
use crate::projection::{decimal, digit};
use crate::text::{push_char, str_eq};

pub mod case_review;
pub mod case_reason;
pub mod review;
pub mod autonomy;
pub mod dogfood;

verus! {

/// Schema of bounded engagement snapshots.
pub const SNAPSHOT_SCHEMA: &'static str = "advisorygraphen.engagement.snapshot.v1";

/// Schema of advisory spaces.
pub const SPACE_SCHEMA: &'static str = "advisorygraphen.space.v1";

/// Schema of report envelopes.
pub const REPORT_SCHEMA: &'static str = "advisorygraphen.report.v1";

/// Schema of projection requests.
pub const PROJECTION_REQUEST_SCHEMA: &'static str = "advisorygraphen.projection.request.v1";

/// Schema of completion review events.
pub const REVIEW_EVENT_SCHEMA: &'static str = "advisorygraphen.review.event.v1";

/// Schema of hypothesis lifecycle events.
pub const HYPOTHESIS_EVENT_SCHEMA: &'static str = "advisorygraphen.hypothesis.event.v1";

/// Schema of case log entries.
pub const CASE_LOG_ENTRY_SCHEMA: &'static str = "advisorygraphen.case.log.entry.v1";

pub open spec fn canonical_schema_spec(schema: Seq<char>) -> Seq<char> {
    if schema == "engagement_snapshot"@ || schema == "snapshot"@ {
        SNAPSHOT_SCHEMA@
    } else if schema == "space"@ || schema == "advisory_space"@ {
        SPACE_SCHEMA@
    } else if schema == "report"@ {
        REPORT_SCHEMA@
    } else if schema == "projection_request"@ {
        PROJECTION_REQUEST_SCHEMA@
    } else if schema == "review_event"@ {
        REVIEW_EVENT_SCHEMA@
    } else {
        schema
    }
}

/// The full schema id behind a short schema name; other names are taken as ids.
pub fn canonical_schema_name(schema: &str) -> (r: String)
    ensures
        r@ == canonical_schema_spec(schema@),
{
    if str_eq(schema, "engagement_snapshot") || str_eq(schema, "snapshot") {
        text(SNAPSHOT_SCHEMA)
    } else if str_eq(schema, "space") || str_eq(schema, "advisory_space") {
        text(SPACE_SCHEMA)
    } else if str_eq(schema, "report") {
        text(REPORT_SCHEMA)
    } else if str_eq(schema, "projection_request") {
        text(PROJECTION_REQUEST_SCHEMA)
    } else if str_eq(schema, "review_event") {
        text(REVIEW_EVENT_SCHEMA)
    } else {
        text(schema)
    }
}

/// `s` without its leading white space.
pub open spec fn trim_start_ws(s: Seq<char>) -> Seq<char>
    decreases s.len(),
{
    if s.len() > 0 && is_white_space(s[0]) {
        trim_start_ws(s.drop_first())
    } else {
        s
    }
}

/// `s` without its trailing white space.
pub open spec fn trim_end_ws(s: Seq<char>) -> Seq<char>
    decreases s.len(),
{
    if s.len() > 0 && is_white_space(s.last()) {
        trim_end_ws(s.drop_last())
    } else {
        s
    }
}

/// `s` without leading and trailing white space, as `str::trim` gives it.
pub open spec fn trim_ws(s: Seq<char>) -> Seq<char> {
    trim_end_ws(trim_start_ws(s))
}

fn white_space(c: char) -> (r: bool)
    ensures
        r == is_white_space(c),
{
    let u = c as u32;
    (0x9 <= u && u <= 0xd) || u == 0x20 || u == 0x85 || u == 0xa0 || u == 0x1680 || (0x2000 <= u
        && u <= 0x200a) || u == 0x2028 || u == 0x2029 || u == 0x202f || u == 0x205f || u == 0x3000
}

/// `s` without leading and trailing white space.
pub fn trim_text(s: &str) -> (r: String)
    ensures
        r@ == trim_ws(s@),
{
    let n = s.unicode_len();
    let mut i: usize = 0;
    assert(s@.subrange(0, n as int) =~= s@);
    while i < n && white_space(s.get_char(i))
        invariant
            n == s@.len(),
            i <= n,
            trim_start_ws(s@) == trim_start_ws(s@.subrange(i as int, n as int)),
        decreases n - i,
    {
        assert(s@.subrange(i as int, n as int).drop_first() =~= s@.subrange(i + 1, n as int));
        i = i + 1;
    }
    let mut j: usize = n;
    assert(trim_start_ws(s@) == s@.subrange(i as int, n as int));
    while j > i && white_space(s.get_char(j - 1))
        invariant
            n == s@.len(),
            i <= j <= n,
            trim_ws(s@) == trim_end_ws(s@.subrange(i as int, j as int)),
        decreases j,
    {
        assert(s@.subrange(i as int, j as int).drop_last() =~= s@.subrange(i as int, j - 1));
        j = j - 1;
    }
    String::from_str(s.substring_char(i, j))
}

/// Checks a write's base revision against the store head. With a head, the base
/// must be given and equal the head without surrounding white space; the error
/// names the head as expected and the base, or `<missing>`, as actual.
pub fn ensure_base_revision(head: Option<&str>, base: Option<&str>) -> (r: Result<(), AdvisoryError>)
    ensures
        match head {
            None => r is Ok,
            Some(h) => match base {
                None => r is Err && r->Err_0 is StaleRevision && r->Err_0->expected@ == trim_ws(h@)
                    && r->Err_0->actual@ == "<missing>"@,
                Some(b) => if trim_ws(h@) == b@ {
                    r is Ok
                } else {
                    r is Err && r->Err_0 is StaleRevision && r->Err_0->expected@ == trim_ws(h@)
                        && r->Err_0->actual@ == b@
                },
            },
        },
{
    let head = match head {
        Some(h) => trim_text(h),
        None => return Ok(()),
    };
    let base = match base {
        Some(b) => b,
        None => return Err(AdvisoryError::StaleRevision { expected: head, actual: text("<missing>") }),
    };
    if !str_eq(head.as_str(), base) {
        return Err(AdvisoryError::StaleRevision { expected: head, actual: text(base) });
    }
    Ok(())
}

/// `part` appended to the path `base`, as `Path::join` does on Unix for a part that
/// does not start with a separator: a separator is put between them unless `base` is
/// empty or already ends with one.
pub open spec fn path_join(base: Seq<char>, part: Seq<char>) -> Seq<char> {
    if base.len() == 0 {
        part
    } else if base.last() == '/' {
        base + part
    } else {
        base + "/"@ + part
    }
}

/// Joins a relative path part onto `base`.
pub fn join_path(base: &str, part: &str) -> (r: String)
    requires
        part@.len() == 0 || part@[0] != '/',
    ensures
        r@ == path_join(base@, part@),
{
    let n = base.unicode_len();
    if n == 0 {
        text(part)
    } else if base.get_char(n - 1) == '/' {
        cat(base, part)
    } else {
        let mut s = cat(base, "/");
        s.append(part);
        s
    }
}

/// A space id as a directory name: every `:` and `/` becomes `-`.
pub open spec fn dir_name(space_id: Seq<char>) -> Seq<char> {
    space_id.map_values(|c: char| if c == ':' || c == '/' { '-' } else { c })
}

fn space_dir_name(space_id: &str) -> (r: String)
    ensures
        r@ == dir_name(space_id@),
{
    let n = space_id.unicode_len();
    let mut out = String::new();
    let mut i: usize = 0;
    while i < n
        invariant
            i <= n,
            n == space_id@.len(),
            out@ == dir_name(space_id@.subrange(0, i as int)),
        decreases n - i,
    {
        let c = space_id.get_char(i);
        push_char(&mut out, if c == ':' || c == '/' { '-' } else { c });
        assert(space_id@.subrange(0, i + 1) =~= space_id@.subrange(0, i as int).push(c));
        assert(out@ =~= dir_name(space_id@.subrange(0, i + 1)));
        i = i + 1;
    }
    assert(space_id@.subrange(0, n as int) =~= space_id@);
    out
}

pub open spec fn space_dir_spec(store: Seq<char>, space_id: Seq<char>) -> Seq<char> {
    path_join(path_join(store, "spaces"@), dir_name(space_id))
}

/// The directory of a case space in the store: `<store>/spaces/<space id with ':'
/// and '/' replaced by '-'>`.
pub fn space_dir(store: &str, space_id: &str) -> (r: String)
    ensures
        r@ == space_dir_spec(store@, space_id@),
{
    proof {
        reveal_strlit("spaces");
    }
    let spaces = join_path(store, "spaces");
    let name = space_dir_name(space_id);
    assert(name@.len() == 0 || name@[0] != '/');
    join_path(spaces.as_str(), name.as_str())
}

/// The store-wide case log.
pub fn root_log_path(store: &str) -> (r: String)
    ensures
        r@ == path_join(store@, "logs/morphism-log.jsonl"@),
{
    proof {
        reveal_strlit("logs/morphism-log.jsonl");
    }
    join_path(store, "logs/morphism-log.jsonl")
}

/// The case log of one space.
pub fn space_log_path(store: &str, space_id: &str) -> (r: String)
    ensures
        r@ == path_join(space_dir_spec(store@, space_id@), "logs/morphism-log.jsonl"@),
{
    let dir = space_dir(store, space_id);
    proof {
        reveal_strlit("logs/morphism-log.jsonl");
    }
    join_path(dir.as_str(), "logs/morphism-log.jsonl")
}

/// The final component of a path, as `Path::file_name` reads it on this platform.
pub uninterp spec fn path_file_name(path: Seq<char>) -> Option<Seq<char>>;

/// The path's last component is `..`: the path is `..` or ends with `/..`.
pub open spec fn ends_in_parent(path: Seq<char>) -> bool {
    path == ".."@ || (path.len() >= 3 && path.subrange(path.len() - 3, path.len() as int) == "/.."@)
}

/// The path is one normal component on every target: no separator (a slash or a backslash), no
/// drive prefix (`:`), and neither `.` nor `..`.
pub open spec fn single_component(path: Seq<char>) -> bool {
    &&& path.len() > 0
    &&& !path.contains('/')
    &&& !path.contains('\\')
    &&& !path.contains(':')
    &&& path != "."@
    &&& path != ".."@
}

/// Calls `Path::file_name`. The contract names the result `path_file_name(path)`, a
/// function of the path's text alone; the file name of a text path is text. As std
/// documents it, the root `/` and a path that terminates in `..` have no file name,
/// and a path that is one normal component is its own file name; what it returns for
/// other paths (the last normal component) is left to the name.
#[verifier::external_body]
fn std_file_name(path: &str) -> (r: Option<String>)
    ensures
        opt_view(r) == path_file_name(path@),
        path@ == "/"@ ==> r is None,
        ends_in_parent(path@) ==> r is None,
        single_component(path@) ==> opt_view(r) == Some(path@),
{
    std::path::Path::new(path).file_name().and_then(|name| name.to_str()).map(|name| name.to_string())
}

/// The file name of a report path, `report.json` when the path has none.
pub fn file_name(path: &str) -> (r: String)
    ensures
        r@ == match path_file_name(path@) {
            Some(n) => n,
            None => "report.json"@,
        },
        path@ == "/"@ || ends_in_parent(path@) ==> r@ == "report.json"@,
        single_component(path@) ==> r@ == path@,
{
    match std_file_name(path) {
        Some(n) => n,
        None => text("report.json"),
    }
}

/// `n` in decimal, left-padded with zeros to at least six digits.
pub open spec fn padded6(n: nat) -> Seq<char> {
    let d = decimal(n);
    if d.len() >= 6 {
        d
    } else {
        Seq::new((6 - d.len()) as nat, |i: int| '0') + d
    }
}

fn decimal64(n: u64) -> (r: String)
    ensures
        r@ == decimal(n as nat),
    decreases n,
{
    let mut s = if n >= 10 {
        decimal64(n / 10)
    } else {
        String::new()
    };
    let d = n % 10;
    let c = if d == 0 {
        '0'
    } else if d == 1 {
        '1'
    } else if d == 2 {
        '2'
    } else if d == 3 {
        '3'
    } else if d == 4 {
        '4'
    } else if d == 5 {
        '5'
    } else if d == 6 {
        '6'
    } else if d == 7 {
        '7'
    } else if d == 8 {
        '8'
    } else {
        '9'
    };
    assert(c == digit(d as nat));
    push_char(&mut s, c);
    s
}

/// `n` as the six-digit sequence numbers of the case log write it.
pub fn padded6_text(n: u64) -> (r: String)
    ensures
        r@ == padded6(n as nat),
{
    let d = decimal64(n);
    let len = d.unicode_len();
    if len >= 6 {
        return d;
    }
    let mut s = String::new();
    let mut k: usize = 0;
    while k < 6 - len
        invariant
            len < 6,
            k <= 6 - len,
            s@ == Seq::new(k as nat, |i: int| '0'),
        decreases 6 - len - k,
    {
        push_char(&mut s, '0');
        assert(s@ =~= Seq::new((k + 1) as nat, |i: int| '0'));
        k = k + 1;
    }
    s.append(d.as_str());
    s
}

/// The sequence number the next log entry of `space_id` gets: one more than the
/// entries already logged for it. `case_space_ids` holds the `case_space_id` of
/// every readable entry of the store-wide log.
pub fn next_sequence(case_space_ids: &Vec<Option<String>>, space_id: &str) -> (r: u64)
    requires
        case_space_ids@.len() < u64::MAX,
    ensures
        r == crate::projection::count_where(case_space_ids@, logged_for(space_id@)) + 1,
{
    let ghost s = case_space_ids@;
    let mut n: u64 = 0;
    let mut i: usize = 0;
    while i < case_space_ids.len()
        invariant
            i <= case_space_ids.len(),
            s == case_space_ids@,
            s.len() < u64::MAX,
            n == crate::projection::count_where(s.take(i as int), logged_for(space_id@)),
            n <= i,
        decreases case_space_ids.len() - i,
    {
        assert(s.take(i + 1).drop_last() =~= s.take(i as int));
        let hit = match &case_space_ids[i] {
            Some(id) => str_eq(id.as_str(), space_id),
            None => false,
        };
        if hit {
            n = n + 1;
        }
        i = i + 1;
    }
    assert(s.take(s.len() as int) =~= s);
    n + 1
}

pub open spec fn logged_for(space_id: Seq<char>) -> spec_fn(Option<String>) -> bool {
    |id: Option<String>| opt_view(id) == Some(space_id)
}

} // verus!
