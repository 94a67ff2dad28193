//! Version-control decisions: reading the output of git commands, the
//! release gate on the repository state, and the changelog of a release.

use vstd::prelude::*;
use crate::error::{is_vcs_error, ReleaseError, VcsOperation};
use crate::text::{
    chars_of, concat_str, lines, parse_u32, parse_u32_in, push_range, split_lines, string_of,
    strings_view, trim, trim_chars,
};

verus! {

/// Subject of the commit that performs the release of version `v`.
pub open spec fn release_subject(v: Seq<char>) -> Seq<char> {
    "chore: release v"@ + v
}

/// A log line (`subject (hash)`) of the commit that released version `old`:
/// the boundary commit of the next changelog.
pub open spec fn is_boundary(line: Seq<char>, old: Seq<char>) -> bool {
    let head = release_subject(old) + " ("@;
    head.len() <= line.len() && line.subrange(0, head.len() as int) == head
}

/// The log lines (given newest first) oldest first, without the boundary
/// commit of `old`.
pub open spec fn changelog_entries(ls: Seq<Seq<char>>, old: Seq<char>) -> Seq<Seq<char>>
    decreases ls.len(),
{
    if ls.len() == 0 {
        Seq::empty()
    } else {
        let rest = changelog_entries(ls.drop_first(), old);
        if is_boundary(ls[0], old) {
            rest
        } else {
            rest.push(ls[0])
        }
    }
}

/// The entries as bullets (`* entry`), one per line.
pub open spec fn bullets(es: Seq<Seq<char>>) -> Seq<char>
    decreases es.len(),
{
    if es.len() == 0 {
        Seq::empty()
    } else if es.len() == 1 {
        "* "@ + es[0]
    } else {
        bullets(es.drop_last()) + "\n"@ + "* "@ + es.last()
    }
}

/// The changelog for the log output `log` of the range after version `old`.
pub open spec fn changelog(log: Seq<char>, old: Seq<char>) -> Seq<char> {
    bullets(changelog_entries(lines(log), old))
}

/// With no commit of the previous release among the log lines (given
/// newest first), the changelog lists every commit exactly once, oldest
/// first.
pub proof fn changelog_is_oldest_first(ls: Seq<Seq<char>>, old: Seq<char>)
    requires
        forall|i: int| 0 <= i < ls.len() ==> !is_boundary(#[trigger] ls[i], old),
    ensures
        changelog_entries(ls, old) == ls.reverse(),
    decreases ls.len(),
{
    if ls.len() > 0 {
        changelog_is_oldest_first(ls.drop_first(), old);
        assert(ls.reverse() =~= ls.drop_first().reverse().push(ls[0]));
    }
}

/// The commit that released the previous version never appears in the
/// changelog, and every entry is one of the log lines.
pub proof fn changelog_excludes_boundary(ls: Seq<Seq<char>>, old: Seq<char>)
    ensures
        forall|i: int|
            0 <= i < changelog_entries(ls, old).len() ==> !is_boundary(
                #[trigger] changelog_entries(ls, old)[i],
                old,
            ) && ls.contains(changelog_entries(ls, old)[i]),
    decreases ls.len(),
{
    if ls.len() > 0 {
        changelog_excludes_boundary(ls.drop_first(), old);
        let rest = changelog_entries(ls.drop_first(), old);
        assert forall|i: int| 0 <= i < rest.len() implies ls.contains(rest[i]) by {
            assert(ls.drop_first().contains(rest[i]));
            let k = choose|k: int| 0 <= k < ls.drop_first().len() && ls.drop_first()[k] == rest[i];
            assert(ls[k + 1] == rest[i]);
        }
        assert(ls[0] == ls[0]);
    }
}

fn is_boundary_line(line: &[char], head: &[char]) -> (r: bool)
    ensures
        r == (head@.len() <= line@.len() && line@.subrange(0, head@.len() as int) == head@),
{
    if head.len() > line.len() {
        return false;
    }
    let mut k: usize = 0;
    while k < head.len()
        invariant
            head@.len() <= line@.len(),
            k <= head@.len(),
            forall|j: int| 0 <= j < k ==> line@[j] == head@[j],
        decreases head@.len() - k,
    {
        if line[k] != head[k] {
            assert(line@.subrange(0, head@.len() as int)[k as int] != head@[k as int]);
            return false;
        }
        k = k + 1;
    }
    assert(line@.subrange(0, head@.len() as int) =~= head@);
    true
}

/// Renders the changelog of a release from the output of
/// `git log --pretty=format:"%s (%h)" <old>..<new>` (newest commit first):
/// one bullet per commit, oldest first, without the commit that released
/// `old_version`. An empty range gives an empty changelog.
pub fn diff(log_output: &str, old_version: &str) -> (r: String)
    ensures
        r@ == changelog(log_output@, old_version@),
        log_output@.len() == 0 ==> r@.len() == 0,
{
    let text = chars_of(log_output);
    let ls = split_lines(text.as_slice());
    let head = chars_of(concat_str(concat_str("chore: release v", old_version).as_str(), " (").as_str());
    let ghost lv = ls@.map_values(|l: Vec<char>| l@);
    let bullet = chars_of("* ");
    let newline = chars_of("\n");
    let mut out: Vec<char> = Vec::new();
    let mut any: bool = false;
    let mut i: usize = ls.len();
    while i > 0
        invariant
            i <= ls@.len(),
            lv == ls@.map_values(|l: Vec<char>| l@),
            head@ == release_subject(old_version@) + " ("@,
            bullet@ == "* "@,
            newline@ == "\n"@,
            out@ == bullets(changelog_entries(lv.subrange(i as int, lv.len() as int), old_version@)),
            any == (changelog_entries(lv.subrange(i as int, lv.len() as int), old_version@).len()
                > 0),
        decreases i,
    {
        let line = &ls[i - 1];
        let ghost es = changelog_entries(lv.subrange(i as int, lv.len() as int), old_version@);
        assert(lv.subrange(i - 1, lv.len() as int).drop_first() =~= lv.subrange(i as int, lv.len() as int));
        assert(lv.subrange(i - 1, lv.len() as int)[0] == line@);
        if !is_boundary_line(line.as_slice(), head.as_slice()) {
            let ghost before = out@;
            if any {
                push_range(&mut out, newline.as_slice(), 0, newline.len());
            }
            push_range(&mut out, bullet.as_slice(), 0, bullet.len());
            push_range(&mut out, line.as_slice(), 0, line.len());
            assert(es.push(line@).drop_last() =~= es);
            assert(newline@.subrange(0, newline@.len() as int) =~= newline@);
            assert(bullet@.subrange(0, bullet@.len() as int) =~= bullet@);
            assert(line@.subrange(0, line@.len() as int) =~= line@);
            if any {
                assert(out@ =~= before + "\n"@ + "* "@ + line@);
            } else {
                assert(out@ =~= "* "@ + line@);
            }
            any = true;
        }
        i = i - 1;
    }
    assert(lv.subrange(0, lv.len() as int) =~= lv);
    string_of(out.as_slice())
}

/// The trimmed output of `git remote get-url origin`.
pub fn origin_url(output: &str) -> (r: String)
    ensures
        r@ == trim(output@),
{
    let t = trim_chars(chars_of(output).as_slice());
    string_of(t.as_slice())
}

/// The trimmed output of `git rev-parse --abbrev-ref HEAD`.
pub fn branch_name(output: &str) -> (r: String)
    ensures
        r@ == trim(output@),
{
    let t = trim_chars(chars_of(output).as_slice());
    string_of(t.as_slice())
}

/// Whether the working tree is dirty, from the exit status and the output
/// of `git status --porcelain`: any output means an uncommitted change.
pub fn is_repo_dirty(success: bool, stdout: &str, stderr: &str) -> (r: Result<bool, ReleaseError>)
    ensures
        !success ==> r is Err && is_vcs_error(r->Err_0, VcsOperation::Status, stderr@),
        success ==> r == Ok::<bool, ReleaseError>(stdout@.len() > 0),
{
    if !success {
        return Err(ReleaseError::Vcs(VcsOperation::Status, String::from_str(stderr)));
    }
    Ok(stdout.unicode_len() > 0)
}

/// Whether the branch lacks commits of its upstream, from the outcome of
/// `git fetch` and the exit status and output of
/// `git rev-list --count HEAD..origin/<branch>`: a count that does not
/// read as a number counts as zero.
pub fn is_behind_upstream(fetch_ok: bool, count_ok: bool, count_output: &str, stderr: &str) -> (r: Result<bool, ReleaseError>)
    ensures
        !fetch_ok ==> r is Err && is_vcs_error(r->Err_0, VcsOperation::Fetch, stderr@),
        fetch_ok && !count_ok ==> r is Err && is_vcs_error(
            r->Err_0,
            VcsOperation::CountBehind,
            stderr@,
        ),
        fetch_ok && count_ok ==> r == Ok::<bool, ReleaseError>(
            match parse_u32(trim(count_output@)) {
                Some(n) => n > 0,
                None => false,
            },
        ),
{
    if !fetch_ok {
        return Err(ReleaseError::Vcs(VcsOperation::Fetch, String::from_str(stderr)));
    }
    if !count_ok {
        return Err(ReleaseError::Vcs(VcsOperation::CountBehind, String::from_str(stderr)));
    }
    let t = trim_chars(chars_of(count_output).as_slice());
    match parse_u32_in(t.as_slice()) {
        Some(n) => Ok(n > 0),
        None => Ok(false),
    }
}

/// The tags listed by `git tag --sort=-v:refname`, one per line, latest
/// first.
pub fn tags(output: &str) -> (r: Vec<String>)
    ensures
        strings_view(r@) == lines(output@),
{
    let ls = split_lines(chars_of(output).as_slice());
    let ghost lv = ls@.map_values(|l: Vec<char>| l@);
    let mut r: Vec<String> = Vec::new();
    let mut i: usize = 0;
    while i < ls.len()
        invariant
            i <= ls@.len(),
            lv == ls@.map_values(|l: Vec<char>| l@),
            strings_view(r@) == lv.subrange(0, i as int),
        decreases ls@.len() - i,
    {
        let ghost before = r@;
        let s = string_of(ls[i].as_slice());
        r.push(s);
        assert(strings_view(r@) =~= strings_view(before).push(s@));
        assert(lv[i as int] == ls@[i as int]@);
        assert(strings_view(r@) =~= lv.subrange(0, i + 1));
        i = i + 1;
    }
    assert(lv.subrange(0, lv.len() as int) =~= lv);
    r
}

/// Arguments of `git log` for the commits after `old_version` up to
/// `new_version`, one line `subject (short hash)` each.
pub fn log_args(old_version: &str, new_version: &str) -> (r: Vec<String>)
    ensures
        strings_view(r@) == seq![
            "log"@,
            "--oneline"@,
            "--pretty=format:%s (%h)"@,
            old_version@ + ".."@ + new_version@,
        ],
{
    let range = concat_str(concat_str(old_version, "..").as_str(), new_version);
    let r = vec![
        String::from_str("log"),
        String::from_str("--oneline"),
        String::from_str("--pretty=format:%s (%h)"),
        range,
    ];
    assert(strings_view(r@) =~= seq![
        "log"@,
        "--oneline"@,
        "--pretty=format:%s (%h)"@,
        old_version@ + ".."@ + new_version@,
    ]);
    r
}

/// Arguments of `git rev-list` that count the commits of the upstream of
/// `branch` that `HEAD` lacks.
pub fn behind_count_args(branch: &str) -> (r: Vec<String>)
    ensures
        strings_view(r@) == seq!["rev-list"@, "--count"@, "HEAD..origin/"@ + branch@],
{
    let range = concat_str("HEAD..origin/", branch);
    let r = vec![String::from_str("rev-list"), String::from_str("--count"), range];
    assert(strings_view(r@) =~= seq!["rev-list"@, "--count"@, "HEAD..origin/"@ + branch@]);
    r
}

} // verus!
