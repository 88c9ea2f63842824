//! The on-disk layout: directory and file names, the chapter file format and
//! the log record. The host does the reading and writing.

use vstd::prelude::*;
use crate::json::{Json, JsonView, json_of, merged, merge, parse_json, parsed_view, pretty_text};
use crate::number::{lemma_two_digits_injective, push_signed_decimal, push_two_digits};
use crate::number::{signed_decimal, two_digits};
use crate::text::{concat, concat3, copy_str, from_chars, push_str, to_chars};

verus! {

/// A title made safe as a directory name: both kinds of slash become `_`.
pub open spec fn safe_title(title: Seq<char>) -> Seq<char> {
    Seq::new(
        title.len(),
        |i: int|
            if title[i] == '/' || title[i] == '\\' {
                '_'
            } else {
                title[i]
            },
    )
}

/// The name of the file that holds the chapter at position `index` of a batch.
pub open spec fn chapter_file(index: nat) -> Seq<char> {
    two_digits(index + 1) + ".txt"@
}

/// The rule that closes a chapter file's header.
pub open spec fn header_rule() -> Seq<char> {
    Seq::new(50, |i: int| '=')
}

/// What a chapter file holds.
pub open spec fn chapter_contents(title: Seq<char>, url: Seq<char>, body: Seq<char>) -> Seq<char> {
    "标题: "@ + title + "\n链接: "@ + url + "\n"@ + header_rule() + "\n\n"@ + body
}

/// The name of the file an exported chapter goes to.
pub open spec fn export_file(index: int) -> Seq<char> {
    signed_decimal(index) + ".md"@
}

/// One record of the log.
pub open spec fn log_record(timestamp: Seq<char>, message: Seq<char>) -> Seq<char> {
    "["@ + timestamp + "] "@ + message + "\n"@
}

/// A safe title holds no slash of either kind, and a title without any is left as it is.
pub proof fn lemma_safe_title(title: Seq<char>)
    ensures
        safe_title(title).len() == title.len(),
        forall|i: int|
            0 <= i < title.len() ==> safe_title(title)[i] != '/' && safe_title(title)[i] != '\\',
        (forall|i: int| 0 <= i < title.len() ==> title[i] != '/' && title[i] != '\\')
            ==> safe_title(title) == title,
        safe_title(safe_title(title)) == safe_title(title),
{
    if forall|i: int| 0 <= i < title.len() ==> title[i] != '/' && title[i] != '\\' {
        assert(safe_title(title) =~= title);
    }
    assert(safe_title(safe_title(title)) =~= safe_title(title));
}

/// Chapters at different positions go to different files.
pub proof fn lemma_chapter_file_injective(a: nat, b: nat)
    requires
        chapter_file(a) == chapter_file(b),
    ensures
        a == b,
{
    let x = two_digits(a + 1);
    let y = two_digits(b + 1);
    let ext = ".txt"@;
    assert(x.len() == y.len()) by {
        assert((x + ext).len() == x.len() + ext.len());
        assert((y + ext).len() == y.len() + ext.len());
    }
    assert(x =~= y) by {
        assert forall|i: int| 0 <= i < x.len() implies x[i] == y[i] by {
            assert((x + ext)[i] == x[i]);
            assert((y + ext)[i] == y[i]);
        }
    }
    lemma_two_digits_injective(a + 1, b + 1);
}

/// A title made safe as a directory name.
pub fn sanitize_title(title: &str) -> (r: String)
    ensures
        r@ == safe_title(title@),
{
    let chars = to_chars(title);
    let mut out: Vec<char> = Vec::new();
    let mut i: usize = 0;
    while i < chars.len()
        invariant
            i <= chars.len(),
            chars@ == title@,
            out@ == safe_title(title@).take(i as int),
        decreases chars.len() - i,
    {
        let c = chars[i];
        if c == '/' || c == '\\' {
            out.push('_');
        } else {
            out.push(c);
        }
        proof {
            assert(out@ =~= safe_title(title@).take(i + 1));
        }
        i += 1;
    }
    proof {
        assert(safe_title(title@).take(i as int) =~= safe_title(title@));
    }
    from_chars(&out)
}

/// The name of the file of the chapter at position `index` of a batch.
pub fn chapter_file_name(index: usize) -> (r: String)
    requires
        index < usize::MAX,
    ensures
        r@ == chapter_file(index as nat),
{
    let mut out: Vec<char> = Vec::new();
    push_two_digits(&mut out, (index + 1) as u64);
    push_str(&mut out, ".txt");
    from_chars(&out)
}

/// What the file of a chapter holds: the header, then the body.
pub fn chapter_file_contents(title: &str, url: &str, body: &str) -> (r: String)
    ensures
        r@ == chapter_contents(title@, url@, body@),
{
    let mut out: Vec<char> = Vec::new();
    push_str(&mut out, "标题: ");
    push_str(&mut out, title);
    push_str(&mut out, "\n链接: ");
    push_str(&mut out, url);
    push_str(&mut out, "\n");
    let ghost head = out@;
    let mut i: usize = 0;
    while i < 50
        invariant
            i <= 50,
            out@ == head + header_rule().take(i as int),
        decreases 50 - i,
    {
        out.push('=');
        proof {
            assert(out@ =~= head + header_rule().take(i + 1));
        }
        i += 1;
    }
    proof {
        assert(header_rule().take(50) =~= header_rule());
    }
    push_str(&mut out, "\n\n");
    push_str(&mut out, body);
    from_chars(&out)
}

/// The name of the file that the chapter with the index `index` is exported to.
pub fn export_file_name(index: i32) -> (r: String)
    ensures
        r@ == export_file(index as int),
{
    let mut out: Vec<char> = Vec::new();
    push_signed_decimal(&mut out, index);
    push_str(&mut out, ".md");
    from_chars(&out)
}

/// One record of the log.
pub fn log_line(timestamp: &str, message: &str) -> (r: String)
    ensures
        r@ == log_record(timestamp@, message@),
{
    let mut out: Vec<char> = Vec::new();
    push_str(&mut out, "[");
    push_str(&mut out, timestamp);
    push_str(&mut out, "] ");
    push_str(&mut out, message);
    push_str(&mut out, "\n");
    from_chars(&out)
}
pub const DOWNLOADS_DIR: &'static str = "downloads";

pub const LOGS_DIR: &'static str = "logs";

pub const RESULT_DIR: &'static str = "result";

pub const LOG_FILE: &'static str = "app.log";

pub const INFO_FILE: &'static str = "info.json";

/// A line to append to the log, and where the log is.
#[derive(Clone, Debug)]
pub struct LogAppend {
    /// Whether the log lies in the workspace, under `logs`, or beside the
    /// program, where there is no workspace.
    pub in_workspace: bool,
    /// The log's path below the workspace root or below the program's own
    /// directory, component by component.
    pub path: Vec<String>,
    /// What to append.
    pub line: String,
}

/// Where the log is, below its root.
pub open spec fn log_path(in_workspace: bool) -> Seq<Seq<char>> {
    if in_workspace {
        seq![LOGS_DIR@, LOG_FILE@]
    } else {
        seq![LOG_FILE@]
    }
}

/// Prepares the logging of `message` at the time `timestamp`, which the host
/// formats as `%Y-%m-%d %H:%M:%S`: the record, and the file it goes to in or
/// outside a workspace.
pub fn log_to_file_with_root(message: &str, timestamp: &str, in_workspace: bool) -> (r: LogAppend)
    ensures
        r.in_workspace == in_workspace,
        r.path.deep_view() == log_path(in_workspace),
        r.line@ == log_record(timestamp@, message@),
{
    let mut path: Vec<String> = Vec::new();
    if in_workspace {
        path.push(copy_str(LOGS_DIR));
    }
    path.push(copy_str(LOG_FILE));
    proof {
        assert(path.deep_view() =~= log_path(in_workspace));
    }
    LogAppend { in_workspace, path, line: log_line(timestamp, message) }
}

/// Prepares the logging of `message` where there is no workspace.
pub fn log_to_file(message: &str, timestamp: &str) -> (r: LogAppend)
    ensures
        !r.in_workspace,
        r.path.deep_view() == log_path(false),
        r.line@ == log_record(timestamp@, message@),
{
    log_to_file_with_root(message, timestamp, false)
}

/// What stands at a path.
#[derive(Clone, Copy, Debug, PartialEq, Eq, Structural)]
pub enum PathKind {
    Missing,
    File,
    Directory,
    /// Neither a file nor a directory.
    Other,
}

/// What a deletion reports: the line for the log and the reply to the UI.
#[derive(Clone, Debug)]
pub struct Deleted {
    pub log: String,
    pub reply: String,
}

pub open spec fn deleted_view(r: Result<Deleted, String>) -> Result<
    (Seq<char>, Seq<char>),
    Seq<char>,
> {
    match r {
        Ok(d) => Ok((d.log@, d.reply@)),
        Err(e) => Err(e@),
    }
}

/// Whether a novel's directory may be deleted, and what is reported when it
/// is: it must exist and be a directory.
pub open spec fn novel_deletion(kind: PathKind, novel: Seq<char>) -> Result<
    (Seq<char>, Seq<char>),
    Seq<char>,
> {
    match kind {
        PathKind::Missing => Err("小说目录不存在"@),
        PathKind::Directory => Ok(("已删除小说: "@ + novel, "已删除《"@ + novel + "》"@)),
        _ => Err("路径不是目录"@),
    }
}

/// Whether a chapter file may be deleted, and what is reported when it is:
/// it must exist and be a regular file.
pub open spec fn chapter_deletion(kind: PathKind, novel: Seq<char>, file: Seq<char>) -> Result<
    (Seq<char>, Seq<char>),
    Seq<char>,
> {
    match kind {
        PathKind::Missing => Err("章节文件不存在"@),
        PathKind::File => Ok(("已删除章节: "@ + novel + "/"@ + file, "已删除章节: "@ + file)),
        _ => Err("路径不是文件"@),
    }
}

/// Decides the deletion of the novel `novel`, given what stands at its path.
pub fn delete_novel(kind: PathKind, novel: &str) -> (r: Result<Deleted, String>)
    ensures
        deleted_view(r) == novel_deletion(kind, novel@),
{
    match kind {
        PathKind::Missing => Err(copy_str("小说目录不存在")),
        PathKind::Directory => Ok(
            Deleted { log: concat("已删除小说: ", novel), reply: concat3("已删除《", novel, "》") },
        ),
        _ => Err(copy_str("路径不是目录")),
    }
}

/// Decides the deletion of the chapter file `file` of the novel `novel`,
/// given what stands at its path.
pub fn delete_chapter(kind: PathKind, novel: &str, file: &str) -> (r: Result<Deleted, String>)
    ensures
        deleted_view(r) == chapter_deletion(kind, novel@, file@),
{
    match kind {
        PathKind::Missing => Err(copy_str("章节文件不存在")),
        PathKind::File => {
            let mut log: Vec<char> = Vec::new();
            push_str(&mut log, "已删除章节: ");
            push_str(&mut log, novel);
            push_str(&mut log, "/");
            push_str(&mut log, file);
            Ok(Deleted { log: from_chars(&log), reply: concat("已删除章节: ", file) })
        },
        _ => Err(copy_str("路径不是文件")),
    }
}

/// Where an exported chapter goes, below the workspace root: `result`, the
/// novel's title, and the chapter's index with `.md`.
pub open spec fn export_path(novel_title: Seq<char>, index: int) -> Seq<Seq<char>> {
    seq![RESULT_DIR@, novel_title, export_file(index)]
}

/// Where an exported chapter goes, below the workspace root, component by component.
pub fn export_chapter(novel_title: &str, chapter_index: i32) -> (r: Vec<String>)
    ensures
        r.deep_view() == export_path(novel_title@, chapter_index as int),
{
    let mut path: Vec<String> = Vec::new();
    path.push(copy_str(RESULT_DIR));
    path.push(copy_str(novel_title));
    path.push(export_file_name(chapter_index));
    proof {
        assert(path.deep_view() =~= export_path(novel_title@, chapter_index as int));
    }
    path
}

pub open spec fn missing_info_message() -> Seq<char> {
    "info.json not found"@
}

/// The new contents of `info.json`, by what the old contents parse to: the
/// old object with the patch laid over it, printed with indentation.
pub open spec fn updated_info(parsed: Result<JsonView, Seq<char>>, patch: JsonView) -> Result<
    Seq<char>,
    Seq<char>,
> {
    match parsed {
        Ok(current) => Ok(pretty_text(merged(current, patch))),
        Err(complaint) => Err(complaint),
    }
}

/// The new contents of `info.json` after an update, or why there are none.
pub open spec fn info_update(existing: Option<Seq<char>>, patch: JsonView) -> Result<
    Seq<char>,
    Seq<char>,
> {
    match existing {
        Some(text) => updated_info(json_of(text), patch),
        None => Err(missing_info_message()),
    }
}

pub open spec fn content_view(r: Result<String, String>) -> Result<Seq<char>, Seq<char>> {
    match r {
        Ok(s) => Ok(s@),
        Err(e) => Err(e@),
    }
}

/// Lays a patch over the parsed contents of `info.json`.
pub fn apply_update(parsed: Result<Json, String>, patch: Json) -> (r: Result<String, String>)
    ensures
        content_view(r) == updated_info(parsed_view(parsed), patch.deep_view()),
{
    match parsed {
        Ok(current) => Ok(merge(current, patch).to_pretty()),
        Err(complaint) => Err(complaint),
    }
}

/// Updates a novel's metadata: `existing` is what its `info.json` holds, if
/// the file is there, and the result is what it is to hold from now on.
pub fn update_novel_metadata(existing: Option<&str>, patch: Json) -> (r: Result<String, String>)
    ensures
        content_view(r) == info_update(existing.deep_view(), patch.deep_view()),
{
    match existing {
        Some(text) => apply_update(parse_json(text), patch),
        None => Err(copy_str("info.json not found")),
    }
}

} // verus!
