//! A sandboxed project directory as the tools see it: the path rules that
//! decide which relative paths may be read or written, the denylist that
//! hides uninteresting directory entries, the typed argument and result
//! shapes of the file tools, and the mutation flag that records writes.
use vstd::prelude::*;

verus! {

use crate::json::FieldValue;
use crate::json::JsonField;
use crate::json::JsonObject;
use crate::json::FieldValueModel;
use crate::json::parse_object;
use crate::json::key_count;
use crate::json::key_first;
use crate::json::parse_flat_object;
use crate::json::take_unique;
use crate::json::str_eq;

// ---------------------------------------------------------------------------
// Path rules
// ---------------------------------------------------------------------------
/// Whether a tool-supplied path is refused: absolute paths, paths that open
/// with a dot, and paths holding a parent-directory segment marker.
pub open spec fn spec_path_rejected(s: Seq<char>) -> bool {
    ||| (s.len() > 0 && (s[0] == '/' || s[0] == '.'))
    ||| exists|i: int| 0 <= i && i + 1 < s.len() && #[trigger] s[i] == '.' && s[i + 1] == '.'
}

/// Decide [`spec_path_rejected`] on a path.
pub fn path_rejected(path: &str) -> (r: bool)
    ensures
        r == spec_path_rejected(path@),
{
    let cs = crate::json::str_to_chars(path);
    let n = cs.len();
    if n > 0 && (cs[0] == '/' || cs[0] == '.') {
        return true;
    }
    if n < 2 {
        return false;
    }
    let mut i: usize = 0;
    while i < n - 1
        invariant
            n >= 2,
            n == cs.len(),
            cs@ == path@,
            i <= n,
            n > 0 ==> path@[0] != '/' && path@[0] != '.',
            forall|j: int| 0 <= j && j + 1 < i + 1 && j + 1 < n ==> !(#[trigger] path@[j] == '.'
                && path@[j + 1] == '.'),
        decreases n - i,
    {
        if cs[i] == '.' && cs[i + 1] == '.' {
            return true;
        }
        i = i + 1;
    }
    false
}

/// Which kind of directory entry a path names.
#[derive(Clone, Copy, PartialEq, Eq, Structural)]
pub enum EntryKind {
    Directory,
    File,
    Other,
}

/// The denylist applied while listing a project: version-control metadata
/// and build output among directories; ignore, environment, lock and licence
/// files among files; and everything that is neither a directory nor a file.
pub open spec fn spec_not_important(kind: EntryKind, rel: Seq<char>) -> bool {
    match kind {
        EntryKind::Directory => rel == ".git"@ || rel == "target"@,
        EntryKind::File => rel == ".gitignore"@ || rel == ".env"@ || rel == "Cargo.lock"@ || rel
            == "LICENSE"@ || rel == "LICENSE.txt"@,
        EntryKind::Other => true,
    }
}

/// Decide [`spec_not_important`] on one directory entry.
pub fn is_not_important_path(kind: EntryKind, relpath: &str) -> (r: bool)
    ensures
        r == spec_not_important(kind, relpath@),
{
    match kind {
        EntryKind::Directory => str_eq(relpath, ".git") || str_eq(relpath, "target"),
        EntryKind::File => str_eq(relpath, ".gitignore") || str_eq(relpath, ".env") || str_eq(
            relpath,
            "Cargo.lock",
        ) || str_eq(relpath, "LICENSE") || str_eq(relpath, "LICENSE.txt"),
        EntryKind::Other => true,
    }
}

// ---------------------------------------------------------------------------
// Tool argument and result shapes
// ---------------------------------------------------------------------------
/// Arguments of the file-reading tool.
pub struct ReadFileArgs {
    /// a relative path to the file in the project directory
    pub path: String,
}

/// Arguments of the file-writing tool.
pub struct WriteFileArgs {
    /// a relative path to the file in the project directory
    pub path: String,
    /// new contents of a file
    pub contents: String,
}

/// Result of the file-reading tool: an error message or the contents.
pub struct ReadFileResult {
    pub error: Option<String>,
    pub contents: Option<String>,
}

/// Result of the file-writing tool: an error message, if any.
pub struct WriteFileResult {
    pub error: Option<String>,
}

/// Result of the listing tool: every interesting file, relative to the root.
pub struct ProjectDirectoryContents {
    pub files: Vec<String>,
}

/// The decoded `path` argument, exactly when the payload is a well-formed
/// object carrying the `path` key once.
pub open spec fn spec_decode_read_args(raw: Seq<char>) -> Option<Seq<char>> {
    match parse_object(raw) {
        None => None,
        Some(pairs) => if key_count(pairs, "path"@) == 1 {
            Some(key_first(pairs, "path"@))
        } else {
            None
        },
    }
}

/// The decoded `path` and `contents` arguments, exactly when the payload is
/// a well-formed object carrying each key once.
pub open spec fn spec_decode_write_args(raw: Seq<char>) -> Option<(Seq<char>, Seq<char>)> {
    match parse_object(raw) {
        None => None,
        Some(pairs) => if key_count(pairs, "path"@) == 1 && key_count(pairs, "contents"@) == 1 {
            Some((key_first(pairs, "path"@), key_first(pairs, "contents"@)))
        } else {
            None
        },
    }
}

/// Decode the file-reading tool's argument payload.
pub fn decode_read_file_args(raw: &str) -> (r: Option<ReadFileArgs>)
    ensures
        r is Some <==> spec_decode_read_args(raw@) is Some,
        r matches Some(a) ==> spec_decode_read_args(raw@) == Some(a.path@),
{
    match parse_flat_object(raw) {
        None => None,
        Some(fields) => {
            match take_unique(&fields, "path") {
                None => None,
                Some(path) => Some(ReadFileArgs { path }),
            }
        },
    }
}

/// Decode the file-writing tool's argument payload.
pub fn decode_write_file_args(raw: &str) -> (r: Option<WriteFileArgs>)
    ensures
        r is Some <==> spec_decode_write_args(raw@) is Some,
        r matches Some(a) ==> spec_decode_write_args(raw@) == Some((a.path@, a.contents@)),
{
    match parse_flat_object(raw) {
        None => None,
        Some(fields) => {
            let path = take_unique(&fields, "path");
            let contents = take_unique(&fields, "contents");
            match (path, contents) {
                (Some(path), Some(contents)) => Some(WriteFileArgs { path, contents }),
                _ => None,
            }
        },
    }
}

// ---------------------------------------------------------------------------
// Result encoding
// ---------------------------------------------------------------------------
/// The field value that stands for an optional string: `null` when absent.
pub open spec fn opt_str_field(o: Option<Seq<char>>) -> FieldValueModel {
    match o {
        None => FieldValueModel::Null,
        Some(s) => FieldValueModel::Str(s),
    }
}

fn opt_str_value(o: Option<String>) -> (r: FieldValue)
    ensures
        r@ == opt_str_field(o.deep_view()),
{
    match o {
        None => FieldValue::Null,
        Some(s) => FieldValue::Str(s),
    }
}

impl ProjectDirectoryContents {
    /// The single `files` field this result encodes to.
    pub open spec fn spec_json(&self) -> Seq<(Seq<char>, FieldValueModel)> {
        seq![("files"@, FieldValueModel::List(self.files.deep_view()))]
    }

    pub fn to_json(self) -> (o: JsonObject)
        ensures
            o@ == self.spec_json(),
    {
        let mut fields: Vec<JsonField> = Vec::new();
        fields.push(JsonField { key: "files".to_owned(), value: FieldValue::List(self.files) });
        let o = JsonObject { fields };
        proof {
            assert(o@ =~= self.spec_json());
        }
        o
    }
}

impl ReadFileResult {
    /// The `error` and `contents` fields this result encodes to.
    pub open spec fn spec_json(&self) -> Seq<(Seq<char>, FieldValueModel)> {
        seq![
            ("error"@, opt_str_field(self.error.deep_view())),
            ("contents"@, opt_str_field(self.contents.deep_view())),
        ]
    }

    pub fn to_json(self) -> (o: JsonObject)
        ensures
            o@ == self.spec_json(),
    {
        let mut fields: Vec<JsonField> = Vec::new();
        fields.push(JsonField { key: "error".to_owned(), value: opt_str_value(self.error) });
        fields.push(JsonField { key: "contents".to_owned(), value: opt_str_value(self.contents) });
        let o = JsonObject { fields };
        proof {
            assert(o@ =~= self.spec_json());
        }
        o
    }
}

impl WriteFileResult {
    /// The single `error` field this result encodes to.
    pub open spec fn spec_json(&self) -> Seq<(Seq<char>, FieldValueModel)> {
        seq![("error"@, opt_str_field(self.error.deep_view()))]
    }

    pub fn to_json(self) -> (o: JsonObject)
        ensures
            o@ == self.spec_json(),
    {
        let mut fields: Vec<JsonField> = Vec::new();
        fields.push(JsonField { key: "error".to_owned(), value: opt_str_value(self.error) });
        let o = JsonObject { fields };
        proof {
            assert(o@ =~= self.spec_json());
        }
        o
    }
}

// ---------------------------------------------------------------------------
// The project directory and its mutation flag
// ---------------------------------------------------------------------------
/// A sandboxed project directory, modelled by its root path and the mutation
/// flag that records whether a write has happened since the flag was last
/// cleared. The filesystem itself stays outside: callers hand in what they
/// fetched, and the contract fixes the visible outcome.
pub struct Project {
    path: String,
    dirty: bool,
}

impl Project {
    /// The root path this project was created with.
    pub closed spec fn spec_path(&self) -> Seq<char> {
        self.path@
    }

    /// The mutation flag: true when a write succeeded since the last clear.
    pub closed spec fn spec_dirty(&self) -> bool {
        self.dirty
    }

    pub fn new(path: String) -> (p: Project)
        ensures
            p.spec_path() == path@,
            !p.spec_dirty(),
    {
        Project { path, dirty: false }
    }

    pub fn is_dirty(&self) -> (r: bool)
        ensures
            r == self.spec_dirty(),
    {
        self.dirty
    }

    /// The project with its mutation flag cleared, all else equal.
    pub closed spec fn spec_cleared(self) -> Project {
        Project { path: self.path, dirty: false }
    }

    /// The project with its mutation flag set, all else equal.
    pub closed spec fn spec_marked(self) -> Project {
        Project { path: self.path, dirty: true }
    }

    pub fn clear_dirty(&mut self)
        ensures
            *final(self) == old(self).spec_cleared(),
            !final(self).spec_dirty(),
            final(self).spec_path() == old(self).spec_path(),
    {
        self.dirty = false;
    }

    pub fn mark_dirty(&mut self)
        ensures
            *final(self) == old(self).spec_marked(),
            final(self).spec_dirty(),
            final(self).spec_path() == old(self).spec_path(),
    {
        self.dirty = true;
    }

    /// Wrap the interesting files found under the root. The walk itself is
    /// the caller's: it prunes with [`is_not_important_path`] level by level.
    pub fn list_contents(&self, files: Vec<String>) -> (r: ProjectDirectoryContents)
        ensures
            r.files == files,
    {
        ProjectDirectoryContents { files }
    }

    /// The visible outcome of the file-reading tool: a rejected path is
    /// answered `Invalid path.` (and nothing may be fetched for it); an
    /// accepted path hands back what the caller fetched, or `Cannot read
    /// file.` when the fetch failed.
    pub fn read_file(&self, path: &str, fetched: Option<String>) -> (r: ReadFileResult)
        ensures
            spec_path_rejected(path@) ==> (r.error matches Some(m) && m@ == "Invalid path."@)
                && r.contents is None,
            !spec_path_rejected(path@) && fetched is Some ==> r.error is None && r.contents
                == fetched,
            !spec_path_rejected(path@) && fetched is None ==> (r.error matches Some(m) && m@
                == "Cannot read file."@) && r.contents is None,
    {
        if path_rejected(path) {
            ReadFileResult { error: Some("Invalid path.".to_owned()), contents: None }
        } else {
            match fetched {
                Some(contents) => ReadFileResult { error: None, contents: Some(contents) },
                None => ReadFileResult {
                    error: Some("Cannot read file.".to_owned()),
                    contents: None,
                },
            }
        }
    }

    /// The visible outcome of the file-writing tool: a rejected path is
    /// answered `Invalid path.`; an accepted path reports `Cannot write
    /// file.` unless the caller's write succeeded. The mutation flag is set
    /// exactly by a successful write, and never cleared here.
    pub fn write_file(&mut self, path: &str, wrote: Option<bool>) -> (r: WriteFileResult)
        ensures
            final(self).spec_path() == old(self).spec_path(),
            spec_path_rejected(path@) ==> (r.error matches Some(m) && m@ == "Invalid path."@),
            !spec_path_rejected(path@) && wrote == Some(true) ==> r.error is None
                && *final(self) == old(self).spec_marked(),
            !spec_path_rejected(path@) && wrote != Some(true) ==> (r.error matches Some(m) && m@
                == "Cannot write file."@),
            wrote != Some(true) || spec_path_rejected(path@) ==> final(self).spec_dirty() == old(
                self,
            ).spec_dirty(),
    {
        if path_rejected(path) {
            WriteFileResult { error: Some("Invalid path.".to_owned()) }
        } else {
            match wrote {
                Some(true) => {
                    self.dirty = true;
                    WriteFileResult { error: None }
                },
                _ => WriteFileResult { error: Some("Cannot write file.".to_owned()) },
            }
        }
    }
}

/// The mutation flag reads false right after being cleared and true right
/// after any successful write, whatever the project held before and in
/// whatever order earlier writes happened: the flag's value after either
/// transition depends on that transition alone, and neither transition
/// touches anything but the flag.
pub proof fn lemma_mutation_flag(p: Project)
    ensures
        !p.spec_cleared().spec_dirty(),
        p.spec_marked().spec_dirty(),
        p.spec_cleared().spec_path() == p.spec_path(),
        p.spec_marked().spec_path() == p.spec_path(),
{
}

} // verus!
