//! What the message store keeps of each message, the checks a topic must
//! pass before a message is written, and the report that compares the
//! index with the file tree.
use vstd::prelude::*;

use crate::bus::config::Priority;
use crate::text::{contains, ends_with, owned, push_str, starts_with, str_eq_str, text_set, ascending,
    sorted_distinct, holds_exec, sorted_difference, str_starts_with, chars_of, ends_with_exec, lemma_text_set_take};

verus! {

/// One stored message: index row plus the pointer to its file.
#[derive(Debug, Clone, PartialEq, Eq)]
pub struct StoredMessage {
    /// 26-character Crockford base32 ULID.
    pub ulid: String,
    pub topic: String,
    /// Lowercase priority: `min`, `default`, `high` or `urgent`.
    pub priority: String,
    pub title: Option<String>,
    pub body: Option<String>,
    pub ts_unix_ms: i64,
    /// Path of the message file relative to the bus root.
    pub file_path: String,
}

/// Why a store operation failed.
#[derive(Debug, Clone, PartialEq, Eq)]
pub enum PersistError {
    Io(String),
    Sql(String),
    Json(String),
    /// The topic was rejected; the text says why.
    BadTopic(String),
}

/// The lowercase name a priority is stored under.
pub open spec fn priority_name(p: Priority) -> Seq<char> {
    match p {
        Priority::Min => "min"@,
        Priority::Default => "default"@,
        Priority::High => "high"@,
        Priority::Urgent => "urgent"@,
    }
}

/// The lowercase name a priority is stored under.
pub fn priority_str(p: Priority) -> (s: &'static str)
    ensures
        s@ == priority_name(p),
{
    match p {
        Priority::Min => "min",
        Priority::Default => "default",
        Priority::High => "high",
        Priority::Urgent => "urgent",
    }
}

/// Why a publish topic is rejected, if it is: empty, a leading or
/// trailing `/`, a `..`, a `//`, or a wildcard (`+`, `#`), checked in
/// that order.
pub open spec fn topic_rejection(t: Seq<char>) -> Option<Seq<char>> {
    if t.len() == 0 {
        Some("empty"@)
    } else if starts_with(t, "/"@) || ends_with(t, "/"@) {
        Some("leading/trailing slash: "@ + t)
    } else if contains(t, ".."@) {
        Some("path-escape attempt: "@ + t)
    } else if contains(t, "//"@) {
        Some("double slash: "@ + t)
    } else if t.contains('+') || t.contains('#') {
        Some("wildcards in publish topic: "@ + t)
    } else {
        None
    }
}

/// Checks a topic before a message is written on it.
#[verifier::loop_isolation(false)]
pub fn validate_topic(topic: &str) -> (r: Result<(), PersistError>)
    ensures
        match topic_rejection(topic@) {
            None => r is Ok,
            Some(why) => r matches Err(PersistError::BadTopic(m)) && m@ == why,
        },
{
    let t = crate::text::chars_of(topic);
    proof {
        reveal_strlit("/");
        reveal_strlit("..");
        reveal_strlit("//");
    }
    if t.len() == 0 {
        return Err(PersistError::BadTopic(owned("empty")));
    }
    let slash: Vec<char> = vec!['/'];
    let dots: Vec<char> = vec!['.', '.'];
    let dslash: Vec<char> = vec!['/', '/'];
    assert(slash@ == "/"@);
    assert(dots@ == ".."@);
    assert(dslash@ == "//"@);
    if crate::text::starts_with_exec(&t, &slash) || crate::text::ends_with_exec(&t, &slash) {
        return Err(PersistError::BadTopic(with_topic("leading/trailing slash: ", topic)));
    }
    if crate::text::contains_exec(&t, &dots) {
        return Err(PersistError::BadTopic(with_topic("path-escape attempt: ", topic)));
    }
    if crate::text::contains_exec(&t, &dslash) {
        return Err(PersistError::BadTopic(with_topic("double slash: ", topic)));
    }
    let mut i: usize = 0;
    while i < t.len()
        invariant
            i <= t.len(),
            t@ == topic@,
            forall|j: int| 0 <= j < i ==> t@[j] != '+' && t@[j] != '#',
        decreases t.len() - i,
    {
        if t[i] == '+' || t[i] == '#' {
            assert(topic@.contains(t@[i as int]));
            return Err(PersistError::BadTopic(with_topic("wildcards in publish topic: ", topic)));
        }
        i = i + 1;
    }
    assert(!topic@.contains('+') && !topic@.contains('#'));
    Ok(())
}

/// `prefix` followed by the topic.
fn with_topic(prefix: &str, topic: &str) -> (s: String)
    ensures
        s@ == prefix@ + topic@,
{
    let mut s = owned(prefix);
    push_str(&mut s, topic);
    s
}

/// Where the index and the file tree disagree.
#[derive(Debug, Clone, Default, PartialEq, Eq)]
pub struct DivergenceReport {
    /// Message files with no index row.
    pub files_without_rows: Vec<String>,
    /// Index rows whose file is gone.
    pub rows_without_files: Vec<String>,
}

impl DivergenceReport {
    /// Whether index and tree agree: both lists are empty.
    pub fn is_clean(&self) -> (b: bool)
        ensures
            b == (self.files_without_rows@.len() == 0 && self.rows_without_files@.len() == 0),
    {
        self.files_without_rows.len() == 0 && self.rows_without_files.len() == 0
    }
}


/// Compares the index's file paths with the paths found on disk: the files
/// without a row and the rows without a file, each ascending and once.
pub fn divergence(indexed: &Vec<String>, on_disk: &Vec<String>) -> (r: DivergenceReport)
    ensures
        ascending(r.files_without_rows@),
        ascending(r.rows_without_files@),
        text_set(r.files_without_rows@) == text_set(on_disk@).difference(text_set(indexed@)),
        text_set(r.rows_without_files@) == text_set(indexed@).difference(text_set(on_disk@)),
{
    DivergenceReport {
        files_without_rows: sorted_difference(on_disk, indexed),
        rows_without_files: sorted_difference(indexed, on_disk),
    }
}

proof fn lemma_text_set_empty(v: Seq<String>)
    ensures
        (text_set(v) == Set::<Seq<char>>::empty()) <==> v.len() == 0,
{
    if v.len() > 0 {
        assert(text_set(v).contains(v[0]@));
    } else {
        assert(text_set(v) =~= Set::<Seq<char>>::empty());
    }
}

/// The index and the tree agree (the report is clean) exactly when they
/// name the same set of message files.
pub proof fn law_clean_iff_same_files(indexed: Seq<String>, on_disk: Seq<String>, r: DivergenceReport)
    requires
        text_set(r.files_without_rows@) == text_set(on_disk).difference(text_set(indexed)),
        text_set(r.rows_without_files@) == text_set(indexed).difference(text_set(on_disk)),
    ensures
        (r.files_without_rows@.len() == 0 && r.rows_without_files@.len() == 0) <==> text_set(indexed)
            == text_set(on_disk),
{
    lemma_text_set_empty(r.files_without_rows@);
    lemma_text_set_empty(r.rows_without_files@);
    let a = text_set(indexed);
    let b = text_set(on_disk);
    if a == b {
        assert(b.difference(a) =~= Set::<Seq<char>>::empty());
        assert(a.difference(b) =~= Set::<Seq<char>>::empty());
    }
    if b.difference(a) == Set::<Seq<char>>::empty() && a.difference(b) == Set::<Seq<char>>::empty() {
        assert forall|x: Seq<char>| a.contains(x) == b.contains(x) by {
            if a.contains(x) && !b.contains(x) {
                assert(a.difference(b).contains(x));
            }
            if b.contains(x) && !a.contains(x) {
                assert(b.difference(a).contains(x));
            }
        }
        assert(a =~= b);
    }
}

/// What the divergence walk does with one directory entry.
#[derive(Debug, Clone, Copy, PartialEq, Eq)]
pub enum TreeEntry {
    /// The index database, a temporary or hidden file: ignored.
    Skip,
    /// A topic directory: walked.
    Descend,
    /// A message file: collected.
    Collect,
}

/// Classifies a directory entry of the message tree by name and type.
pub fn classify_entry(name: &str, is_dir: bool, is_file: bool) -> (r: TreeEntry)
    ensures
        r == (if starts_with(name@, "index.sqlite"@) || ends_with(name@, ".tmp"@) || starts_with(name@, "."@) {
            TreeEntry::Skip
        } else if is_dir {
            TreeEntry::Descend
        } else if is_file && ends_with(name@, ".json"@) {
            TreeEntry::Collect
        } else {
            TreeEntry::Skip
        }),
{
    let n = chars_of(name);
    let tmp = chars_of(".tmp");
    let json = chars_of(".json");
    if str_starts_with(name, "index.sqlite") || ends_with_exec(&n, &tmp) || str_starts_with(name, ".") {
        TreeEntry::Skip
    } else if is_dir {
        TreeEntry::Descend
    } else if is_file && ends_with_exec(&n, &json) {
        TreeEntry::Collect
    } else {
        TreeEntry::Skip
    }
}

/// The message a write stores, once the topic passes the checks: its
/// ULID and timestamp as given, the priority's name, and the file path
/// `<topic>/<ulid>.json` under the bus root.
pub fn compose_message(
    topic: &str,
    priority: Priority,
    title: Option<&str>,
    body: Option<&str>,
    ulid: &str,
    ts_unix_ms: i64,
) -> (r: Result<StoredMessage, PersistError>)
    ensures
        match topic_rejection(topic@) {
            Some(why) => r matches Err(PersistError::BadTopic(m)) && m@ == why,
            None => r matches Ok(m) && {
                &&& m.ulid@ == ulid@
                &&& m.topic@ == topic@
                &&& m.priority@ == priority_name(priority)
                &&& (match title { Some(t) => m.title matches Some(x) && x@ == t@, None => m.title is None })
                &&& (match body { Some(t) => m.body matches Some(x) && x@ == t@, None => m.body is None })
                &&& m.ts_unix_ms == ts_unix_ms
                &&& m.file_path@ == topic@ + "/"@ + ulid@ + ".json"@
            },
        },
{
    match validate_topic(topic) {
        Err(e) => return Err(e),
        Ok(()) => {},
    }
    let mut path = owned(topic);
    push_str(&mut path, "/");
    push_str(&mut path, ulid);
    push_str(&mut path, ".json");
    Ok(StoredMessage {
        ulid: owned(ulid),
        topic: owned(topic),
        priority: owned(priority_str(priority)),
        title: match title { Some(t) => Some(owned(t)), None => None },
        body: match body { Some(t) => Some(owned(t)), None => None },
        ts_unix_ms,
        file_path: path,
    })
}

} // verus!
