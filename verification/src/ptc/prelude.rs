//! Load-time prelude discovery.
//!
//! A prelude is a plain program file evaluated before the model's program runs.
//! It defines derived tools by composing the host calls, and gains no
//! capability that the calling program did not already have.
use vstd::prelude::*;
use vstd::string::StringExecFns;
use vstd::utf8::encode_utf8;
use crate::digest::{hash_text, sha256_hex};
use crate::identity::PreludeId;
use crate::text::{decimal, from_chars, has_prefix, is_blank, is_space_char, join, joined, lines, lines_text, matches_at, opt_view, size_text, text, to_chars, trim_end, trim_start, trimmed, views};

verus! {

/// Workspace-relative prelude path; takes precedence over the user prelude.
pub const WORKSPACE_PRELUDE: &'static str = ".mh/prelude.js";

/// Largest prelude accepted, in bytes.
pub const MAX_PRELUDE_BYTES: usize = 262144;

/// Why a prelude could not be loaded.
#[derive(Clone, Debug, PartialEq, Eq)]
pub enum PreludeError {
    TooLarge { path: String, bytes: usize },
    Io { path: String, message: String },
}

impl PreludeError {
    /// The message of the error.
    pub open spec fn text(self) -> Seq<char> {
        match self {
            PreludeError::TooLarge { path, bytes } => "prelude "@ + path@ + " is "@ + decimal(
                bytes as nat,
            ) + " bytes, exceeding the "@ + decimal(MAX_PRELUDE_BYTES as nat) + " byte limit"@,
            PreludeError::Io { path, message } => "prelude "@ + path@ + ": "@ + message@,
        }
    }

    /// The message of the error.
    pub fn message(&self) -> (r: String)
        ensures
            r@ == self.text(),
    {
        let mut s = text("prelude ");
        match self {
            PreludeError::TooLarge { path, bytes } => {
                s.append(path.as_str());
                s.append(" is ");
                s.append(size_text(*bytes).as_str());
                s.append(" bytes, exceeding the ");
                s.append(size_text(MAX_PRELUDE_BYTES).as_str());
                s.append(" byte limit");
            },
            PreludeError::Io { path, message } => {
                s.append(path.as_str());
                s.append(": ");
                s.append(message.as_str());
            },
        }
        s
    }
}

/// Where a prelude came from.
#[derive(Clone, Copy, Debug, PartialEq, Eq, Structural)]
pub enum PreludeOrigin {
    Workspace,
    User,
}

impl PreludeOrigin {
    /// Whether loading this prelude requires an explicit trust decision: only a
    /// workspace prelude arrives with a repository.
    pub fn requires_confirmation(self) -> (r: bool)
        ensures
            r == (self is Workspace),
    {
        match self {
            PreludeOrigin::Workspace => true,
            PreludeOrigin::User => false,
        }
    }
}

/// A discovered prelude: its source and where it came from.
#[derive(Debug, PartialEq, Eq)]
pub struct Prelude {
    pub path: String,
    pub source: String,
    pub origin: PreludeOrigin,
}

impl Clone for Prelude {
    fn clone(&self) -> (r: Self)
        ensures
            r == *self,
    {
        Prelude { path: self.path.clone(), source: self.source.clone(), origin: self.origin }
    }
}

/// The content identity of a prelude source.
pub open spec fn identity_of(source: Seq<char>) -> Seq<char> {
    "sha256:"@ + sha256_hex(encode_utf8("mh-prelude-v1\0"@ + source))
}

/// The documentation on a line, where it is a documentation line.
pub open spec fn doc_of(line: Seq<char>) -> Option<Seq<char>> {
    let start = trim_start(line);
    if has_prefix(start, "//!"@) {
        Some(trim_end(start.skip("//!"@.len() as int)))
    } else {
        None
    }
}

/// The documentation of the lines that are documentation lines, in order.
pub open spec fn docs_of(all: Seq<Seq<char>>) -> Seq<Seq<char>>
    decreases all.len(),
{
    if all.len() == 0 {
        Seq::empty()
    } else {
        let init = docs_of(all.drop_last());
        match doc_of(all.last()) {
            Some(doc) => init.push(doc),
            None => init,
        }
    }
}

/// A line without the one space that leads it.
pub open spec fn without_lead(line: Seq<char>) -> Seq<char> {
    if line.len() > 0 && line[0] == ' ' {
        line.skip(1)
    } else {
        line
    }
}

/// Whether some line holds more than white space.
pub open spec fn says_something(docs: Seq<Seq<char>>) -> bool {
    exists|i: int| 0 <= i < docs.len() && trimmed(#[trigger] docs[i]).len() > 0
}

/// The tool descriptions of a source: its documentation lines, where they say
/// anything.
pub open spec fn description_of(source: Seq<char>) -> Option<Seq<char>> {
    let docs = docs_of(lines(source));
    if says_something(docs) {
        Some(joined(docs.map_values(|d: Seq<char>| without_lead(d)), "\n"@))
    } else {
        None
    }
}

/// The documentation on a line, where it is a documentation line.
fn read_doc(line: &str) -> (r: Option<String>)
    ensures
        opt_view(r) == doc_of(line@),
{
    let chars = to_chars(line);
    let mut i: usize = 0;
    proof {
        assert(line@.skip(0) =~= line@);
    }
    while i < chars.len() && is_space_char(chars[i])
        invariant
            chars@ == line@,
            i <= chars.len(),
            trim_start(line@) == trim_start(line@.skip(i as int)),
        decreases chars.len() - i,
    {
        proof {
            assert(line@.skip(i as int).drop_first() =~= line@.skip(i + 1));
        }
        i = i + 1;
    }
    let ghost start = line@.skip(i as int);
    proof {
        assert(trim_start(line@) == start);
    }
    let mark = to_chars("//!");
    let found = matches_at(&chars, &mark, i);
    proof {
        let n = "//!"@.len() as int;
        if i + n <= line@.len() {
            assert(line@.subrange(i as int, i + n) =~= start.subrange(0, n));
        }
        assert(found == has_prefix(start, "//!"@));
    }
    if !found {
        return None;
    }
    let from: usize = i + mark.len();
    let mut j: usize = chars.len();
    let ghost rest = start.skip("//!"@.len() as int);
    proof {
        assert(line@.subrange(from as int, j as int) =~= rest);
    }
    while j > from && is_space_char(chars[j - 1])
        invariant
            chars@ == line@,
            from <= j <= chars.len(),
            trim_end(rest) == trim_end(line@.subrange(from as int, j as int)),
        decreases j,
    {
        proof {
            assert(line@.subrange(from as int, j as int).drop_last() =~= line@.subrange(
                from as int,
                j - 1,
            ));
        }
        j = j - 1;
    }
    Some(from_chars(&chars, from, j))
}

/// A line without the one space that leads it.
fn strip_lead(line: &str) -> (r: String)
    ensures
        r@ == without_lead(line@),
{
    let chars = to_chars(line);
    if chars.len() > 0 && chars[0] == ' ' {
        proof {
            assert(line@.subrange(1, line@.len() as int) =~= line@.skip(1));
        }
        from_chars(&chars, 1, chars.len())
    } else {
        text(line)
    }
}

impl Prelude {
    /// The name under which the prelude is evaluated, so that an error names
    /// the prelude.
    pub fn eval_name(&self) -> (r: String)
        ensures
            r@ == "prelude:"@ + self.path@,
    {
        let mut s = text("prelude:");
        s.append(self.path.as_str());
        s
    }

    /// Content identity of the active tool environment. It depends on the
    /// source alone.
    pub fn identity(&self) -> (r: PreludeId)
        ensures
            r.0@ == identity_of(self.source@),
    {
        let mut content = text("mh-prelude-v1\0");
        content.append(self.source.as_str());
        let mut id = text("sha256:");
        id.append(hash_text(content.as_str().as_bytes()).as_str());
        PreludeId(id)
    }

    /// The tool descriptions this prelude advertises to the model, taken from
    /// its `//!` lines; none where those say nothing.
    pub fn description(&self) -> (r: Option<String>)
        ensures
            opt_view(r) == description_of(self.source@),
    {
        let all = lines_text(self.source.as_str());
        let ghost texts = lines(self.source@);
        let mut shown: Vec<String> = Vec::new();
        let mut something = false;
        let mut i: usize = 0;
        let ghost lead = |d: Seq<char>| without_lead(d);
        proof {
            assert(views(shown@) =~= docs_of(texts.take(0)).map_values(lead));
        }
        while i < all.len()
            invariant
                i <= all.len(),
                views(all@) == texts,
                lead == (|d: Seq<char>| without_lead(d)),
                views(shown@) == docs_of(texts.take(i as int)).map_values(lead),
                something == says_something(docs_of(texts.take(i as int))),
            decreases all.len() - i,
        {
            let ghost docs = docs_of(texts.take(i as int));
            proof {
                assert(texts.take(i + 1).drop_last() =~= texts.take(i as int));
                assert(texts.take(i + 1).last() == all@[i as int]@);
            }
            match read_doc(all[i].as_str()) {
                Some(doc) => {
                    let blank = is_blank(doc.as_str());
                    let ghost more = docs.push(doc@);
                    proof {
                        assert(more[docs.len() as int] == doc@);
                        if says_something(docs) {
                            let k = choose|k: int|
                                0 <= k < docs.len() && trimmed(#[trigger] docs[k]).len() > 0;
                            assert(more[k] == docs[k]);
                            assert(says_something(more));
                        }
                        if says_something(more) && blank {
                            let k = choose|k: int|
                                0 <= k < more.len() && trimmed(#[trigger] more[k]).len() > 0;
                            assert(k < docs.len());
                            assert(docs[k] == more[k]);
                            assert(says_something(docs));
                        }
                    }
                    if !blank {
                        something = true;
                    }
                    let ghost before = shown@;
                    let stripped = strip_lead(doc.as_str());
                    shown.push(stripped);
                    proof {
                        assert(views(shown@) =~= views(before).push(stripped@));
                        docs.lemma_push_map_commute(lead, doc@);
                    }
                },
                None => {},
            }
            i = i + 1;
        }
        proof {
            assert(texts.take(i as int) =~= texts);
        }
        if something {
            Some(join(&shown, "\n"))
        } else {
            None
        }
    }
}

/// What was found at a path.
#[derive(Debug, PartialEq, Eq)]
pub enum FileProbe {
    /// Nothing is there.
    Missing,
    /// Something is there that is not a file.
    NotFile,
    /// It could not be examined.
    Unreadable(String),
    /// A file of this size, with its content or why it could not be read.
    File { bytes: u64, content: Result<String, String> },
}

/// The size, capped at what fits.
pub open spec fn capped(bytes: u64) -> usize {
    if bytes > usize::MAX {
        usize::MAX
    } else {
        bytes as usize
    }
}

/// Whether `r` is what loading a prelude from `path` gives after `probe`.
pub open spec fn is_loaded(
    path: Seq<char>,
    origin: PreludeOrigin,
    probe: FileProbe,
    r: Result<Option<Prelude>, PreludeError>,
) -> bool {
    match probe {
        FileProbe::Missing => r matches Ok(None),
        FileProbe::NotFile => r matches Ok(None),
        FileProbe::Unreadable(why) => r matches Err(PreludeError::Io { path: p, message })
            && p@ == path && message@ == why@,
        FileProbe::File { bytes, content } => if capped(bytes) > MAX_PRELUDE_BYTES {
            r matches Err(PreludeError::TooLarge { path: p, bytes: b }) && p@ == path && b
                == capped(bytes)
        } else {
            match content {
                Ok(source) => r matches Ok(Some(prelude)) && prelude.path@ == path
                    && prelude.source == source && prelude.origin == origin,
                Err(why) => r matches Err(PreludeError::Io { path: p, message }) && p@ == path
                    && message@ == why@,
            }
        },
    }
}

/// What loading a prelude gives. A missing prelude, or something that is not a
/// file, is none; one that cannot be read or is too large is an error.
pub fn load(path: &str, origin: PreludeOrigin, probe: FileProbe) -> (r: Result<
    Option<Prelude>,
    PreludeError,
>)
    ensures
        is_loaded(path@, origin, probe, r),
{
    match probe {
        FileProbe::Missing => Ok(None),
        FileProbe::NotFile => Ok(None),
        FileProbe::Unreadable(why) => Err(PreludeError::Io { path: text(path), message: why }),
        FileProbe::File { bytes, content } => {
            let size: usize = if bytes > usize::MAX as u64 {
                usize::MAX
            } else {
                bytes as usize
            };
            if size > MAX_PRELUDE_BYTES {
                return Err(PreludeError::TooLarge { path: text(path), bytes: size });
            }
            match content {
                Ok(source) => Ok(Some(Prelude { path: text(path), source, origin })),
                Err(why) => Err(PreludeError::Io { path: text(path), message: why }),
            }
        },
    }
}

/// A relative path below a directory.
pub open spec fn below(dir: Seq<char>, rest: Seq<char>) -> Seq<char> {
    if dir.len() == 0 {
        rest
    } else if dir.last() == '/' {
        dir + rest
    } else {
        dir + "/"@ + rest
    }
}

/// A relative path below a directory.
pub fn join_path(dir: &str, rest: &str) -> (r: String)
    ensures
        r@ == below(dir@, rest@),
{
    let chars = to_chars(dir);
    if chars.len() == 0 {
        return text(rest);
    }
    let mut s = text(dir);
    if chars[chars.len() - 1] != '/' {
        s.append("/");
    }
    s.append(rest);
    s
}

/// The prelude of a workspace, else that of the user. An error of the
/// workspace prelude is not passed over for the user's.
pub fn discover(workspace: &str, found: FileProbe, user: Option<(String, FileProbe)>) -> (r: Result<
    Option<Prelude>,
    PreludeError,
>)
    ensures
        exists|first: Result<Option<Prelude>, PreludeError>| #[trigger]
            is_loaded(
                below(workspace@, WORKSPACE_PRELUDE@),
                PreludeOrigin::Workspace,
                found,
                first,
            ) && match first {
                Ok(None) => match user {
                    Some((path, probe)) => is_loaded(path@, PreludeOrigin::User, probe, r),
                    None => r matches Ok(None),
                },
                _ => r == first,
            },
{
    let path = join_path(workspace, WORKSPACE_PRELUDE);
    let first = load(path.as_str(), PreludeOrigin::Workspace, found);
    let ghost given = first;
    match first {
        Ok(None) => {
            proof {
                assert(is_loaded(
                    below(workspace@, WORKSPACE_PRELUDE@),
                    PreludeOrigin::Workspace,
                    found,
                    given,
                ));
            }
            match user {
                Some((user_path, probe)) => load(user_path.as_str(), PreludeOrigin::User, probe),
                None => Ok(None),
            }
        },
        other => other,
    }
}

/// A file below the user's configuration directory: the one that the
/// environment names, else `.config` of the home directory. An empty name does
/// not count.
pub open spec fn config_file(xdg: Option<Seq<char>>, home: Option<Seq<char>>, name: Seq<char>) -> Option<Seq<char>> {
    match xdg {
        Some(dir) if dir.len() > 0 => Some(below(dir, "mh/"@ + name)),
        _ => match home {
            Some(dir) if dir.len() > 0 => Some(below(dir, ".config/mh/"@ + name)),
            _ => None,
        },
    }
}

/// A file below the user's configuration directory.
pub fn user_config_file(xdg: &Option<String>, home: &Option<String>, name: &str) -> (r: Option<String>)
    ensures
        opt_view(r) == config_file(opt_view(*xdg), opt_view(*home), name@),
{
    match xdg {
        Some(dir) => {
            if !dir.as_str().is_empty() {
                let mut rest = text("mh/");
                rest.append(name);
                return Some(join_path(dir.as_str(), rest.as_str()));
            }
        },
        None => {},
    }
    match home {
        Some(dir) => {
            if !dir.as_str().is_empty() {
                let mut rest = text(".config/mh/");
                rest.append(name);
                return Some(join_path(dir.as_str(), rest.as_str()));
            }
        },
        None => {},
    }
    None
}

/// The conventional user prelude path, given `XDG_CONFIG_HOME` and `HOME`.
pub fn user_prelude_path(xdg: &Option<String>, home: &Option<String>) -> (r: Option<String>)
    ensures
        opt_view(r) == config_file(opt_view(*xdg), opt_view(*home), "prelude.js"@),
{
    user_config_file(xdg, home, "prelude.js")
}

} // verus!
