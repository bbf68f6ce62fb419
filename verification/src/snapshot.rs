//! The read-only editor state view, and the synchronous computations the API
//! surface answers from it: state queries and path manipulation. None of
//! these involves a request identifier or the outbound channel.

use vstd::prelude::*;
use crate::text::{starts_with, spec_starts_with};
use crate::bundle::{dirname, spec_dirname, spec_rfind_slash};

verus! {

/// What the state view records of one buffer.
#[derive(Debug, Clone)]
pub struct BufferSnapshot {
    /// The file path backing the buffer, when it has one.
    pub path: Option<String>,
    /// Its length in bytes.
    pub length: usize,
    /// Whether it has unsaved changes.
    pub modified: bool,
}

/// A snapshot of the editor's state, refreshed by the editor each tick and
/// read — never written — by the API surface.
#[derive(Debug, Clone)]
pub struct EditorStateSnapshot {
    pub active_buffer_id: usize,
    pub active_split_id: usize,
    pub cursor_position: usize,
    pub buffers: Vec<(usize, BufferSnapshot)>,
    pub config_json: String,
    pub user_config_json: String,
    pub editor_mode: Option<String>,
}

/// The buffer recorded under an identifier.
pub open spec fn spec_buffer_of(
    buffers: Seq<(usize, BufferSnapshot)>,
    id: usize,
) -> Option<BufferSnapshot>
    decreases buffers.len(),
{
    if buffers.len() == 0 {
        None
    } else if buffers[0].0 == id {
        Some(buffers[0].1)
    } else {
        spec_buffer_of(buffers.subrange(1, buffers.len() as int), id)
    }
}

impl EditorStateSnapshot {
    /// An empty snapshot: no buffers, origin state.
    pub fn new() -> (r: EditorStateSnapshot)
        ensures
            r.active_buffer_id == 0,
            r.active_split_id == 0,
            r.cursor_position == 0,
            r.buffers@.len() == 0,
            r.editor_mode is None,
    {
        EditorStateSnapshot {
            active_buffer_id: 0,
            active_split_id: 0,
            cursor_position: 0,
            buffers: Vec::new(),
            config_json: "{}".to_owned(),
            user_config_json: "{}".to_owned(),
            editor_mode: None,
        }
    }

    /// The buffer recorded under an identifier.
    fn find_buffer(&self, id: usize) -> (r: Option<&BufferSnapshot>)
        ensures
            match r {
                Some(b) => spec_buffer_of(self.buffers@, id) == Some(*b),
                None => spec_buffer_of(self.buffers@, id) is None,
            },
    {
        let n = self.buffers.len();
        let mut i: usize = 0;
        proof {
            assert(self.buffers@.subrange(0, n as int) =~= self.buffers@);
        }
        while i < n
            invariant
                0 <= i <= n,
                n == self.buffers@.len(),
                spec_buffer_of(self.buffers@, id) == spec_buffer_of(
                    self.buffers@.subrange(i as int, n as int),
                    id,
                ),
            decreases n - i,
        {
            let ghost rem = self.buffers@.subrange(i as int, n as int);
            proof {
                assert(rem[0] == self.buffers@[i as int]);
                assert(rem.subrange(1, rem.len() as int) =~= self.buffers@.subrange(
                    i as int + 1,
                    n as int,
                ));
            }
            if self.buffers[i].0 == id {
                return Some(&self.buffers[i].1);
            }
            i += 1;
        }
        proof {
            assert(self.buffers@.subrange(n as int, n as int) =~= Seq::<(
                usize,
                BufferSnapshot,
            )>::empty());
        }
        None
    }

    /// The file path of a buffer, or the empty string when the buffer is
    /// unknown or has none.
    pub fn buffer_path(&self, id: usize) -> (r: String)
        ensures
            r@ == (match spec_buffer_of(self.buffers@, id) {
                Some(b) => match b.path {
                    Some(p) => p@,
                    None => Seq::<char>::empty(),
                },
                None => Seq::<char>::empty(),
            }),
    {
        match self.find_buffer(id) {
            Some(b) => match &b.path {
                Some(p) => p.clone(),
                None => String::new(),
            },
            None => String::new(),
        }
    }

    /// The length of a buffer, or zero when it is unknown.
    pub fn buffer_length(&self, id: usize) -> (r: usize)
        ensures
            r == (match spec_buffer_of(self.buffers@, id) {
                Some(b) => b.length as int,
                None => 0,
            }),
    {
        match self.find_buffer(id) {
            Some(b) => b.length,
            None => 0,
        }
    }

    /// Whether a buffer has unsaved changes; an unknown buffer has none.
    pub fn buffer_modified(&self, id: usize) -> (r: bool)
        ensures
            r == (match spec_buffer_of(self.buffers@, id) {
                Some(b) => b.modified,
                None => false,
            }),
    {
        match self.find_buffer(id) {
            Some(b) => b.modified,
            None => false,
        }
    }
}

/// Whether a path is absolute.
pub open spec fn spec_is_absolute(p: Seq<char>) -> bool {
    spec_starts_with(p, "/"@)
}

/// Whether a path is absolute.
pub fn path_is_absolute(path: &str) -> (r: bool)
    ensures
        r == spec_is_absolute(path@),
{
    starts_with(path, "/")
}

/// Path segments joined left to right: an absolute segment restarts the path,
/// any other segment is appended behind a separator.
pub open spec fn spec_path_join(parts: Seq<Seq<char>>) -> Seq<char>
    decreases parts.len(),
{
    if parts.len() == 0 {
        Seq::empty()
    } else {
        let init = spec_path_join(parts.drop_last());
        let last = parts.last();
        if spec_is_absolute(last) || init.len() == 0 {
            last
        } else {
            init + "/"@ + last
        }
    }
}

/// Joins path segments; an absolute segment restarts the path.
pub fn path_join(parts: &Vec<String>) -> (r: String)
    ensures
        r@ == spec_path_join(parts@.map_values(|p: String| p@)),
{
    let ghost views = parts@.map_values(|p: String| p@);
    let n = parts.len();
    let mut out = String::new();
    let mut i: usize = 0;
    while i < n
        invariant
            0 <= i <= n,
            n == parts@.len(),
            views == parts@.map_values(|p: String| p@),
            out@ == spec_path_join(views.subrange(0, i as int)),
        decreases n - i,
    {
        let part = &parts[i];
        proof {
            assert(views.subrange(0, i as int + 1).drop_last() =~= views.subrange(0, i as int));
            assert(views.subrange(0, i as int + 1).last() == views[i as int]);
        }
        if path_is_absolute(part.as_str()) || out.as_str().unicode_len() == 0 {
            out = part.clone();
        } else {
            out.append("/");
            out.append(part.as_str());
        }
        i += 1;
    }
    proof {
        assert(views.subrange(0, n as int) =~= views);
    }
    out
}

/// The file-name part of a path: everything after the last separator.
pub open spec fn spec_basename(p: Seq<char>) -> Seq<char> {
    match spec_rfind_slash(p) {
        Some(i) => p.subrange(i + 1, p.len() as int),
        None => p,
    }
}

/// The file-name part of a path.
pub fn path_basename(path: &str) -> (r: String)
    ensures
        r@ == spec_basename(path@),
{
    let plen = path.unicode_len();
    if plen == 0 {
        return String::new();
    }
    if path.get_char(plen - 1) == '/' {
        proof {
            assert(path@.subrange(plen as int, plen as int) =~= Seq::<char>::empty());
        }
        return String::new();
    }
    match rfind_slash(path) {
        Some(i) => path.substring_char(i + 1, plen).to_owned(),
        None => path.to_owned(),
    }
}

/// The index of the last separator of a path, if any.
fn rfind_slash(p: &str) -> (r: Option<usize>)
    ensures
        match r {
            Some(i) => spec_rfind_slash(p@) == Some(i as int) && i < p@.len(),
            None => spec_rfind_slash(p@) is None,
        },
    decreases p@.len(),
{
    let plen = p.unicode_len();
    if plen == 0 {
        return None;
    }
    if p.get_char(plen - 1) == '/' {
        return Some(plen - 1);
    }
    let head = p.substring_char(0, plen - 1);
    proof {
        assert(p@.drop_last() =~= head@);
    }
    rfind_slash(head)
}

/// The extension of a path with its leading dot: what follows the last dot of
/// the file name, or the empty string when the file name has no dot or starts
/// with its only dot.
pub open spec fn spec_extname(p: Seq<char>) -> Seq<char> {
    let base = spec_basename(p);
    match spec_rfind_dot(base) {
        Some(i) => if i > 0 {
            base.subrange(i, base.len() as int)
        } else {
            Seq::empty()
        },
        None => Seq::empty(),
    }
}

/// The index of the last dot, if any.
pub open spec fn spec_rfind_dot(s: Seq<char>) -> Option<int>
    decreases s.len(),
{
    if s.len() == 0 {
        None
    } else if s.last() == '.' {
        Some(s.len() - 1)
    } else {
        spec_rfind_dot(s.drop_last())
    }
}

fn rfind_dot(s: &str) -> (r: Option<usize>)
    ensures
        match r {
            Some(i) => spec_rfind_dot(s@) == Some(i as int) && i < s@.len(),
            None => spec_rfind_dot(s@) is None,
        },
    decreases s@.len(),
{
    let slen = s.unicode_len();
    if slen == 0 {
        return None;
    }
    if s.get_char(slen - 1) == '.' {
        return Some(slen - 1);
    }
    let head = s.substring_char(0, slen - 1);
    proof {
        assert(s@.drop_last() =~= head@);
    }
    rfind_dot(head)
}

/// The extension of a path, with its leading dot.
pub fn path_extname(path: &str) -> (r: String)
    ensures
        r@ == spec_extname(path@),
{
    let base = path_basename(path);
    let bs = base.as_str();
    let blen = bs.unicode_len();
    match rfind_dot(bs) {
        Some(i) => {
            if i > 0 {
                bs.substring_char(i, blen).to_owned()
            } else {
                String::new()
            }
        },
        None => String::new(),
    }
}

/// The directory part of a path.
pub fn path_dirname(path: &str) -> (r: String)
    ensures
        r@ == spec_dirname(path@),
{
    dirname(path)
}

} // verus!
