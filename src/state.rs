//! The editor's state: the open buffers, addressed by index.
use vstd::prelude::*;
use vstd::string::StringSliceAdditionalSpecFns;
use crate::text::utf8;
use crate::text_buffer::{Language, LineTextBuffer};

verus! {

/// `needle` occurs in `hay`, byte for byte.
pub open spec fn occurs_in(needle: Seq<u8>, hay: Seq<u8>) -> bool {
    exists|i: int| 0 <= i <= hay.len() - needle.len() && #[trigger] hay.subrange(i, i + needle.len()) == needle
}

/// Whether `needle` occurs in `hay`.
pub fn contains(hay: &str, needle: &str) -> (r: bool)
    ensures
        r == occurs_in(needle.spec_bytes(), hay.spec_bytes()),
{
    let h = hay.as_bytes();
    let n = needle.as_bytes();
    if n.len() > h.len() {
        return false;
    }
    let hl = h.len();
    let last = hl - n.len();
    let mut i: usize = 0;
    while i <= last
        invariant
            hl == h@.len(),
            h@ == hay.spec_bytes(),
            n@ == needle.spec_bytes(),
            last + n@.len() == h@.len(),
            forall|k: int| 0 <= k < i ==> #[trigger] h@.subrange(k, k + n@.len()) != n@,
        decreases last + 1 - i,
    {
        let mut j: usize = 0;
        while j < n.len() && h[i + j] == n[j]
            invariant
                i <= last,
                hl == h@.len(),
                last + n@.len() == h@.len(),
                j <= n@.len(),
                forall|q: int| 0 <= q < j ==> h@[i + q] == n@[q],
            decreases n@.len() - j,
        {
            j += 1;
        }
        if j == n.len() {
            assert(h@.subrange(i as int, i + n@.len()) =~= n@);
            return true;
        }
        assert(h@.subrange(i as int, i + n@.len())[j as int] != n@[j as int]);
        if i == last {
            assert(!occurs_in(n@, h@)) by {
                assert forall|k: int| 0 <= k <= h@.len() - n@.len() implies #[trigger] h@.subrange(
                    k,
                    k + n@.len(),
                ) != n@ by {
                    if k == i {
                        assert(h@.subrange(k, k + n@.len())[j as int] != n@[j as int]);
                    }
                }
            }
            return false;
        }
        i += 1;
    }
    false
}

/// The buffers open in the editor.
pub struct EditorState {
    pub text_buffers: Vec<LineTextBuffer>,
}

impl EditorState {
    /// An editor with no open buffer.
    pub fn new() -> (r: Self)
        ensures
            r.text_buffers@.len() == 0,
    {
        EditorState { text_buffers: Vec::new() }
    }

    /// The first buffer whose file's path occurs in `path`.
    pub fn find_buffer(&self, path: &str) -> (r: Option<usize>)
        ensures
            match r {
                Some(i) => i < self.text_buffers@.len() && (self.text_buffers@[i as int].file_path matches Some(p) && occurs_in(utf8(p@), utf8(path@))),
                None => forall|i: int| 0 <= i < self.text_buffers@.len() ==> !(#[trigger] self.text_buffers@[i].file_path matches Some(p) && occurs_in(utf8(p@), utf8(path@))),
            },
    {
        let mut i: usize = 0;
        while i < self.text_buffers.len()
            invariant
                i <= self.text_buffers@.len(),
                forall|k: int| 0 <= k < i ==> !(#[trigger] self.text_buffers@[k].file_path matches Some(p) && occurs_in(utf8(p@), utf8(path@))),
            decreases self.text_buffers@.len() - i,
        {
            match &self.text_buffers[i].file_path {
                Some(p) => {
                    if contains(path, p.as_str()) {
                        return Some(i);
                    }
                },
                None => {},
            }
            i += 1;
        }
        None
    }

    /// Opens a buffer on `content`, read from the file at `path`, to be
    /// highlighted as `language`; returns its index.
    pub fn add_buffer(&mut self, content: String, path: String, language: Language) -> (r: usize)
        ensures
            r == old(self).text_buffers@.len(),
            final(self).text_buffers@.len() == r + 1,
            final(self).text_buffers@.take(r as int) == old(self).text_buffers@,
            final(self).text_buffers@[r as int].wf(),
            final(self).text_buffers@[r as int].content() == crate::text::lines_of(utf8(content@)),
            final(self).text_buffers@[r as int].file_path == Some(path),
            final(self).text_buffers@[r as int].language == language,
    {
        let mut buffer = LineTextBuffer::from_file(content, path);
        buffer.language = language;
        self.text_buffers.push(buffer);
        assert(self.text_buffers@.take(self.text_buffers@.len() - 1) =~= old(self).text_buffers@);
        self.text_buffers.len() - 1
    }

    /// Closes the buffer at `index`; the buffers after it move down by one.
    pub fn delete_buffer(&mut self, index: usize)
        requires
            index < old(self).text_buffers@.len(),
        ensures
            final(self).text_buffers@ == old(self).text_buffers@.remove(index as int),
    {
        let _ = self.text_buffers.remove(index);
    }
}

} // verus!
