use vstd::prelude::*;
use vstd::string::*;
use vstd::utf8::{decode_utf8, valid_utf8};

verus! {

/// One file of an embedded asset folder.
pub struct EmbeddedFile {
    pub path: String,
    pub data: Vec<u8>,
}

/// The data of the first file of `files` at `path`, if any.
pub open spec fn file_at(files: Seq<EmbeddedFile>, path: Seq<char>) -> Option<Seq<u8>>
    decreases files.len(),
{
    if files.len() == 0 {
        None
    } else if files[0].path@ == path {
        Some(files[0].data@)
    } else {
        file_at(files.drop_first(), path)
    }
}

/// The text of the asset at `path`: nothing when there is no such asset or
/// it is not UTF-8.
pub open spec fn asset_text(files: Seq<EmbeddedFile>, path: Seq<char>) -> Option<Seq<char>> {
    match file_at(files, path) {
        Some(bytes) => if valid_utf8(bytes) {
            Some(decode_utf8(bytes))
        } else {
            None
        },
        None => None,
    }
}

/// Relies on String::from_utf8: the bytes decoded as UTF-8, or nothing when
/// they are not valid UTF-8.
#[verifier::external_body]
pub(crate) fn decode_utf8_bytes(bytes: Vec<u8>) -> (r: Option<String>)
    ensures
        r is Some <==> valid_utf8(bytes@),
        r is Some ==> r.unwrap()@ == decode_utf8(bytes@),
{
    String::from_utf8(bytes).ok()
}

pub open spec fn is_prefix(prefix: Seq<char>, s: Seq<char>) -> bool {
    prefix.len() <= s.len() && s.subrange(0, prefix.len() as int) == prefix
}

pub open spec fn is_suffix(suffix: Seq<char>, s: Seq<char>) -> bool {
    suffix.len() <= s.len() && s.subrange(s.len() - suffix.len(), s.len() as int) == suffix
}

/// Whether `prefix` is a prefix of `s`.
fn has_prefix(s: &String, prefix: &String) -> (r: bool)
    ensures
        r == is_prefix(prefix@, s@),
{
    let text = s.as_str();
    let pre = prefix.as_str();
    let n = pre.unicode_len();
    if n > text.unicode_len() {
        return false;
    }
    let mut i: usize = 0;
    while i < n
        invariant
            i <= n,
            n == prefix@.len(),
            n <= s@.len(),
            text@ == s@,
            pre@ == prefix@,
            forall|j: int| 0 <= j < i ==> s@[j] == prefix@[j],
        decreases n - i,
    {
        if text.get_char(i) != pre.get_char(i) {
            return false;
        }
        i += 1;
    }
    assert(s@.subrange(0, n as int) =~= prefix@);
    true
}

/// Whether `suffix` is a suffix of `s`.
fn has_suffix(s: &String, suffix: &String) -> (r: bool)
    ensures
        r == is_suffix(suffix@, s@),
{
    let text = s.as_str();
    let suf = suffix.as_str();
    let n = suf.unicode_len();
    let len = text.unicode_len();
    if n > len {
        return false;
    }
    let start = len - n;
    let mut i: usize = 0;
    while i < n
        invariant
            i <= n,
            n == suffix@.len(),
            len == s@.len(),
            start + n == len,
            text@ == s@,
            suf@ == suffix@,
            forall|j: int| 0 <= j < i ==> s@[start + j] == suffix@[j],
        decreases n - i,
    {
        if text.get_char(start + i) != suf.get_char(i) {
            return false;
        }
        i += 1;
    }
    assert(s@.subrange(start as int, len as int) =~= suffix@);
    true
}

/// The index of the first file of `files` at `path`.
pub(crate) fn find_file(files: &Vec<EmbeddedFile>, path: &String) -> (r: Option<usize>)
    ensures
        match r {
            Some(i) => i < files@.len() && file_at(files@, path@) == Some(files@[i as int].data@),
            None => file_at(files@, path@) is None,
        },
{
    let mut i: usize = 0;
    assert(files@.subrange(0, files@.len() as int) =~= files@);
    while i < files.len()
        invariant
            i <= files.len(),
            file_at(files@, path@) == file_at(files@.subrange(i as int, files@.len() as int), path@),
        decreases files.len() - i,
    {
        let ghost rest = files@.subrange(i as int, files@.len() as int);
        assert(rest.drop_first() =~= files@.subrange(i + 1, files@.len() as int));
        assert(rest[0] == files@[i as int]);
        if files[i].path == *path {
            return Some(i);
        }
        i += 1;
    }
    None
}

/// Why an asset could not be had.
#[derive(Clone, Copy, Debug, PartialEq, Eq, Structural)]
pub enum AssetError {
    /// No embedded file has the asked-for path.
    NotFound,
}

/// The paths of `files` that start with `prefix`, in order.
pub open spec fn paths_under(files: Seq<EmbeddedFile>, prefix: Seq<char>) -> Seq<Seq<char>>
    decreases files.len(),
{
    if files.len() == 0 {
        Seq::empty()
    } else {
        let rest = paths_under(files.drop_last(), prefix);
        if is_prefix(prefix, files.last().path@) {
            rest.push(files.last().path@)
        } else {
            rest
        }
    }
}

/// Of `paths`, those that end with `suffix`, in order.
pub open spec fn paths_ending(paths: Seq<Seq<char>>, suffix: Seq<char>) -> Seq<Seq<char>>
    decreases paths.len(),
{
    if paths.len() == 0 {
        Seq::empty()
    } else {
        let rest = paths_ending(paths.drop_last(), suffix);
        if is_suffix(suffix, paths.last()) {
            rest.push(paths.last())
        } else {
            rest
        }
    }
}

/// The application's embedded folder of fonts, icons and documents.
pub struct Assets {
    pub files: Vec<EmbeddedFile>,
}

impl Assets {
    /// The bytes of the asset at `path`.
    pub fn load(&self, path: &String) -> (r: Result<Vec<u8>, AssetError>)
        ensures
            match r {
                Ok(data) => file_at(self.files@, path@) == Some(data@),
                Err(_) => file_at(self.files@, path@) is None,
            },
    {
        match find_file(&self.files, path) {
            Some(i) => Ok(self.files[i].data.clone()),
            None => Err(AssetError::NotFound),
        }
    }

    /// The paths of the assets that start with `path`, in order.
    pub fn list(&self, path: &String) -> (r: Vec<String>)
        ensures
            r@.map_values(|s: String| s@) == paths_under(self.files@, path@),
    {
        let mut out: Vec<String> = Vec::new();
        let mut i: usize = 0;
        while i < self.files.len()
            invariant
                i <= self.files.len(),
                out@.map_values(|s: String| s@) == paths_under(self.files@.subrange(0, i as int), path@),
            decreases self.files.len() - i,
        {
            let ghost before = out@;
            assert(self.files@.subrange(0, i + 1).drop_last() =~= self.files@.subrange(0, i as int));
            if has_prefix(&self.files[i].path, path) {
                out.push(self.files[i].path.clone());
                assert(out@.map_values(|s: String| s@) =~= before.map_values(|s: String| s@).push(
                    self.files@[i as int].path@,
                ));
            }
            i += 1;
        }
        assert(self.files@.subrange(0, self.files@.len() as int) =~= self.files@);
        out
    }

    /// The paths of the embedded TrueType fonts: the assets under `fonts`
    /// whose path ends with `.ttf`, in order.
    pub fn font_paths(&self) -> (r: Vec<String>)
        ensures
            r@.map_values(|s: String| s@) == paths_ending(
                paths_under(self.files@, "fonts"@),
                ".ttf"@,
            ),
    {
        let paths = self.list(&"fonts".to_string());
        let ttf = ".ttf".to_string();
        let mut out: Vec<String> = Vec::new();
        let mut i: usize = 0;
        while i < paths.len()
            invariant
                i <= paths.len(),
                ttf@ == ".ttf"@,
                out@.map_values(|s: String| s@) == paths_ending(
                    paths@.map_values(|s: String| s@).subrange(0, i as int),
                    ".ttf"@,
                ),
            decreases paths.len() - i,
        {
            let ghost before = out@;
            let ghost all = paths@.map_values(|s: String| s@);
            assert(all.subrange(0, i + 1).drop_last() =~= all.subrange(0, i as int));
            assert(all.subrange(0, i + 1).last() == paths@[i as int]@);
            if has_suffix(&paths[i], &ttf) {
                out.push(paths[i].clone());
                assert(out@.map_values(|s: String| s@) =~= before.map_values(|s: String| s@).push(
                    paths@[i as int]@,
                ));
            }
            i += 1;
        }
        assert(paths@.map_values(|s: String| s@).subrange(0, paths@.len() as int) =~= paths@.map_values(
            |s: String| s@,
        ));
        out
    }
}

} // verus!
