//! Work files: the versioned file name convention, the records read from
//! and written to it, and the operations that add a file to a task.

use vstd::prelude::*;
use vstd::string::*;
use crate::failure::IoFailure;
use crate::helpers::{program_for, OpenRequest, DCC_FILE_NAME};
use crate::order::{descending, sort_descending, Ranked};
use crate::projects::Project;
use crate::sequences::lemma_filter_map_step;
use crate::tasks::{DirItem, DirItemView, TaskTreeNode};
use crate::paths::{
    directory, directory_of, extension, file_name, has_extension, join, joined, lacks,
    lacks_separator, last_index_in, lemma_file_name_of_joined, lemma_last_index_of,
    lemma_sibling, lemma_split_extension, name_start_in, sibling, sibling_of, stem, PathStyle,
    DOT,
};
use crate::text::{
    char_of_digit, chars_of, decimal, digit_char, digit_of, digit_value, is_digit,
    lemma_number_of_decimal, lemma_text_rank_flip, lemma_text_rank_same, lemma_text_rank_trans,
    number_of, push_decimal, rank_numbers, rank_of_ints, rank_text, string_of_range, text_rank,
    Rank,
};

verus! {

/// Why a path is not the path of a work file.
#[derive(Clone, Copy, Debug, PartialEq, Eq, Structural)]
pub enum ParseError {
    /// The stem of the file name does not end in `_v` and three digits.
    NotVersioned,
}

/// A work file: its logical name, where it lies, its extension and its version.
#[derive(Debug, PartialEq, Eq)]
pub struct File {
    pub name: String,
    pub path: String,
    pub extension: String,
    pub version: u32,
}

/// What a work file record holds, as plain values.
pub struct FileView {
    pub name: Seq<char>,
    pub path: Seq<char>,
    pub extension: Seq<char>,
    pub version: nat,
}

impl View for File {
    type V = FileView;

    open spec fn view(&self) -> FileView {
        FileView {
            name: self.name@,
            path: self.path@,
            extension: self.extension@,
            version: self.version as nat,
        }
    }
}

impl Clone for File {
    fn clone(&self) -> (r: Self)
        ensures
            r == *self,
    {
        File {
            name: self.name.clone(),
            path: self.path.clone(),
            extension: self.extension.clone(),
            version: self.version,
        }
    }
}

/// Largest version that the three-digit suffix can carry.
pub const MAX_VERSION: u32 = 999;

/// The digits of a version in a file name: three digits with leading zeros
/// up to 999, and the plain decimal digits beyond.
pub open spec fn version_digits(v: nat) -> Seq<char> {
    if v < 1000 {
        seq![digit_char(v / 100), digit_char(v / 10 % 10), digit_char(v % 10)]
    } else {
        decimal(v)
    }
}

/// A version as it is shown: `v` and its digits.
pub open spec fn version_label(v: nat) -> Seq<char> {
    seq!['v'] + version_digits(v)
}

/// The file name of a work file: `{name}_v{digits}.{extension}`.
pub open spec fn encoded(name: Seq<char>, version: nat, extension: Seq<char>) -> Seq<char> {
    name + seq!['_'] + version_label(version) + seq![DOT] + extension
}

/// The version that a stem carries in its last five characters, if they are
/// `_v` and three digits.
pub open spec fn version_suffix(stem: Seq<char>) -> Option<nat> {
    let n = stem.len() as int;
    if n >= 5 && stem[n - 5] == '_' && stem[n - 4] == 'v' && is_digit(stem[n - 3]) && is_digit(
        stem[n - 2],
    ) && is_digit(stem[n - 1]) {
        Some(100 * digit_value(stem[n - 3]) + 10 * digit_value(stem[n - 2]) + digit_value(stem[n - 1]))
    } else {
        None
    }
}

/// The work file that a path names: the stem of its final component must
/// carry a version suffix; what precedes the suffix is the logical name.
pub open spec fn decoded(path: Seq<char>, style: PathStyle) -> Result<FileView, ParseError> {
    let fname = file_name(path, style);
    let st = stem(fname);
    match version_suffix(st) {
        Some(version) => Ok(
            FileView {
                name: st.subrange(0, st.len() - 5),
                path,
                extension: extension(fname),
                version,
            },
        ),
        None => Err(ParseError::NotVersioned),
    }
}

impl FileView {
    /// Whether the record agrees with the final component of its path.
    pub open spec fn is_consistent(self, style: PathStyle) -> bool {
        file_name(self.path, style) == encoded(self.name, self.version, self.extension)
    }

    /// The record of the next version: the same name and extension, the
    /// version one higher, beside this file.
    pub open spec fn next(self, style: PathStyle) -> FileView {
        FileView {
            name: self.name,
            path: sibling(self.path, encoded(self.name, self.version + 1, self.extension), style),
            extension: self.extension,
            version: self.version + 1,
        }
    }
}

/// A stem without its version suffix, put before the suffix of a version up
/// to 999, carries that version.
pub proof fn lemma_version_suffix_of_encoded(name: Seq<char>, v: nat)
    requires
        v <= MAX_VERSION,
    ensures
        version_suffix(name + seq!['_'] + version_label(v)) == Some(v),
        (name + seq!['_'] + version_label(v)).len() == name.len() + 5,
        (name + seq!['_'] + version_label(v)).subrange(0, name.len() as int) == name,
{
    let st = name + seq!['_'] + version_label(v);
    let n = st.len() as int;
    assert(n == name.len() + 5);
    assert(st[n - 5] == '_');
    assert(st[n - 4] == 'v');
    assert(st[n - 3] == digit_char(v / 100));
    assert(st[n - 2] == digit_char(v / 10 % 10));
    assert(st[n - 1] == digit_char(v % 10));
    assert(st.subrange(0, name.len() as int) =~= name);
}

/// Decoding is the inverse of encoding for versions up to 999: a file name
/// encoded from a name, a version and an extension, put into any directory,
/// decodes to just these. The name and the extension must hold no
/// separator, and the extension no dot.
pub proof fn lemma_decode_encode(dir: Seq<char>, name: Seq<char>, v: nat, ext: Seq<char>, style: PathStyle)
    requires
        v <= MAX_VERSION,
        lacks_separator(name, style),
        lacks_separator(ext, style),
        lacks(ext, DOT),
    ensures
        decoded(joined(dir, encoded(name, v, ext), style), style) == Ok::<FileView, ParseError>(
            FileView { name, path: joined(dir, encoded(name, v, ext), style), extension: ext, version: v },
        ),
        decoded(encoded(name, v, ext), style) == Ok::<FileView, ParseError>(
            FileView { name, path: encoded(name, v, ext), extension: ext, version: v },
        ),
{
    let st = name + seq!['_'] + version_label(v);
    let fname = encoded(name, v, ext);
    assert(fname =~= st.push(DOT) + ext);
    assert(lacks_separator(fname, style)) by {
        assert forall|i: int| 0 <= i < fname.len() implies !style.separates(fname[i]) by {
            if i < name.len() {
                assert(fname[i] == name[i]);
            } else if i < name.len() + 5 {
                assert(fname[i] == st[i]);
            } else if i > name.len() + 5 {
                assert(fname[i] == ext[i - name.len() - 6]);
            }
        }
    }
    lemma_file_name_of_joined(dir, fname, style);
    lemma_file_name_of_joined(Seq::empty(), fname, style);
    assert(joined(Seq::empty(), fname, style) =~= fname);
    lemma_version_suffix_of_encoded(name, v);
    lemma_split_extension(st, ext);
}

/// Decoding fails for every path whose stem is shorter than five characters
/// or does not end in `_v` and three digits, and only for those.
pub proof fn lemma_decode_rejects(path: Seq<char>, style: PathStyle)
    ensures
        stem(file_name(path, style)).len() < 5 ==> decoded(path, style) == Err::<FileView, ParseError>(
            ParseError::NotVersioned,
        ),
        decoded(path, style) is Err <==> version_suffix(stem(file_name(path, style))) is None,
        decoded(path, style) is Ok ==> decoded(path, style)->Ok_0.version <= MAX_VERSION && decoded(
            path,
            style,
        )->Ok_0.path == path,
{
}

/// A record decoded from a file name with an extension agrees with its path:
/// encoding it gives the file name back.
pub proof fn lemma_decoded_is_consistent(path: Seq<char>, style: PathStyle)
    requires
        decoded(path, style) is Ok,
        has_extension(file_name(path, style)),
    ensures
        decoded(path, style)->Ok_0.is_consistent(style),
{
    let fname = file_name(path, style);
    let st = stem(fname);
    let f = decoded(path, style)->Ok_0;
    let n = st.len() as int;
    lemma_last_index_of(fname, DOT);
    let a = digit_value(st[n - 3]);
    let b = digit_value(st[n - 2]);
    let c = digit_value(st[n - 1]);
    assert(f.version == 100 * a + 10 * b + c);
    assert(f.version / 100 == a && f.version / 10 % 10 == b && f.version % 10 == c);
    assert(digit_char(a) == st[n - 3] && digit_char(b) == st[n - 2] && digit_char(c) == st[n - 1]);
    assert(encoded(f.name, f.version, f.extension) =~= fname);
}

/// Appends the digits of a version as a file name carries them.
pub fn push_version_digits(s: &mut String, version: u32)
    ensures
        final(s)@ == old(s)@ + version_digits(version as nat),
{
    if version < 1000 {
        s.push(char_of_digit(version / 100));
        s.push(char_of_digit(version / 10 % 10));
        s.push(char_of_digit(version % 10));
        assert(final(s)@ =~= old(s)@ + version_digits(version as nat));
    } else {
        push_decimal(s, version);
    }
}

/// The file name of a work file with this name, version and extension.
pub fn encode(name: &str, version: u32, extension: &str) -> (r: String)
    ensures
        r@ == encoded(name@, version as nat, extension@),
{
    let mut r = String::from_str(name);
    r.push('_');
    r.push('v');
    push_version_digits(&mut r, version);
    r.push(DOT);
    r.append(extension);
    assert(r@ =~= encoded(name@, version as nat, extension@));
    r
}

impl File {
    /// The version as it is shown: `v` and at least three digits.
    pub fn fmt_version(&self) -> (r: String)
        ensures
            r@ == version_label(self.version as nat),
    {
        let mut r = String::new();
        r.push('v');
        push_version_digits(&mut r, self.version);
        assert(r@ =~= version_label(self.version as nat));
        r
    }

    /// The file name that the record stands for.
    pub fn make_filename_from_self(&self) -> (r: String)
        ensures
            r@ == encoded(self.name@, self.version as nat, self.extension@),
    {
        encode(self.name.as_str(), self.version, self.extension.as_str())
    }

    /// The work file that `path` names, or the reason why it names none.
    pub fn from_path(path: String, style: PathStyle) -> (r: Result<File, ParseError>)
        ensures
            match r {
                Ok(f) => decoded(path@, style) == Ok::<FileView, ParseError>(f@),
                Err(e) => decoded(path@, style) == Err::<FileView, ParseError>(e),
            },
    {
        let v = chars_of(path.as_str());
        let parts = split_file_name(&v, style);
        match suffix_version(&v, parts.name_start, parts.stem_end) {
            None => Err(ParseError::NotVersioned),
            Some(version) => {
                let name = string_of_range(&v, parts.name_start, parts.stem_end - 5);
                let extension = string_of_range(&v, parts.extension_start, v.len());
                proof {
                    let st = stem(file_name(path@, style));
                    assert(st.subrange(0, st.len() - 5) =~= v@.subrange(
                        parts.name_start as int,
                        parts.stem_end - 5,
                    ));
                }
                Ok(File { name, path, extension, version })
            },
        }
    }
}

/// Where the parts of the final component of a path lie in its characters.
pub struct NameParts {
    pub name_start: usize,
    pub stem_end: usize,
    pub extension_start: usize,
}

/// Finds the final component of a path, its stem and its extension.
pub fn split_file_name(v: &Vec<char>, style: PathStyle) -> (parts: NameParts)
    ensures
        parts.name_start <= parts.stem_end <= parts.extension_start <= v.len(),
        file_name(v@, style) == v@.subrange(parts.name_start as int, v.len() as int),
        stem(file_name(v@, style)) == v@.subrange(parts.name_start as int, parts.stem_end as int),
        extension(file_name(v@, style)) == v@.subrange(parts.extension_start as int, v.len() as int),
{
    let n: usize = v.len();
    let name_start: usize = name_start_in(v, style);
    let ghost fname = file_name(v@, style);
    proof {
        lemma_last_index_of(fname, DOT);
    }
    let dot: usize = match last_index_in(v, DOT, name_start, n) {
        Some(d) => d,
        None => 0,
    };
    if dot > 0 {
        proof {
            assert(stem(fname) =~= v@.subrange(name_start as int, name_start + dot));
            assert(extension(fname) =~= v@.subrange(name_start + dot + 1, n as int));
        }
        NameParts { name_start, stem_end: name_start + dot, extension_start: name_start + dot + 1 }
    } else {
        proof {
            assert(extension(fname) =~= v@.subrange(n as int, n as int));
        }
        NameParts { name_start, stem_end: n, extension_start: n }
    }
}

/// Reads the version suffix of the stem `v[from..to]`.
pub fn suffix_version(v: &Vec<char>, from: usize, to: usize) -> (r: Option<u32>)
    requires
        from <= to <= v.len(),
    ensures
        r is Some ==> to - from >= 5,
        match r {
            Some(version) => version_suffix(v@.subrange(from as int, to as int)) == Some(
                version as nat,
            ),
            None => version_suffix(v@.subrange(from as int, to as int)) is None,
        },
{
    if to - from < 5 {
        return None;
    }
    let t: usize = to - 5;
    proof {
        let st = v@.subrange(from as int, to as int);
        let m = st.len() as int;
        assert(st[m - 5] == v@[t as int]);
        assert(st[m - 4] == v@[t + 1]);
        assert(st[m - 3] == v@[t + 2]);
        assert(st[m - 2] == v@[t + 3]);
        assert(st[m - 1] == v@[t + 4]);
    }
    if v[t] != '_' || v[t + 1] != 'v' {
        return None;
    }
    match (digit_of(v[t + 2]), digit_of(v[t + 3]), digit_of(v[t + 4])) {
        (Some(hundreds), Some(tens), Some(ones)) => Some(hundreds * 100 + tens * 10 + ones),
        _ => None,
    }
}

/// Why a work file could not be added.
#[derive(Debug, PartialEq, Eq)]
pub enum FileError {
    /// The filesystem refused; the failure is passed on as it came.
    Io(IoFailure),
    /// There is a file at the destination already. Nothing is overwritten.
    AlreadyExists,
    /// The template to copy from is not there.
    TemplateMissing,
    /// The version cannot be raised any further.
    VersionExhausted,
}

impl FileError {
    /// The text that describes the error.
    pub open spec fn text(self) -> Seq<char> {
        match self {
            FileError::Io(e) => e@,
            FileError::AlreadyExists => "File already exists!"@,
            FileError::TemplateMissing => "Template file not found."@,
            FileError::VersionExhausted => "Version number out of range."@,
        }
    }

    /// The text that describes the error.
    pub fn message(&self) -> (r: String)
        ensures
            r@ == self.text(),
    {
        match self {
            FileError::Io(e) => e.message.clone(),
            FileError::AlreadyExists => String::from_str("File already exists!"),
            FileError::TemplateMissing => String::from_str("Template file not found."),
            FileError::VersionExhausted => String::from_str("Version number out of range."),
        }
    }
}

impl ParseError {
    /// The text that describes the error.
    pub fn message(&self) -> (r: String)
        ensures
            r@ == "Not a valid filename."@,
    {
        String::from_str("Not a valid filename.")
    }
}

/// A file to copy, byte for byte, and where to.
#[derive(Debug, PartialEq, Eq)]
pub struct CopyJob {
    pub from: String,
    pub to: String,
}

/// What raising the version of a work file takes: the copy to make, and the
/// record of the file that the copy brings about.
#[derive(Debug, PartialEq, Eq)]
pub struct VersionUp {
    pub file: File,
    pub copy: CopyJob,
}

/// The digits of a version stand for the version.
pub proof fn lemma_number_of_version_digits(v: nat)
    ensures
        number_of(version_digits(v)) == v,
        version_digits(v).len() >= 3,
{
    if v < 1000 {
        let d = version_digits(v);
        assert(d.drop_last() =~= seq![digit_char(v / 100), digit_char(v / 10 % 10)]);
        assert(d.drop_last().drop_last() =~= seq![digit_char(v / 100)]);
        assert(d.drop_last().drop_last().drop_last() =~= Seq::<char>::empty());
        reveal_with_fuel(number_of, 4);
    } else {
        lemma_number_of_decimal(v);
    }
}

/// Two versions of one name and extension have different file names.
pub proof fn lemma_encoded_versions_differ(name: Seq<char>, a: nat, b: nat, ext: Seq<char>)
    requires
        a != b,
    ensures
        encoded(name, a, ext) != encoded(name, b, ext),
{
    let ea = encoded(name, a, ext);
    let eb = encoded(name, b, ext);
    lemma_number_of_version_digits(a);
    lemma_number_of_version_digits(b);
    if ea == eb {
        let da = version_digits(a);
        let db = version_digits(b);
        assert(ea.len() == name.len() + 2 + da.len() + 1 + ext.len());
        assert(eb.len() == name.len() + 2 + db.len() + 1 + ext.len());
        let at = name.len() as int + 2;
        assert(da =~= ea.subrange(at, at + da.len()));
        assert(db =~= eb.subrange(at, at + db.len()));
    }
}

/// Raising the version twice in a row gives two new files beside the
/// first, one and two versions above it: each lies in the directory of the
/// first, is named by the convention, and differs from the other and from
/// the first.
pub proof fn lemma_version_up_twice(f: FileView, style: PathStyle)
    requires
        lacks_separator(f.name, style),
        lacks_separator(f.extension, style),
    ensures
        f.next(style).version == f.version + 1,
        f.next(style).next(style).version == f.version + 2,
        f.next(style).name == f.name && f.next(style).next(style).name == f.name,
        f.next(style).extension == f.extension && f.next(style).next(style).extension == f.extension,
        directory(f.next(style).path, style) == directory(f.path, style),
        directory(f.next(style).next(style).path, style) == directory(f.path, style),
        f.next(style).is_consistent(style),
        f.next(style).next(style).is_consistent(style),
        f.next(style).path != f.next(style).next(style).path,
        f.is_consistent(style) ==> f.next(style).path != f.path && f.next(style).next(style).path != f.path,
{
    let g = f.next(style);
    let h = g.next(style);
    let n1 = encoded(f.name, f.version + 1, f.extension);
    let n2 = encoded(f.name, f.version + 2, f.extension);
    lemma_encoded_lacks_separator(f.name, f.version + 1, f.extension, style);
    lemma_encoded_lacks_separator(f.name, f.version + 2, f.extension, style);
    lemma_sibling(f.path, n1, style);
    lemma_sibling(g.path, n2, style);
    lemma_encoded_versions_differ(f.name, f.version + 1, f.version + 2, f.extension);
    lemma_encoded_versions_differ(f.name, f.version, f.version + 1, f.extension);
    lemma_encoded_versions_differ(f.name, f.version, f.version + 2, f.extension);
}

/// A file name encoded from parts without separators holds none.
pub proof fn lemma_encoded_lacks_separator(name: Seq<char>, v: nat, ext: Seq<char>, style: PathStyle)
    requires
        lacks_separator(name, style),
        lacks_separator(ext, style),
    ensures
        lacks_separator(encoded(name, v, ext), style),
{
    let e = encoded(name, v, ext);
    let d = version_digits(v);
    lemma_number_of_decimal(v);
    assert forall|i: int| 0 <= i < e.len() implies !style.separates(e[i]) by {
        if i < name.len() {
            assert(e[i] == name[i]);
        } else if i < name.len() + 2 {
        } else if i < name.len() + 2 + d.len() {
            assert(e[i] == d[i - name.len() - 2]);
            assert(is_digit(d[i - name.len() - 2]));
        } else if i == name.len() + 2 + d.len() {
        } else {
            assert(e[i] == ext[i - name.len() - 3 - d.len()]);
        }
    }
}

/// The order of work files: by name, then extension, then version; files
/// that agree in all three stand in the order of their paths.
pub open spec fn file_rank(a: FileView, b: FileView) -> Rank {
    text_rank(a.name, b.name).or_else(text_rank(a.extension, b.extension)).or_else(
        rank_of_ints(a.version as int, b.version as int),
    ).or_else(text_rank(a.path, b.path))
}

/// Two work files rank the same exactly when their records are the same.
pub proof fn lemma_file_rank_same(a: FileView, b: FileView)
    ensures
        file_rank(a, b) == Rank::Same <==> a == b,
{
    lemma_text_rank_same(a.name, b.name);
    lemma_text_rank_same(a.extension, b.extension);
    lemma_text_rank_same(a.path, b.path);
}

impl Ranked for File {
    open spec fn rank_to(&self, other: &Self) -> Rank {
        file_rank(self@, other@)
    }

    fn rank(&self, other: &Self) -> (r: Rank) {
        let r = rank_text(self.name.as_str(), other.name.as_str());
        if r != Rank::Same {
            return r;
        }
        let r = rank_text(self.extension.as_str(), other.extension.as_str());
        if r != Rank::Same {
            return r;
        }
        let r = rank_numbers(self.version, other.version);
        if r != Rank::Same {
            return r;
        }
        rank_text(self.path.as_str(), other.path.as_str())
    }

    proof fn lemma_rank_flip(a: &Self, b: &Self) {
        lemma_text_rank_flip(a@.name, b@.name);
        lemma_text_rank_flip(a@.extension, b@.extension);
        lemma_text_rank_flip(a@.path, b@.path);
    }

    proof fn lemma_rank_trans(a: &Self, b: &Self, c: &Self) {
        let (a, b, c) = (a@, b@, c@);
        lemma_text_rank_trans(a.name, b.name, c.name);
        if text_rank(a.name, c.name) == Rank::Same {
            lemma_text_rank_trans(a.extension, b.extension, c.extension);
            if text_rank(a.extension, c.extension) == Rank::Same && a.version == c.version {
                lemma_text_rank_trans(a.path, b.path, c.path);
            }
        }
    }
}

/// The name of a new work file: the project's directory name, the task's
/// name, the logical name if there is one, the first version, and the
/// extension of the template, which brings its own dot.
pub open spec fn new_file_name(
    project: Seq<char>,
    task: Seq<char>,
    name: Seq<char>,
    extension: Seq<char>,
) -> Seq<char> {
    new_file_stem(project, task, name) + FIRST_VERSION_SUFFIX@ + extension
}

/// The logical name of a new work file: the project's directory name, the
/// task's name, and what the caller adds, if anything.
pub open spec fn new_file_stem(project: Seq<char>, task: Seq<char>, name: Seq<char>) -> Seq<char> {
    if name.len() > 0 {
        project + seq!['_'] + task + seq!['_'] + name
    } else {
        project + seq!['_'] + task
    }
}

/// The suffix that the first version of a work file carries.
pub const FIRST_VERSION_SUFFIX: &'static str = "_v001";

/// The fixed part of the name of a template file.
pub const TEMPLATE_STEM: &'static str = "template";

/// The first version's suffix, character by character.
pub proof fn lemma_first_version_suffix()
    ensures
        FIRST_VERSION_SUFFIX@ == seq!['_', 'v', '0', '0', '1'],
        FIRST_VERSION_SUFFIX@ == seq!['_'] + version_label(1),
{
    reveal_strlit("_v001");
    assert(FIRST_VERSION_SUFFIX@ =~= seq!['_', 'v', '0', '0', '1']);
    assert(seq!['_'] + version_label(1) =~= seq!['_', 'v', '0', '0', '1']);
}

/// Whether the parts of a new file name let the name be decoded again: the
/// extension is a dot and a text without dot, and no part holds a separator.
pub open spec fn decodable_parts(
    project: Seq<char>,
    task: Seq<char>,
    name: Seq<char>,
    ext: Seq<char>,
    style: PathStyle,
) -> bool {
    &&& ext.len() > 0
    &&& ext[0] == DOT
    &&& lacks(ext.subrange(1, ext.len() as int), DOT)
    &&& lacks_separator(ext, style)
    &&& lacks_separator(project, style)
    &&& lacks_separator(task, style)
    &&& lacks_separator(name, style)
}

/// With and without a logical name, a new work file gets two different
/// names, and both end in the first version's suffix and the extension.
/// Where the extension is a dot and a text without dot or separator, and
/// neither the project's directory name, the task's name nor the logical
/// name holds a separator, both names decode, in any directory, to version
/// 1 of their logical name.
pub proof fn lemma_new_file_names(
    dir: Seq<char>,
    project: Seq<char>,
    task: Seq<char>,
    name: Seq<char>,
    ext: Seq<char>,
    style: PathStyle,
)
    ensures
        name.len() > 0 ==> new_file_name(project, task, name, ext) != new_file_name(
            project,
            task,
            Seq::empty(),
            ext,
        ),
        new_file_name(project, task, name, ext).len() >= 5 + ext.len(),
        new_file_name(project, task, name, ext).subrange(
            new_file_name(project, task, name, ext).len() - 5 - ext.len(),
            new_file_name(project, task, name, ext).len() as int,
        ) == FIRST_VERSION_SUFFIX@ + ext,
        decodable_parts(project, task, name, ext, style)
            ==> decoded(joined(dir, new_file_name(project, task, name, ext), style), style) == Ok::<
            FileView,
            ParseError,
        >(
            FileView {
                name: new_file_stem(project, task, name),
                path: joined(dir, new_file_name(project, task, name, ext), style),
                extension: ext.subrange(1, ext.len() as int),
                version: 1,
            },
        ),
{
    lemma_first_version_suffix();
    let full = new_file_name(project, task, name, ext);
    let st = new_file_stem(project, task, name);
    assert(full.subrange(full.len() - 5 - ext.len(), full.len() as int) =~= FIRST_VERSION_SUFFIX@
        + ext);
    if name.len() > 0 {
        assert(full.len() != new_file_name(project, task, Seq::empty(), ext).len());
    }
    if decodable_parts(project, task, name, ext, style) {
        let x = ext.subrange(1, ext.len() as int);
        assert(ext =~= seq![DOT] + x);
        assert(full =~= encoded(st, 1, x));
        assert(lacks_separator(x, style)) by {
            assert forall|i: int| 0 <= i < x.len() implies !style.separates(x[i]) by {
                assert(x[i] == ext[i + 1]);
            }
        }
        assert(lacks_separator(st, style)) by {
            assert forall|i: int| 0 <= i < st.len() implies !style.separates(st[i]) by {
                if i < project.len() {
                    assert(st[i] == project[i]);
                } else if i == project.len() {
                } else if i < project.len() + 1 + task.len() {
                    assert(st[i] == task[i - project.len() - 1]);
                } else if i == project.len() + 1 + task.len() {
                } else {
                    assert(st[i] == name[i - project.len() - 2 - task.len()]);
                }
            }
        }
        lemma_decode_encode(dir, st, 1, x, style);
    }
}

/// A template for new work files: the tool it belongs to, the extension of
/// its files with the dot, and the file to copy.
#[derive(Debug, PartialEq, Eq)]
pub struct Dcc {
    pub name: String,
    pub extension: String,
    pub template_path: String,
}

/// What a template descriptor holds, as plain values.
pub struct DccView {
    pub name: Seq<char>,
    pub extension: Seq<char>,
    pub template_path: Seq<char>,
}

impl View for Dcc {
    type V = DccView;

    open spec fn view(&self) -> DccView {
        DccView {
            name: self.name@,
            extension: self.extension@,
            template_path: self.template_path@,
        }
    }
}

impl Clone for Dcc {
    fn clone(&self) -> (r: Self)
        ensures
            r == *self,
    {
        Dcc {
            name: self.name.clone(),
            extension: self.extension.clone(),
            template_path: self.template_path.clone(),
        }
    }
}

/// What was found at one entry of the templates directory: the entry, the
/// descriptor read from the descriptor file inside it, if there is one that
/// can be read, and whether the template file that the descriptor calls
/// for is there.
#[derive(Debug, PartialEq, Eq)]
pub struct DccCandidate {
    pub item: DirItem,
    pub config: Option<Dcc>,
    pub template_exists: bool,
}

/// What a candidate holds, as plain values.
pub struct DccCandidateView {
    pub item: DirItemView,
    pub config: Option<DccView>,
    pub template_exists: bool,
}

impl View for DccCandidate {
    type V = DccCandidateView;

    open spec fn view(&self) -> DccCandidateView {
        DccCandidateView {
            item: self.item@,
            config: match self.config {
                Some(c) => Some(c@),
                None => None,
            },
            template_exists: self.template_exists,
        }
    }
}

/// The candidates of a scan, as plain values.
pub open spec fn candidates_view(candidates: Seq<DccCandidate>) -> Seq<DccCandidateView> {
    candidates.map_values(|c: DccCandidate| c@)
}

/// The descriptors of a list of templates, as plain values.
pub open spec fn dccs_view(dccs: Seq<Dcc>) -> Seq<DccView> {
    dccs.map_values(|d: Dcc| d@)
}

/// The template file that a descriptor in `dir` with this extension calls for.
pub open spec fn template_path(dir: Seq<char>, extension: Seq<char>, style: PathStyle) -> Seq<char> {
    joined(dir, TEMPLATE_STEM@ + extension, style)
}

/// Whether a candidate is a template: the entry is no regular file, its
/// descriptor was read, and its template file is there.
pub open spec fn is_template(c: DccCandidateView) -> bool {
    !c.item.is_file && c.config is Some && c.template_exists
}

/// The template that a candidate gives: its descriptor, with the path of
/// the template file filled in.
pub open spec fn template_of(c: DccCandidateView, style: PathStyle) -> DccView {
    DccView {
        name: c.config->0.name,
        extension: c.config->0.extension,
        template_path: template_path(c.item.path, c.config->0.extension, style),
    }
}

/// The templates among the candidates, in their order.
pub open spec fn templates(candidates: Seq<DccCandidateView>, style: PathStyle) -> Seq<DccView> {
    candidates.filter(|c: DccCandidateView| is_template(c)).map_values(
        |c: DccCandidateView| template_of(c, style),
    )
}

/// One step of `templates`.
proof fn lemma_templates_step(s: Seq<DccCandidateView>, i: int, style: PathStyle)
    requires
        0 <= i < s.len(),
    ensures
        templates(s.take(i + 1), style) == if is_template(s[i]) {
            templates(s.take(i), style).push(template_of(s[i], style))
        } else {
            templates(s.take(i), style)
        },
{
    lemma_filter_map_step(
        s,
        |c: DccCandidateView| is_template(c),
        |c: DccCandidateView| template_of(c, style),
        i,
    );
}

impl Dcc {
    /// The descriptor file of the template directory `dir`.
    pub fn config_in(dir: &str, style: PathStyle) -> (r: String)
        ensures
            r@ == joined(dir@, DCC_FILE_NAME@, style),
    {
        join(dir, DCC_FILE_NAME, style)
    }

    /// The template file that a descriptor in `dir` with this extension calls for.
    pub fn template_in(dir: &str, extension: &str, style: PathStyle) -> (r: String)
        ensures
            r@ == template_path(dir@, extension@, style),
    {
        let mut name = String::from_str(TEMPLATE_STEM);
        name.append(extension);
        join(dir, name.as_str(), style)
    }

    /// The templates under a templates directory. `found` is what the caller
    /// met there: the failure to list the directory, or one candidate for
    /// each of its entries. A listing that failed fails the search; a
    /// candidate that is a regular file, has no readable descriptor or lacks
    /// its template file is left out.
    pub fn find_dcc(found: Result<Vec<DccCandidate>, IoFailure>, style: PathStyle) -> (r: Result<
        Vec<Dcc>,
        IoFailure,
    >)
        ensures
            match found {
                Err(e) => r == Err::<Vec<Dcc>, IoFailure>(e),
                Ok(candidates) => r is Ok && dccs_view(r->Ok_0@) == templates(
                    candidates_view(candidates@),
                    style,
                ),
            },
    {
        match found {
            Err(e) => Err(e),
            Ok(candidates) => {
                let mut dccs: Vec<Dcc> = Vec::new();
                let ghost all = candidates_view(candidates@);
                let mut i: usize = 0;
                proof {
                    assert(templates(all.take(0), style) =~= Seq::<DccView>::empty()) by {
                        reveal(Seq::filter);
                    }
                    assert(dccs_view(dccs@) =~= Seq::<DccView>::empty());
                }
                while i < candidates.len()
                    invariant
                        i <= candidates.len(),
                        all == candidates_view(candidates@),
                        dccs_view(dccs@) == templates(all.take(i as int), style),
                    decreases candidates.len() - i,
                {
                    proof {
                        lemma_templates_step(all, i as int, style);
                        assert(all[i as int] == candidates@[i as int]@);
                    }
                    let c = &candidates[i];
                    if !c.item.is_file && c.template_exists {
                        match &c.config {
                            Some(config) => {
                                let dcc = Dcc {
                                    name: config.name.clone(),
                                    extension: config.extension.clone(),
                                    template_path: Dcc::template_in(
                                        c.item.path.as_str(),
                                        config.extension.as_str(),
                                        style,
                                    ),
                                };
                                let ghost before = dccs@;
                                let ghost dv = dcc@;
                                dccs.push(dcc);
                                assert(dccs_view(dccs@) =~= dccs_view(before).push(dv));
                            },
                            None => {},
                        }
                    }
                    i += 1;
                }
                assert(all.take(candidates.len() as int) =~= all);
                Ok(dccs)
            },
        }
    }
}

impl File {
    /// Raises the version by one.
    pub fn increase_version_number(&mut self)
        requires
            old(self).version < u32::MAX,
        ensures
            final(self)@ == (FileView { version: old(self)@.version + 1, ..old(self)@ }),
    {
        self.version = self.version + 1;
    }

    /// The record of the next version of this file, which lies beside it;
    /// `None` where the version cannot be raised.
    pub fn next_version(&self, style: PathStyle) -> (r: Option<File>)
        ensures
            match r {
                Some(f) => self.version < u32::MAX && f@ == self@.next(style),
                None => self.version == u32::MAX,
            },
    {
        if self.version == u32::MAX {
            return None;
        }
        let mut next = self.clone();
        next.increase_version_number();
        let name = next.make_filename_from_self();
        next.path = sibling_of(self.path.as_str(), name.as_str(), style);
        Some(next)
    }

    /// Decides on raising the version of this file, given whether something
    /// exists already at the path of the next version. Nothing is ever
    /// overwritten: where something exists there, the answer is
    /// `AlreadyExists` and no copy is asked for. A failure to find out is
    /// passed on. Otherwise the answer is the copy to make, from this file
    /// to the path of the next version, and the record of the new file.
    pub fn version_up(&self, target_exists: Result<bool, IoFailure>, style: PathStyle) -> (r: Result<
        VersionUp,
        FileError,
    >)
        ensures
            match r {
                Ok(up) => self.version < u32::MAX && target_exists == Ok::<bool, IoFailure>(false)
                    && up.file@ == self@.next(style) && up.copy.from@ == self@.path && up.copy.to@
                    == self@.next(style).path,
                Err(FileError::VersionExhausted) => self.version == u32::MAX,
                Err(FileError::Io(e)) => self.version < u32::MAX && target_exists == Err::<
                    bool,
                    IoFailure,
                >(e),
                Err(FileError::AlreadyExists) => self.version < u32::MAX && target_exists == Ok::<
                    bool,
                    IoFailure,
                >(true),
                Err(FileError::TemplateMissing) => false,
            },
    {
        let file = match self.next_version(style) {
            Some(f) => f,
            None => {
                return Err(FileError::VersionExhausted);
            },
        };
        match target_exists {
            Err(e) => Err(FileError::Io(e)),
            Ok(true) => Err(FileError::AlreadyExists),
            Ok(false) => {
                let copy = CopyJob { from: self.path.clone(), to: file.path.clone() };
                Ok(VersionUp { file, copy })
            },
        }
    }

    /// The name of a new work file of the task.
    pub fn make_filename(name: &String, task: &TaskTreeNode, project: &Project, dcc: &Dcc) -> (r:
        String)
        ensures
            r@ == new_file_name(project@.name_sanitized, task@.name, name@, dcc@.extension),
    {
        let mut r = project.name_sanitized.clone();
        r.push('_');
        r.append(task.name.as_str());
        if name.as_str().unicode_len() > 0 {
            r.push('_');
            r.append(name.as_str());
        }
        r.append(FIRST_VERSION_SUFFIX);
        r.append(dcc.extension.as_str());
        assert(r@ =~= new_file_name(project@.name_sanitized, task@.name, name@, dcc@.extension));
        r
    }

    /// The path of a file named `name` among the work files of the task.
    pub fn make_path(task: TaskTreeNode, name: String, style: PathStyle) -> (r: String)
        ensures
            r@ == joined(task@.work_path(style), name@, style),
    {
        let dir = task.get_work_path(style);
        join(dir.as_str(), name.as_str(), style)
    }

    /// Decides on copying a template to `path`, given whether something
    /// exists at `path` and whether the template is there. The destination
    /// is looked at first: where something exists there, the answer is
    /// `AlreadyExists`; then the template: where it is missing, the answer
    /// is `TemplateMissing`. A failure to find out either is passed on, the
    /// destination's first. Otherwise the answer is the copy to make.
    pub fn copy_file(
        path: String,
        dcc: Dcc,
        destination_exists: Result<bool, IoFailure>,
        template_exists: Result<bool, IoFailure>,
    ) -> (r: Result<CopyJob, FileError>)
        ensures
            match copy_refusal(destination_exists, template_exists) {
                Some(e) => r == Err::<CopyJob, FileError>(e),
                None => r is Ok && r->Ok_0.from@ == dcc@.template_path && r->Ok_0.to@ == path@,
            },
    {
        match destination_exists {
            Err(e) => Err(FileError::Io(e)),
            Ok(true) => Err(FileError::AlreadyExists),
            Ok(false) => match template_exists {
                Err(e) => Err(FileError::Io(e)),
                Ok(false) => Err(FileError::TemplateMissing),
                Ok(true) => Ok(CopyJob { from: dcc.template_path, to: path }),
            },
        }
    }

    /// Decides on adding a new work file to a task from a template. The
    /// file is named after the project, the task and `name`, if `name` is
    /// not empty, and lies among the work files of the task; the rest is
    /// decided as `copy_file` decides it.
    pub fn create_file(
        name: String,
        task: TaskTreeNode,
        project: Project,
        dcc: Dcc,
        destination_exists: Result<bool, IoFailure>,
        template_exists: Result<bool, IoFailure>,
        style: PathStyle,
    ) -> (r: Result<CopyJob, FileError>)
        ensures
            match copy_refusal(destination_exists, template_exists) {
                Some(e) => r == Err::<CopyJob, FileError>(e),
                None => r is Ok && r->Ok_0.from@ == dcc@.template_path && r->Ok_0.to@ == joined(
                    task@.work_path(style),
                    new_file_name(project@.name_sanitized, task@.name, name@, dcc@.extension),
                    style,
                ),
            },
    {
        let filename = File::make_filename(&name, &task, &project, &dcc);
        let path = File::make_path(task, filename, style);
        File::copy_file(path, dcc, destination_exists, template_exists)
    }

    /// The files in the order in which they are shown: the latest version of
    /// each name and extension first.
    pub fn latest_first(files: Vec<File>) -> (r: Vec<File>)
        ensures
            r@.to_multiset() == files@.to_multiset(),
            descending(r@),
    {
        sort_descending(files)
    }

    /// The request to reveal the directory that holds the file.
    pub fn reveal_request(&self, style: PathStyle) -> (r: OpenRequest)
        ensures
            r.path@ == directory(self@.path, style),
            r.program@ == program_for(style),
    {
        OpenRequest::in_file_browser(directory_of(self.path.as_str(), style), style)
    }
}

/// Why a template is not copied, if it is not: something exists at the
/// destination, which is looked at first, or the template is missing, or
/// one of the two could not be found out.
pub open spec fn copy_refusal(
    destination_exists: Result<bool, IoFailure>,
    template_exists: Result<bool, IoFailure>,
) -> Option<FileError> {
    match destination_exists {
        Err(e) => Some(FileError::Io(e)),
        Ok(true) => Some(FileError::AlreadyExists),
        Ok(false) => match template_exists {
            Err(e) => Some(FileError::Io(e)),
            Ok(false) => Some(FileError::TemplateMissing),
            Ok(true) => None,
        },
    }
}

} // verus!
