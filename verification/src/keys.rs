//! Key files and local path notation.
//!
//! Paths are read as `std::path` reads them on the platform at hand, given
//! as a [`PathStyle`]: `/` separates components everywhere, and `\` does
//! too on Windows, where a drive prefix such as `C:` stands before the first
//! component. Trailing separators and `.` components are skipped, and a path
//! whose last component is `.` or `..` (or that has none) has no file name.
//! The extension is what follows the last `.` of the file name when that `.`
//! is not the file name's first character. Windows UNC and verbatim prefixes
//! (`\\server\share`, `\\?\`) are read by their separators alone.
use vstd::prelude::*;

use crate::error::{fails_with, AppError};
use crate::text::{
    ascii_lower_char, chars_of, chars_range, eq_ignore_ascii_case, has_prefix, join2, join3,
    starts_with_chars, string_of_range,
};

verus! {

/// The path rules of a platform.
#[derive(Clone, Copy, Debug, PartialEq, Eq, Structural)]
pub enum PathStyle {
    /// Only `/` separates components.
    Unix,
    /// `/` and `\` separate components, after an optional drive prefix.
    Windows,
}

/// `c` separates path components.
pub open spec fn is_separator(style: PathStyle, c: char) -> bool {
    c == '/' || (style is Windows && c == '\\')
}

/// An ASCII letter.
pub open spec fn is_ascii_letter(c: char) -> bool {
    ('a' <= c <= 'z') || ('A' <= c <= 'Z')
}

/// The length of the drive prefix (`C:`) a Windows path starts with, or 0.
pub open spec fn prefix_len(style: PathStyle, p: Seq<char>) -> int {
    if style is Windows && p.len() >= 2 && is_ascii_letter(p[0]) && p[1] == ':' {
        2
    } else {
        0
    }
}

/// The path without its trailing separators and trailing `.` components.
pub open spec fn without_trailing(style: PathStyle, p: Seq<char>) -> Seq<char>
    decreases p.len(),
{
    if p.len() <= prefix_len(style, p) {
        p
    } else if is_separator(style, p.last()) {
        without_trailing(style, p.drop_last())
    } else if p.last() == '.' && p.len() >= 2 && is_separator(style, p[p.len() - 2]) {
        without_trailing(style, p.drop_last())
    } else {
        p
    }
}

/// Where the last component of `path` begins: just after its last separator.
pub open spec fn file_name_start(style: PathStyle, path: Seq<char>) -> int
    decreases path.len(),
{
    if path.len() == 0 {
        0
    } else if is_separator(style, path.last()) {
        path.len() as int
    } else {
        file_name_start(style, path.drop_last())
    }
}

/// Where the last component of a path without trailing parts begins, after
/// any drive prefix.
pub open spec fn name_start(style: PathStyle, t: Seq<char>) -> int {
    if file_name_start(style, t) < prefix_len(style, t) {
        prefix_len(style, t)
    } else {
        file_name_start(style, t)
    }
}

/// The file name of a path (`Path::file_name`): its last component, unless
/// there is none or it is `.` or `..`.
pub open spec fn file_name(style: PathStyle, path: Seq<char>) -> Option<Seq<char>> {
    let t = without_trailing(style, path);
    let name = t.skip(name_start(style, t));
    if name.len() == 0 || name == seq!['.'] || name == seq!['.', '.'] {
        None
    } else {
        Some(name)
    }
}

/// The file name, or nothing when there is none (`unwrap_or_default`).
pub open spec fn file_name_or_empty(style: PathStyle, path: Seq<char>) -> Seq<char> {
    match file_name(style, path) {
        Some(n) => n,
        None => Seq::empty(),
    }
}

/// The file name `name` has the extension `ext` (compared without ASCII
/// case), for an extension `ext` that holds no `.`.
pub open spec fn name_has_extension(name: Seq<char>, ext: Seq<char>) -> bool {
    let n = name.len() as int;
    let k = ext.len() as int;
    &&& n >= k + 2
    &&& name[n - k - 1] == '.'
    &&& eq_ignore_ascii_case(name.subrange(n - k, n), ext)
}

/// The extension of `path` is `ext` (see [`name_has_extension`]).
pub open spec fn has_extension(style: PathStyle, path: Seq<char>, ext: Seq<char>) -> bool {
    match file_name(style, path) {
        Some(n) => name_has_extension(n, ext),
        None => false,
    }
}

/// The private key that a public key file `path` (extension `pub`) belongs
/// to: the path cut at the end of its file stem (`with_extension("")`).
pub open spec fn public_key_stem(style: PathStyle, path: Seq<char>) -> Option<Seq<char>> {
    if has_extension(style, path, "pub"@) {
        Some(path.take(without_trailing(style, path).len() - 4))
    } else {
        None
    }
}

/// The file that must hold the private key for a selected key file.
pub open spec fn private_key_path(style: PathStyle, selected: Seq<char>) -> Seq<char> {
    match public_key_stem(style, selected) {
        Some(stem) => stem,
        None => selected,
    }
}

/// The file that may hold the matching public key for a selected key file.
pub open spec fn public_key_path(style: PathStyle, selected: Seq<char>) -> Seq<char> {
    match public_key_stem(style, selected) {
        Some(_) => selected,
        None => selected + ".pub"@,
    }
}

/// A path without its trailing parts is a prefix of it.
pub proof fn lemma_without_trailing(style: PathStyle, p: Seq<char>)
    ensures
        without_trailing(style, p).len() <= p.len(),
        without_trailing(style, p) == p.take(without_trailing(style, p).len() as int),
    decreases p.len(),
{
    if p.len() > prefix_len(style, p) {
        let q = p.drop_last();
        lemma_without_trailing(style, q);
        let w = without_trailing(style, q);
        assert(q.take(w.len() as int) =~= p.take(w.len() as int));
    }
    assert(p.take(p.len() as int) =~= p);
}

/// Where a last component begins lies within the path, after every separator.
pub proof fn lemma_file_name_start(style: PathStyle, path: Seq<char>)
    ensures
        0 <= file_name_start(style, path) <= path.len(),
        forall|i: int|
            file_name_start(style, path) <= i < path.len() ==> !is_separator(style, path[i]),
    decreases path.len(),
{
    if path.len() > 0 && !is_separator(style, path.last()) {
        lemma_file_name_start(style, path.drop_last());
        let t = path.drop_last();
        assert forall|i: int| file_name_start(style, path) <= i < path.len() implies !is_separator(
            style,
            path[i],
        ) by {
            if i < path.len() - 1 {
                assert(path[i] == t[i]);
            }
        }
    }
}

/// Characters that hold no separator leave where the last component begins
/// unchanged.
proof fn lemma_file_name_start_append(style: PathStyle, q: Seq<char>, s: Seq<char>)
    requires
        forall|i: int| 0 <= i < s.len() ==> !is_separator(style, #[trigger] s[i]),
    ensures
        file_name_start(style, q + s) == file_name_start(style, q),
    decreases s.len(),
{
    if s.len() > 0 {
        let r = s.drop_last();
        assert((q + s).drop_last() =~= q + r);
        assert((q + s).last() == s[s.len() - 1]);
        lemma_file_name_start_append(style, q, r);
    } else {
        assert(q + s =~= q);
    }
}

/// Selecting the public key file `p.pub` of a private key file `p` (a path
/// that has a file name and ends with it) resolves to `p`, and `p.pub` is
/// then the public key used beside it.
pub proof fn law_public_key_selects_private_key(style: PathStyle, p: Seq<char>)
    requires
        file_name(style, p) is Some,
        without_trailing(style, p) == p,
    ensures
        public_key_stem(style, p + ".pub"@) == Some(p),
        private_key_path(style, p + ".pub"@) == p,
        public_key_path(style, p + ".pub"@) == p + ".pub"@,
{
    reveal_strlit(".pub");
    reveal_strlit("pub");
    let q = p + ".pub"@;
    lemma_file_name_start(style, p);
    let ns = name_start(style, p);
    let name = p.skip(ns);
    assert(0 <= ns <= p.len());
    assert(name.len() > 0);
    assert(q.len() == p.len() + 4);
    assert(q.last() == 'b');
    assert(prefix_len(style, q) == prefix_len(style, p)) by {
        if p.len() >= 2 {
            assert(q[0] == p[0] && q[1] == p[1]);
        } else {
            assert(q[1] == '.');
        }
    }
    assert(without_trailing(style, q) == q);
    assert forall|i: int| 0 <= i < ".pub"@.len() implies !is_separator(
        style,
        #[trigger] ".pub"@[i],
    ) by {}
    lemma_file_name_start_append(style, p, ".pub"@);
    assert(name_start(style, q) == ns);
    let qname = q.skip(ns);
    assert(qname =~= name + ".pub"@);
    assert(qname.len() >= 5);
    assert(qname != seq!['.']);
    assert(qname != seq!['.', '.']);
    assert(file_name(style, q) == Some(qname));
    let m = qname.len() as int;
    assert(qname[m - 4] == '.');
    assert(qname.subrange(m - 3, m) =~= "pub"@);
    assert(name_has_extension(qname, "pub"@));
    assert(q.take(q.len() - 4) =~= p);
}

fn separator(style: PathStyle, c: char) -> (r: bool)
    ensures
        r == is_separator(style, c),
{
    c == '/' || (matches!(style, PathStyle::Windows) && c == '\\')
}

fn prefix_len_exec(style: PathStyle, p: &[char]) -> (r: usize)
    ensures
        r == prefix_len(style, p@),
{
    if matches!(style, PathStyle::Windows) && p.len() >= 2 && (('a' <= p[0] && p[0] <= 'z') || (
    'A' <= p[0] && p[0] <= 'Z')) && p[1] == ':' {
        2
    } else {
        0
    }
}

/// The length of the path without its trailing parts.
fn trailing_end(style: PathStyle, p: &[char]) -> (n: usize)
    ensures
        n <= p@.len(),
        without_trailing(style, p@) == p@.take(n as int),
{
    let pre = prefix_len_exec(style, p);
    let mut n: usize = p.len();
    assert(p@.take(p@.len() as int) =~= p@);
    while n > pre && (separator(style, p[n - 1]) || (p[n - 1] == '.' && n >= 2 && separator(
        style,
        p[n - 2],
    )))
        invariant
            pre == prefix_len(style, p@),
            pre <= n <= p@.len(),
            without_trailing(style, p@.take(n as int)) == without_trailing(style, p@),
        decreases n,
    {
        let ghost t = p@.take(n as int);
        assert(prefix_len(style, t) == if n >= 2 { pre as int } else { 0 });
        assert(t.last() == p@[n - 1]);
        if n >= 2 {
            assert(t[t.len() - 2] == p@[n - 2]);
        }
        assert(t.drop_last() =~= p@.take(n - 1));
        n = n - 1;
    }
    proof {
        let t = p@.take(n as int);
        assert(prefix_len(style, t) == if n >= 2 { pre as int } else { 0 });
        if n > 0 {
            assert(t.last() == p@[n - 1]);
        }
        if n >= 2 {
            assert(t[t.len() - 2] == p@[n - 2]);
        }
    }
    n
}

/// Where the last component of `path` begins.
fn file_name_start_exec(style: PathStyle, path: &[char]) -> (r: usize)
    ensures
        r == file_name_start(style, path@),
{
    let mut n: usize = path.len();
    assert(path@.take(path@.len() as int) =~= path@);
    while n > 0 && !separator(style, path[n - 1])
        invariant
            n <= path@.len(),
            file_name_start(style, path@.take(n as int)) == file_name_start(style, path@),
        decreases n,
    {
        assert(path@.take(n as int).drop_last() =~= path@.take(n - 1));
        n = n - 1;
    }
    assert(path@.take(n as int).len() == n);
    if n > 0 {
        assert(path@.take(n as int).last() == path@[n - 1]);
    }
    n
}

/// Where the file name of `path` stands in it, if it has one: it runs from
/// the first to the second position, which ends the path without its
/// trailing parts.
fn file_name_bounds(style: PathStyle, p: &[char]) -> (r: Option<(usize, usize)>)
    ensures
        match file_name(style, p@) {
            Some(name) => r matches Some((a, b)) && a <= b && b <= p@.len() && name
                == p@.subrange(a as int, b as int) && b == without_trailing(style, p@).len(),
            None => r is None,
        },
{
    let e = trailing_end(style, p);
    let t = chars_range(p, 0, e);
    assert(t@ =~= without_trailing(style, p@));
    let s = file_name_start_exec(style, t.as_slice());
    let pre = prefix_len_exec(style, t.as_slice());
    proof {
        lemma_file_name_start(style, t@);
    }
    let start = if s < pre {
        pre
    } else {
        s
    };
    let ghost name = t@.skip(start as int);
    assert(name =~= p@.subrange(start as int, e as int));
    let len = e - start;
    if len == 0 || (len == 1 && t[start] == '.') || (len == 2 && t[start] == '.' && t[start + 1]
        == '.') {
        proof {
            if len == 1 {
                assert(name =~= seq!['.']);
            }
            if len == 2 {
                assert(name =~= seq!['.', '.']);
            }
        }
        return None;
    }
    proof {
        if name == seq!['.'] {
            assert(name[0] == t@[start as int]);
        }
        if name == seq!['.', '.'] {
            assert(name[0] == t@[start as int] && name[1] == t@[start + 1]);
        }
    }
    Some((start, e))
}

/// The file name of `path` (`Path::file_name`), see [`file_name`].
pub fn file_name_text(style: PathStyle, path: &str) -> (r: Option<String>)
    ensures
        match file_name(style, path@) {
            Some(n) => r matches Some(s) && s@ == n,
            None => r is None,
        },
{
    let v = chars_of(path);
    match file_name_bounds(style, v.as_slice()) {
        Some((a, b)) => Some(string_of_range(v.as_slice(), a, b)),
        None => None,
    }
}

/// The file name `name` has the extension `ext` (see [`name_has_extension`]).
pub fn name_has_extension_exec(name: &[char], ext: &[char]) -> (r: bool)
    ensures
        r == name_has_extension(name@, ext@),
{
    let n = name.len();
    let k = ext.len();
    if n < 2 || n - 2 < k {
        return false;
    }
    if name[n - k - 1] != '.' {
        return false;
    }
    let mut i: usize = 0;
    while i < k
        invariant
            k == ext@.len(),
            n == name@.len(),
            k + 2 <= n,
            i <= k,
            forall|j: int|
                0 <= j < i ==> ascii_lower_char(name@[n - k + j]) == ascii_lower_char(ext@[j]),
        decreases k - i,
    {
        if lower_ascii(name[n - k + i]) != lower_ascii(ext[i]) {
            assert(name@.subrange(n - k, n as int)[i as int] == name@[n - k + i]);
            return false;
        }
        i = i + 1;
    }
    assert forall|j: int| 0 <= j < k implies ascii_lower_char(
        #[trigger] name@.subrange(n - k, n as int)[j],
    ) == ascii_lower_char(ext@[j]) by {
        assert(name@.subrange(n - k, n as int)[j] == name@[n - k + j]);
    }
    true
}

/// ASCII upper-case letters to lower case.
pub fn lower_ascii(c: char) -> (r: char)
    ensures
        r == ascii_lower_char(c),
{
    if 'A' <= c && c <= 'Z' {
        ((c as u8) + 32) as char
    } else {
        c
    }
}

/// The private key belonging to the public key file `path`, if `path` is one.
fn public_key_stem_exec(style: PathStyle, path: &str) -> (r: Option<String>)
    ensures
        match r {
            Some(s) => public_key_stem(style, path@) == Some(s@),
            None => public_key_stem(style, path@) is None,
        },
{
    let p = chars_of(path);
    let ext = chars_of("pub");
    proof {
        reveal_strlit("pub");
    }
    match file_name_bounds(style, p.as_slice()) {
        Some((a, b)) => {
            let name = chars_range(p.as_slice(), a, b);
            if name_has_extension_exec(name.as_slice(), ext.as_slice()) {
                Some(string_of_range(p.as_slice(), 0, b - 4))
            } else {
                None
            }
        },
        None => None,
    }
}

/// The file that must hold the private key (see [`private_key_path`]).
pub fn key_private_path(style: PathStyle, selected: &str) -> (r: String)
    ensures
        r@ == private_key_path(style, selected@),
{
    match public_key_stem_exec(style, selected) {
        Some(stem) => stem,
        None => selected.to_owned(),
    }
}

/// The file that may hold the public key (see [`public_key_path`]).
pub fn key_public_path(style: PathStyle, selected: &str) -> (r: String)
    ensures
        r@ == public_key_path(style, selected@),
{
    match public_key_stem_exec(style, selected) {
        Some(_) => selected.to_owned(),
        None => join2(selected, ".pub"),
    }
}

/// The key file to store for a selection: a public key file is replaced by
/// its private key when `stem_is_file` says that file exists, any other
/// selection is kept.
pub fn normalize_selected_key_path(style: PathStyle, selected: &str, stem_is_file: bool) -> (r:
    String)
    ensures
        r@ == (match public_key_stem(style, selected@) {
            Some(stem) => if stem_is_file {
                stem
            } else {
                selected@
            },
            None => selected@,
        }),
{
    match public_key_stem_exec(style, selected) {
        Some(stem) => if stem_is_file {
            stem
        } else {
            selected.to_owned()
        },
        None => selected.to_owned(),
    }
}

/// The message when the private key file is missing.
pub open spec fn missing_key_message(style: PathStyle, selected: Seq<char>) -> Seq<char> {
    if public_key_stem(style, selected) is Some {
        "O arquivo .pub é somente a chave pública. Coloque a chave privada correspondente em “"@
            + private_key_path(style, selected)
            + "” ou selecione-a diretamente."@
    } else {
        "A chave privada não foi encontrada em “"@ + private_key_path(style, selected) + "”."@
    }
}

/// The files an authentication with the selected key uses: the private key
/// (which must exist, as `private_is_file` tells) and the public key when
/// `public_is_file` says it exists. `private_is_file` and `public_is_file`
/// answer for [`private_key_path`] and [`public_key_path`] of `selected`.
pub fn key_files(style: PathStyle, selected: &str, private_is_file: bool, public_is_file: bool) -> (r:
    Result<(String, Option<String>), AppError>)
    ensures
        !private_is_file ==> fails_with(
            r,
            "private_key_missing"@,
            missing_key_message(style, selected@),
        ),
        private_is_file ==> (r matches Ok((private, public)) && private@ == private_key_path(
            style,
            selected@,
        ) && (match public {
            Some(p) => public_is_file && p@ == public_key_path(style, selected@),
            None => !public_is_file,
        })),
{
    let private = key_private_path(style, selected);
    if !private_is_file {
        let message = if public_key_stem_exec(style, selected).is_some() {
            join3(
                "O arquivo .pub é somente a chave pública. Coloque a chave privada correspondente em “",
                private.as_str(),
                "” ou selecione-a diretamente.",
            )
        } else {
            join3("A chave privada não foi encontrada em “", private.as_str(), "”.")
        };
        return Err(AppError::new("private_key_missing", message.as_str()));
    }
    let public = if public_is_file {
        Some(key_public_path(style, selected))
    } else {
        None
    };
    Ok((private, public))
}

/// A local path as shown to the user: without the `\\?\` prefix of Windows
/// verbatim paths.
pub open spec fn local_path_notation(path: Seq<char>) -> Seq<char> {
    if has_prefix(path, "\\\\?\\"@) {
        path.skip(4)
    } else {
        path
    }
}

/// See [`local_path_notation`].
pub fn display_local_path(path: &str) -> (r: String)
    ensures
        r@ == local_path_notation(path@),
{
    let p = chars_of(path);
    let prefix = chars_of("\\\\?\\");
    proof {
        reveal_strlit("\\\\?\\");
    }
    if starts_with_chars(&p, &prefix) {
        string_of_range(&p, 4, p.len())
    } else {
        string_of_range(&p, 0, p.len())
    }
}


} // verus!
