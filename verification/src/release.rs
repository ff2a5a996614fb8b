//! Release versions and the choice of a local update installer.
use vstd::prelude::*;

use crate::error::{fails_with, AppError};
use crate::keys::{name_has_extension, name_has_extension_exec};
use crate::text::{
    chars_of, chars_range, decimal, find_char, find_char_exec, first_piece, has_prefix, join3,
    lemma_decimal_digits, lemma_find_char_bound, lemma_split_char_at, lemma_split_char_none,
    parse_u64, parse_u64_chars, split_char, starts_with_chars, lowercase_text, unicode_lowercase,
};

verus! {

/// The version `major.minor.patch` that `v` spells: exactly three pieces
/// separated by `.`, each a number as `str::parse::<u64>` reads it.
pub open spec fn release_version(v: Seq<char>) -> Option<(u64, u64, u64)> {
    let parts = split_char(v, '.');
    if parts.len() == 3 && parse_u64(parts[0]) is Some && parse_u64(parts[1]) is Some && parse_u64(
        parts[2],
    ) is Some {
        Some((parse_u64(parts[0])->0, parse_u64(parts[1])->0, parse_u64(parts[2])->0))
    } else {
        None
    }
}

/// Reads a `major.minor.patch` version.
pub fn parse_release_version(value: &str) -> (r: Option<(u64, u64, u64)>)
    ensures
        r == release_version(value@),
{
    let v = chars_of(value);
    proof {
        lemma_find_char_bound(v@, '.');
    }
    let i1 = match find_char_exec(&v, '.') {
        Some(i) => i,
        None => {
            return None;
        },
    };
    let rest1 = chars_range(&v, i1 + 1, v.len());
    assert(rest1@ =~= v@.skip(i1 + 1));
    proof {
        lemma_find_char_bound(rest1@, '.');
    }
    let i2 = match find_char_exec(&rest1, '.') {
        Some(i) => i,
        None => {
            assert(split_char(rest1@, '.') == seq![rest1@]);
            return None;
        },
    };
    let rest2 = chars_range(&rest1, i2 + 1, rest1.len());
    assert(rest2@ =~= rest1@.skip(i2 + 1));
    proof {
        lemma_find_char_bound(rest2@, '.');
    }
    let ghost parts = split_char(v@, '.');
    assert(parts == seq![v@.take(i1 as int)] + split_char(rest1@, '.'));
    assert(split_char(rest1@, '.') == seq![rest1@.take(i2 as int)] + split_char(rest2@, '.'));
    match find_char_exec(&rest2, '.') {
        Some(_) => {
            proof {
                let p3 = split_char(rest2@, '.');
                let k = find_char(rest2@, '.')->0;
                assert(p3 == seq![rest2@.take(k as int)] + split_char(rest2@.skip(k as int + 1), '.'));
                assert(p3.len() >= 1);
                assert(parts.len() >= 3);
                assert(parts.len() != 3);
            }
            None
        },
        None => {
            let a = chars_range(&v, 0, i1);
            let b = chars_range(&rest1, 0, i2);
            assert(split_char(rest2@, '.') == seq![rest2@]);
            assert(parts =~= seq![a@, b@, rest2@]);
            match (parse_u64_chars(&a), parse_u64_chars(&b), parse_u64_chars(&rest2)) {
                (Some(x), Some(y), Some(z)) => Some((x, y, z)),
                _ => None,
            }
        },
    }
}

/// A version printed as `major.minor.patch` reads back as the same three
/// numbers.
pub proof fn law_release_version_reads_back(a: u64, b: u64, c: u64)
    ensures
        release_version(decimal(a as nat) + "."@ + decimal(b as nat) + "."@ + decimal(c as nat))
            == Some((a, b, c)),
{
    reveal_strlit(".");
    let da = decimal(a as nat);
    let db = decimal(b as nat);
    let dc = decimal(c as nat);
    lemma_decimal_digits(a as nat);
    lemma_decimal_digits(b as nat);
    lemma_decimal_digits(c as nat);
    let s = da + "."@ + db + "."@ + dc;
    let r1 = db + "."@ + dc;
    assert(s =~= da + seq!['.'] + r1);
    assert forall|j: int| 0 <= j < da.len() implies s[j] != '.' by {
        assert(s[j] == da[j]);
        assert(is_digit_at(da, j));
    }
    lemma_split_char_at(s, '.', da.len() as int);
    assert(s.take(da.len() as int) =~= da);
    assert(s.skip(da.len() as int + 1) =~= r1);
    assert forall|j: int| 0 <= j < db.len() implies r1[j] != '.' by {
        assert(r1[j] == db[j]);
        assert(is_digit_at(db, j));
    }
    assert(r1[db.len() as int] == '.');
    lemma_split_char_at(r1, '.', db.len() as int);
    assert(r1.take(db.len() as int) =~= db);
    assert(r1.skip(db.len() as int + 1) =~= dc);
    assert forall|j: int| 0 <= j < dc.len() implies dc[j] != '.' by {
        assert(is_digit_at(dc, j));
    }
    lemma_split_char_none(dc, '.');
    let parts = split_char(s, '.');
    assert(parts =~= seq![da, db, dc]);
    assert(is_digit_at(da, 0) && is_digit_at(db, 0) && is_digit_at(dc, 0));
    assert(crate::text::unsigned_digits(da) == da);
    assert(crate::text::unsigned_digits(db) == db);
    assert(crate::text::unsigned_digits(dc) == dc);
}

/// The character at `j` of `d` is a decimal digit.
spec fn is_digit_at(d: Seq<char>, j: int) -> bool {
    '0' <= d[j] <= '9'
}

/// The version an installer file name announces: the name must begin with
/// `firaw ssh_`, and the version is the text from there up to the next `_`
/// (or the end).
pub open spec fn installer_version(name: Seq<char>) -> Option<(u64, u64, u64)> {
    if has_prefix(name, "firaw ssh_"@) {
        release_version(first_piece(name.skip(10), '_'))
    } else {
        None
    }
}

/// Reads the version from an installer's (lower-case) file name.
pub fn installer_release_version(name: &str) -> (r: Option<(u64, u64, u64)>)
    ensures
        r == installer_version(name@),
{
    let n = chars_of(name);
    let prefix = chars_of("firaw ssh_");
    proof {
        reveal_strlit("firaw ssh_");
    }
    if !starts_with_chars(&n, &prefix) {
        return None;
    }
    let rest = chars_range(&n, 10, n.len());
    assert(rest@ =~= n@.skip(10));
    proof {
        lemma_find_char_bound(rest@, '_');
    }
    let version = match find_char_exec(&rest, '_') {
        Some(i) => chars_range(&rest, 0, i),
        None => chars_range(&rest, 0, rest.len()),
    };
    assert(version@ =~= first_piece(rest@, '_'));
    let text = crate::text::string_of(&version);
    parse_release_version(text.as_str())
}

/// `a` is not a newer version than `b` (versions compare by major, then minor,
/// then patch).
pub open spec fn version_le(a: (u64, u64, u64), b: (u64, u64, u64)) -> bool {
    a.0 < b.0 || (a.0 == b.0 && (a.1 < b.1 || (a.1 == b.1 && a.2 <= b.2)))
}

/// Versions compare as `(major, minor, patch)` in that order: the first
/// component that differs decides, and equal versions are not newer than
/// each other.
pub proof fn law_versions_compare_component_by_component(a: (u64, u64, u64), b: (u64, u64, u64))
    ensures
        a.0 != b.0 ==> (version_le(a, b) <==> a.0 < b.0),
        a.0 == b.0 && a.1 != b.1 ==> (version_le(a, b) <==> a.1 < b.1),
        a.0 == b.0 && a.1 == b.1 ==> (version_le(a, b) <==> a.2 <= b.2),
        version_le(a, a),
        version_le(a, b) || version_le(b, a),
        version_le(a, b) && version_le(b, a) ==> a == b,
{
}

/// Not being newer is transitive.
pub proof fn law_version_order_transitive(
    a: (u64, u64, u64),
    b: (u64, u64, u64),
    c: (u64, u64, u64),
)
    ensures
        version_le(a, b) && version_le(b, c) ==> version_le(a, c),
{
}

/// See [`version_le`].
pub fn version_not_newer(a: (u64, u64, u64), b: (u64, u64, u64)) -> (r: bool)
    ensures
        r == version_le(a, b),
{
    a.0 < b.0 || (a.0 == b.0 && (a.1 < b.1 || (a.1 == b.1 && a.2 <= b.2)))
}

/// Checks a local update installer before it is started: it must be an
/// existing file (`is_file`) with the `exe` extension whose file name
/// `name`, in lower case, announces a version, and that version must be
/// newer than the running `current` version. The accepted version is
/// returned.
pub fn check_update_installer(name: &str, is_file: bool, current: &str) -> (r: Result<
    (u64, u64, u64),
    AppError,
>)
    ensures
        !is_file || !name_has_extension(name@, "exe"@) || installer_version(unicode_lowercase(name@))
            is None ==> fails_with(r, "update"@, "Escolha um instalador válido do Firaw SSH."@),
        is_file && name_has_extension(name@, "exe"@) && installer_version(unicode_lowercase(name@))
            is Some ==> match release_version(current@) {
            None => fails_with(r, "update"@, "A versão atual é inválida."@),
            Some(cur) => if version_le(installer_version(unicode_lowercase(name@))->0, cur) {
                fails_with(
                    r,
                    "update"@,
                    "Escolha uma versão mais nova que "@ + current@ + "."@,
                )
            } else {
                r == Ok::<(u64, u64, u64), AppError>(
                    installer_version(unicode_lowercase(name@))->0,
                )
            },
        },
{
    let lower = lowercase_text(name);
    let selected = installer_release_version(lower.as_str());
    let n = chars_of(name);
    let exe = chars_of("exe");
    if !is_file || !name_has_extension_exec(n.as_slice(), exe.as_slice()) || selected.is_none() {
        return Err(AppError::new("update", "Escolha um instalador válido do Firaw SSH."));
    }
    let cur = match parse_release_version(current) {
        Some(v) => v,
        None => {
            return Err(AppError::new("update", "A versão atual é inválida."));
        },
    };
    let chosen = match selected {
        Some(v) => v,
        None => {
            return Err(AppError::new("update", "Escolha um instalador válido do Firaw SSH."));
        },
    };
    if version_not_newer(chosen, cur) {
        let message = join3("Escolha uma versão mais nova que ", current, ".");
        return Err(AppError::new("update", message.as_str()));
    }
    Ok(chosen)
}

} // verus!
