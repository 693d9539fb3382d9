//! The environment variables that an application started from the macOS
//! Dock takes over from the user's login shell.
use vstd::prelude::*;
use vstd::utf8::{decode_utf8, valid_utf8};

use crate::text::{starts_with, str_eq};

verus! {

/// The first position at or after `i` where `b` holds the byte `x`.
pub open spec fn first_byte_from(b: Seq<u8>, x: u8, i: int) -> Option<int>
    decreases b.len() - i,
{
    if i < 0 || i >= b.len() {
        None
    } else if b[i] == x {
        Some(i)
    } else {
        first_byte_from(b, x, i + 1)
    }
}

/// A found byte lies at or after where the search began, inside `b`, and
/// no earlier byte from there matches.
pub proof fn lemma_first_byte_from(b: Seq<u8>, x: u8, i: int)
    requires
        0 <= i,
    ensures
        first_byte_from(b, x, i) matches Some(k) ==> i <= k < b.len() && b[k] == x && forall|
            j: int,
        | i <= j < k ==> b[j] != x,
        first_byte_from(b, x, i) is None ==> forall|j: int| i <= j < b.len() ==> b[j] != x,
    decreases b.len() - i,
{
    if i < b.len() && b[i] != x {
        lemma_first_byte_from(b, x, i + 1);
    }
}

/// The variables always taken over, besides those starting with `LC_`.
pub open spec fn imported_names() -> Seq<Seq<char>> {
    seq![
        "PATH"@,
        "MANPATH"@,
        "INFOPATH"@,
        "LANG"@,
        "LC_ALL"@,
        "LC_CTYPE"@,
        "SHELL"@,
        "HOME"@,
        "HOMEBREW_PREFIX"@,
        "HOMEBREW_CELLAR"@,
        "HOMEBREW_REPOSITORY"@,
        "HTTP_PROXY"@,
        "HTTPS_PROXY"@,
        "ALL_PROXY"@,
        "http_proxy"@,
        "https_proxy"@,
        "all_proxy"@,
    ]
}

/// A variable is taken over when it is listed or is a locale category.
pub open spec fn imported_key(key: Seq<char>) -> bool {
    imported_names().contains(key) || starts_with(key, "LC_"@)
}

/// What one `KEY=VALUE` entry contributes: the key and value, split at the
/// first `=`, when both are UTF-8 and the key is taken over.
pub open spec fn entry_import(e: Seq<u8>) -> Option<(Seq<char>, Seq<char>)> {
    match first_byte_from(e, 0x3d, 0) {
        Some(k) => {
            let key = e.take(k);
            let value = e.skip(k + 1);
            if valid_utf8(key) && valid_utf8(value) && imported_key(decode_utf8(key)) {
                Some((decode_utf8(key), decode_utf8(value)))
            } else {
                None
            }
        },
        None => None,
    }
}

/// What the NUL-separated entries of `b` from position `s` on contribute,
/// in order.
pub open spec fn imports_from(b: Seq<u8>, s: int) -> Seq<(Seq<char>, Seq<char>)>
    decreases b.len() - s,
    when 0 <= s <= b.len()
{
    match first_byte_from(b, 0, s) {
        Some(j) => {
            proof {
                lemma_first_byte_from(b, 0, s);
            }
            let rest = imports_from(b, j + 1);
            match entry_import(b.subrange(s, j)) {
                Some(p) => seq![p] + rest,
                None => rest,
            }
        },
        None => match entry_import(b.subrange(s, b.len() as int)) {
            Some(p) => seq![p],
            None => seq![],
        },
    }
}

/// The variables that the output of `env -0` in a login shell hands over,
/// in the order printed.
pub open spec fn launch_imports(output: Seq<u8>) -> Seq<(Seq<char>, Seq<char>)> {
    imports_from(output, 0)
}

/// Pairs of strings by value.
pub open spec fn pair_views(v: Seq<(String, String)>) -> Seq<(Seq<char>, Seq<char>)> {
    v.map_values(|p: (String, String)| (p.0@, p.1@))
}

/// `std::str::from_utf8`: the text that `bytes` encode, when they are valid
/// UTF-8. The contract claims that the call succeeds exactly on valid UTF-8
/// and then decodes it.
#[verifier::external_body]
fn utf8_text(bytes: &[u8]) -> (r: Option<String>)
    ensures
        r is Some <==> valid_utf8(bytes@),
        r matches Some(s) ==> s@ == decode_utf8(bytes@),
{
    match std::str::from_utf8(bytes) {
        Ok(s) => Some(s.to_string()),
        Err(_) => None,
    }
}

/// Whether a variable of this name is taken over.
pub fn is_imported_key(key: &str) -> (r: bool)
    ensures
        r == imported_key(key@),
{
    let names: Vec<&str> = vec![
        "PATH",
        "MANPATH",
        "INFOPATH",
        "LANG",
        "LC_ALL",
        "LC_CTYPE",
        "SHELL",
        "HOME",
        "HOMEBREW_PREFIX",
        "HOMEBREW_CELLAR",
        "HOMEBREW_REPOSITORY",
        "HTTP_PROXY",
        "HTTPS_PROXY",
        "ALL_PROXY",
        "http_proxy",
        "https_proxy",
        "all_proxy",
    ];
    assert(names@.map_values(|s: &str| s@) =~= imported_names());
    let mut listed = false;
    let mut i: usize = 0;
    while i < names.len()
        invariant
            i <= names@.len(),
            names@.map_values(|s: &str| s@) == imported_names(),
            listed == exists|j: int| 0 <= j < i && names@[j]@ == key@,
        decreases names@.len() - i,
    {
        if str_eq(names[i], key) {
            listed = true;
        }
        i = i + 1;
    }
    assert(listed == imported_names().contains(key@)) by {
        if listed {
            let j = choose|j: int| 0 <= j < i && names@[j]@ == key@;
            assert(imported_names()[j] == key@);
        }
        if imported_names().contains(key@) {
            let j = choose|j: int| 0 <= j < imported_names().len() && imported_names()[j] == key@;
            assert(names@[j]@ == key@);
        }
    }
    let n = key.unicode_len();
    let prefix = n >= 3 && key.get_char(0) == 'L' && key.get_char(1) == 'C' && key.get_char(2)
        == '_';
    proof {
        reveal_strlit("LC_");
        assert("LC_"@ =~= seq!['L', 'C', '_']);
        if n >= 3 {
            if prefix {
                assert(key@.subrange(0, 3) =~= "LC_"@);
            } else if key@.subrange(0, 3) == "LC_"@ {
                assert(key@.subrange(0, 3)[0] == 'L');
                assert(key@.subrange(0, 3)[1] == 'C');
                assert(key@.subrange(0, 3)[2] == '_');
            }
        }
    }
    listed || prefix
}

/// What one entry contributes.
fn entry_import_exec(e: &[u8]) -> (r: Option<(String, String)>)
    ensures
        match entry_import(e@) {
            Some(p) => r matches Some(q) && q.0@ == p.0 && q.1@ == p.1,
            None => r is None,
        },
{
    let mut k: usize = 0;
    while k < e.len() && e[k] != 0x3d
        invariant
            k <= e@.len(),
            forall|j: int| 0 <= j < k ==> e@[j] != 0x3d,
        decreases e@.len() - k,
    {
        k = k + 1;
    }
    proof {
        lemma_first_byte_from(e@, 0x3d, 0);
    }
    if k == e.len() {
        return None;
    }
    let key_bytes = &e[0..k];
    let value_bytes = &e[k + 1..e.len()];
    assert(key_bytes@ =~= e@.take(k as int));
    assert(value_bytes@ =~= e@.skip(k + 1));
    let key = match utf8_text(key_bytes) {
        Some(s) => s,
        None => {
            return None;
        },
    };
    let value = match utf8_text(value_bytes) {
        Some(s) => s,
        None => {
            return None;
        },
    };
    if is_imported_key(key.as_str()) {
        Some((key, value))
    } else {
        None
    }
}

/// The variables to take over from the output of `env -0` in the user's
/// login shell: each NUL-separated `KEY=VALUE` entry whose key and value are
/// UTF-8 and whose key is listed or starts with `LC_`, in order.
pub fn sync_macos_launch_environment(output: &[u8]) -> (r: Vec<(String, String)>)
    ensures
        pair_views(r@) == launch_imports(output@),
{
    let mut out: Vec<(String, String)> = Vec::new();
    let mut s: usize = 0;
    let mut done = false;
    while !done
        invariant
            s <= output@.len(),
            done ==> pair_views(out@) == launch_imports(output@),
            !done ==> pair_views(out@) + imports_from(output@, s as int) == launch_imports(
                output@,
            ),
        decreases output@.len() - s, if done {
            0int
        } else {
            1int
        },
    {
        let mut j: usize = s;
        while j < output.len() && output[j] != 0
            invariant
                s <= j <= output@.len(),
                forall|k: int| s <= k < j ==> output@[k] != 0,
            decreases output@.len() - j,
        {
            j = j + 1;
        }
        proof {
            lemma_first_byte_from(output@, 0, s as int);
        }
        let entry = &output[s..j];
        let item = entry_import_exec(entry);
        let ghost before = out@;
        match item {
            Some(p) => {
                out.push(p);
            },
            None => {},
        }
        assert(pair_views(out@) =~= pair_views(before) + match entry_import(output@.subrange(
            s as int,
            j as int,
        )) {
            Some(p) => seq![p],
            None => seq![],
        });
        if j == output.len() {
            assert(imports_from(output@, s as int) == match entry_import(
                output@.subrange(s as int, j as int),
            ) {
                Some(p) => seq![p],
                None => seq![],
            });
            done = true;
        } else {
            assert(imports_from(output@, s as int) =~= match entry_import(
                output@.subrange(s as int, j as int),
            ) {
                Some(p) => seq![p],
                None => seq![],
            } + imports_from(output@, j + 1));
            s = j + 1;
        }
    }
    out
}

/// Every variable taken over is one whose name is listed or starts with
/// `LC_`.
pub proof fn only_listed_variables_are_taken_over(output: Seq<u8>)
    ensures
        forall|i: int|
            0 <= i < launch_imports(output).len() ==> imported_key(
                (#[trigger] launch_imports(output)[i]).0,
            ),
{
    lemma_imports_from_listed(output, 0);
}

/// What the entries from position `s` on contribute has listed names only.
proof fn lemma_imports_from_listed(b: Seq<u8>, s: int)
    requires
        0 <= s <= b.len(),
    ensures
        forall|i: int|
            0 <= i < imports_from(b, s).len() ==> imported_key(
                (#[trigger] imports_from(b, s)[i]).0,
            ),
    decreases b.len() - s,
{
    lemma_first_byte_from(b, 0, s);
    match first_byte_from(b, 0, s) {
        Some(j) => {
            lemma_imports_from_listed(b, j + 1);
            let rest = imports_from(b, j + 1);
            match entry_import(b.subrange(s, j)) {
                Some(p) => {
                    assert forall|i: int| 0 <= i < imports_from(b, s).len() implies imported_key(
                        (#[trigger] imports_from(b, s)[i]).0,
                    ) by {
                        if i > 0 {
                            assert(imports_from(b, s)[i] == rest[i - 1]);
                        }
                    }
                },
                None => {},
            }
        },
        None => {},
    }
}

} // verus!
