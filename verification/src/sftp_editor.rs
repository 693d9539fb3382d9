//! Decisions of the built-in SFTP file editor.
use vstd::prelude::*;

use crate::text::{chars_of, find_last, last_occurrence, occurs_at};

verus! {

/// The last `/`-separated part of a remote path.
pub open spec fn path_base_name(path: Seq<char>) -> Seq<char> {
    match last_occurrence(path, seq!['/']) {
        Some(i) => path.skip(i + 1),
        None => path,
    }
}

/// The file name of a remote path: what follows its last `/`, or the whole
/// path when it has none.
pub fn base_name(path: &str) -> (r: &str)
    ensures
        r@ == path_base_name(path@),
{
    let v = chars_of(path);
    let slash = vec!['/'];
    assert(slash@ =~= seq!['/']);
    proof {
        crate::text::lemma_last_before_sound(v@, slash@, v@.len() as int);
    }
    match find_last(&v, &slash) {
        Some(i) => {
            assert(occurs_at(v@, slash@, i as int));
            let end: usize = v.len();
            let start: usize = i + 1;
            path.substring_char(start, end)
        },
        None => path,
    }
}

/// What closing the editor window does.
#[derive(Debug, Clone, Copy, PartialEq, Eq, Structural)]
pub enum CloseDisposition {
    /// Close at once.
    Close,
    /// Ask first: some file has unsaved changes.
    Confirm,
}

/// Closing asks for confirmation exactly when a file has unsaved changes.
pub fn close_disposition(has_dirty_tabs: bool) -> (r: CloseDisposition)
    ensures
        r == if has_dirty_tabs {
            CloseDisposition::Confirm
        } else {
            CloseDisposition::Close
        },
{
    if has_dirty_tabs {
        CloseDisposition::Confirm
    } else {
        CloseDisposition::Close
    }
}


/// Extensions with a syntax grammar, each with the grammar's name.
pub open spec fn language_table() -> Seq<(Seq<char>, Seq<char>)> {
    seq![
        ("sh"@, "bash"@),
        ("bash"@, "bash"@),
        ("zsh"@, "bash"@),
        ("py"@, "python"@),
        ("rs"@, "rust"@),
        ("js"@, "javascript"@),
        ("mjs"@, "javascript"@),
        ("cjs"@, "javascript"@),
        ("ts"@, "typescript"@),
        ("json"@, "json"@),
        ("yml"@, "yaml"@),
        ("yaml"@, "yaml"@),
        ("md"@, "markdown"@),
        ("toml"@, "toml"@),
        ("xml"@, "html"@),
        ("html"@, "html"@),
        ("htm"@, "html"@),
        ("css"@, "css"@),
        ("scss"@, "css"@),
        ("c"@, "c"@),
        ("h"@, "c"@),
        ("cpp"@, "cpp"@),
        ("cc"@, "cpp"@),
        ("cxx"@, "cpp"@),
        ("hpp"@, "cpp"@),
        ("go"@, "go"@),
        ("java"@, "java"@),
        ("conf"@, "ini"@),
        ("cfg"@, "ini"@),
        ("ini"@, "ini"@),
        ("sql"@, "sql"@),
        ("lua"@, "lua"@),
        ("rb"@, "ruby"@),
        ("php"@, "php"@),
        ("kt"@, "kotlin"@),
        ("swift"@, "swift"@),
    ]
}

/// `c` as lower-casing leaves it for a comparison with ASCII text: ASCII
/// capitals become small letters, the Kelvin sign becomes `k` (the only
/// other character that lower-cases into ASCII), anything else stays.
pub open spec fn folded(c: char) -> char {
    if 'A' <= c <= 'Z' {
        crate::tool_panel::ascii_lower_char(c)
    } else if c == '\u{212A}' {
        'k'
    } else {
        c
    }
}

/// Lower-cased, the extension `ext` is the ASCII word `name`.
pub open spec fn extension_is(ext: Seq<char>, name: Seq<char>) -> bool {
    ext.len() == name.len() && forall|i: int| 0 <= i < ext.len() ==> folded(#[trigger] ext[i]) == name[i]
}

/// The grammar for `ext` from position `i` of the table on.
pub open spec fn language_from(ext: Seq<char>, i: int) -> Option<Seq<char>>
    decreases language_table().len() - i,
{
    if i < 0 || i >= language_table().len() {
        None
    } else if extension_is(ext, language_table()[i].0) {
        Some(language_table()[i].1)
    } else {
        language_from(ext, i + 1)
    }
}

/// The part of a path after its last `.`, or the whole path.
pub open spec fn path_extension(path: Seq<char>) -> Seq<char> {
    match last_occurrence(path, seq!['.']) {
        Some(i) => path.skip(i + 1),
        None => path,
    }
}

/// Whether `ext`, lower-cased, is the ASCII word `name`.
fn extension_matches(ext: &Vec<char>, name: &str) -> (r: bool)
    ensures
        r == extension_is(ext@, name@),
{
    let n = chars_of(name);
    if ext.len() != n.len() {
        return false;
    }
    let mut i: usize = 0;
    while i < ext.len()
        invariant
            n@ == name@,
            ext@.len() == n@.len(),
            i <= ext@.len(),
            forall|j: int| 0 <= j < i ==> folded(#[trigger] ext@[j]) == n@[j],
        decreases ext@.len() - i,
    {
        let c = ext[i];
        let f = if 'A' <= c && c <= 'Z' {
            proof {
                reveal_strlit("abcdefghijklmnopqrstuvwxyz");
            }
            "abcdefghijklmnopqrstuvwxyz".get_char(((c as u32) - ('A' as u32)) as usize)
        } else if c == '\u{212A}' {
            'k'
        } else {
            c
        };
        assert(f == folded(c));
        if f != n[i] {
            return false;
        }
        i = i + 1;
    }
    true
}

/// The syntax grammar for a file, by its extension compared without case;
/// `None` for plain text.
pub fn language_for_path(path: &str) -> (r: Option<&'static str>)
    ensures
        match language_from(path_extension(path@), 0) {
            Some(l) => r matches Some(x) && x@ == l,
            None => r is None,
        },
{
    let v = chars_of(path);
    let dot = vec!['.'];
    assert(dot@ =~= seq!['.']);
    proof {
        crate::text::lemma_last_before_sound(v@, dot@, v@.len() as int);
    }
    let ext: Vec<char> = match find_last(&v, &dot) {
        Some(i) => {
            assert(occurs_at(v@, dot@, i as int));
            let end: usize = v.len();
            let start: usize = i + 1;
            let e = chars_of(path.substring_char(start, end));
            e
        },
        None => v,
    };
    let table: Vec<(&'static str, &'static str)> = vec![
        ("sh", "bash"),
        ("bash", "bash"),
        ("zsh", "bash"),
        ("py", "python"),
        ("rs", "rust"),
        ("js", "javascript"),
        ("mjs", "javascript"),
        ("cjs", "javascript"),
        ("ts", "typescript"),
        ("json", "json"),
        ("yml", "yaml"),
        ("yaml", "yaml"),
        ("md", "markdown"),
        ("toml", "toml"),
        ("xml", "html"),
        ("html", "html"),
        ("htm", "html"),
        ("css", "css"),
        ("scss", "css"),
        ("c", "c"),
        ("h", "c"),
        ("cpp", "cpp"),
        ("cc", "cpp"),
        ("cxx", "cpp"),
        ("hpp", "cpp"),
        ("go", "go"),
        ("java", "java"),
        ("conf", "ini"),
        ("cfg", "ini"),
        ("ini", "ini"),
        ("sql", "sql"),
        ("lua", "lua"),
        ("rb", "ruby"),
        ("php", "php"),
        ("kt", "kotlin"),
        ("swift", "swift"),
    ];
    let ghost rows = language_table();
    assert(table@.len() == rows.len());
    assert forall|k: int| 0 <= k < rows.len() implies (#[trigger] table@[k]).0@ == rows[k].0
        && table@[k].1@ == rows[k].1 by {}
    let mut i: usize = 0;
    while i < table.len()
        invariant
            i <= table@.len(),
            rows == language_table(),
            table@.len() == rows.len(),
            forall|k: int|
                0 <= k < rows.len() ==> (#[trigger] table@[k]).0@ == rows[k].0 && table@[k].1@
                    == rows[k].1,
            ext@ == path_extension(path@),
            language_from(path_extension(path@), 0) == language_from(ext@, i as int),
        decreases table@.len() - i,
    {
        let (name, language) = table[i];
        if extension_matches(&ext, name) {
            return Some(language);
        }
        i = i + 1;
    }
    None
}

} // verus!
