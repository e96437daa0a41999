use vstd::prelude::*;
use crate::text::{contains, occurs_in, str_eq};

verus! {

/// Position of the last `c` in `s`, or -1.
pub open spec fn last_index_of(s: Seq<char>, c: char) -> int
    decreases s.len(),
{
    if s.len() == 0 {
        -1
    } else if s.last() == c {
        s.len() - 1
    } else {
        last_index_of(s.drop_last(), c)
    }
}

proof fn lemma_last_index_bounds(s: Seq<char>, c: char)
    ensures
        -1 <= last_index_of(s, c) < s.len(),
        last_index_of(s, c) >= 0 ==> s[last_index_of(s, c)] == c,
    decreases s.len(),
{
    if s.len() > 0 && s.last() != c {
        lemma_last_index_bounds(s.drop_last(), c);
    }
}

/// The last segment of a `/`-separated path.
pub open spec fn file_name(path: Seq<char>) -> Seq<char> {
    path.subrange(last_index_of(path, '/') + 1, path.len() as int)
}

/// Extension of a path: what follows the last dot of its last segment, when
/// that dot is not the segment's first character.
pub open spec fn extension(path: Seq<char>) -> Option<Seq<char>> {
    let name = file_name(path);
    let d = last_index_of(name, '.');
    if d > 0 {
        Some(name.subrange(d + 1, name.len() as int))
    } else {
        None
    }
}

/// Whether a change to `path` should trigger a rebuild: its extension is one of
/// `extensions`, and it contains none of `ignored`.
pub open spec fn watched(path: Seq<char>, extensions: Seq<Seq<char>>, ignored: Seq<Seq<char>>) -> bool {
    match extension(path) {
        Some(e) => extensions.contains(e) && forall|i: int| 0 <= i < ignored.len() ==> !occurs_in(path, #[trigger] ignored[i]),
        None => false,
    }
}

/// Settings of the development server's file watcher.
#[derive(Clone, Debug)]
pub struct HotReloadConfig {
    /// Directory to watch.
    pub watch_dir: String,
    /// Quiet time before a batch of changes is acted on, in milliseconds.
    pub debounce_ms: u64,
    /// Extensions of the files that count.
    pub watch_extensions: Vec<String>,
    /// Paths containing one of these are ignored.
    pub ignore_patterns: Vec<String>,
}

/// The views of a list of strings.
pub open spec fn views(v: Seq<String>) -> Seq<Seq<char>> {
    v.map_values(|s: String| s@)
}

impl HotReloadConfig {
    /// Watches `.`, waits 300 ms, and follows `.junita`, `.rs`, `.toml` and
    /// `.json` files outside `target`, `.git`, `node_modules` and `.vscode`.
    pub fn new() -> (r: HotReloadConfig)
        ensures
            r.watch_dir@ == "."@,
            r.debounce_ms == 300,
            views(r.watch_extensions@) == seq!["junita"@, "rs"@, "toml"@, "json"@],
            views(r.ignore_patterns@) == seq!["target"@, ".git"@, "node_modules"@, ".vscode"@],
    {
        let r = HotReloadConfig {
            watch_dir: ".".to_owned(),
            debounce_ms: 300,
            watch_extensions: vec!["junita".to_owned(), "rs".to_owned(), "toml".to_owned(), "json".to_owned()],
            ignore_patterns: vec!["target".to_owned(), ".git".to_owned(), "node_modules".to_owned(), ".vscode".to_owned()],
        };
        proof {
            assert(views(r.watch_extensions@) =~= seq!["junita"@, "rs"@, "toml"@, "json"@]);
            assert(views(r.ignore_patterns@) =~= seq!["target"@, ".git"@, "node_modules"@, ".vscode"@]);
        }
        r
    }
}

impl Default for HotReloadConfig {
    fn default() -> (r: HotReloadConfig)
        ensures
            r.debounce_ms == 300,
            views(r.watch_extensions@) == seq!["junita"@, "rs"@, "toml"@, "json"@],
            views(r.ignore_patterns@) == seq!["target"@, ".git"@, "node_modules"@, ".vscode"@],
    {
        HotReloadConfig::new()
    }
}

fn last_index(s: &str, c: char) -> (r: i64)
    requires
        s@.len() < i64::MAX,
    ensures
        r == last_index_of(s@, c),
{
    let n = s.unicode_len();
    let mut last: i64 = -1;
    let mut i: usize = 0;
    while i < n
        invariant
            n == s@.len(),
            n < i64::MAX,
            i <= n,
            last == last_index_of(s@.subrange(0, i as int), c),
        decreases n - i,
    {
        proof {
            assert(s@.subrange(0, i + 1).drop_last() =~= s@.subrange(0, i as int));
        }
        if s.get_char(i) == c {
            last = i as i64;
        }
        i = i + 1;
    }
    proof {
        assert(s@.subrange(0, n as int) =~= s@);
    }
    last
}

/// The extension of `path` (see `extension`).
pub fn path_extension(path: &str) -> (r: Option<&str>)
    requires
        path@.len() < i64::MAX,
    ensures
        r matches Some(e) ==> extension(path@) == Some(e@),
        r.is_none() ==> extension(path@).is_none(),
{
    let n = path.unicode_len();
    let slash = last_index(path, '/');
    proof {
        lemma_last_index_bounds(path@, '/');
    }
    let name = path.substring_char((slash + 1) as usize, n);
    let dot = last_index(name, '.');
    proof {
        lemma_last_index_bounds(name@, '.');
    }
    if dot > 0 {
        Some(name.substring_char((dot + 1) as usize, name.unicode_len()))
    } else {
        None
    }
}

/// Whether a change to `path` should trigger a rebuild under `config`.
pub fn should_watch(path: &str, config: &HotReloadConfig) -> (r: bool)
    requires
        path@.len() < i64::MAX,
    ensures
        r == watched(path@, views(config.watch_extensions@), views(config.ignore_patterns@)),
{
    let ext = match path_extension(path) {
        Some(e) => e,
        None => return false,
    };
    let exts = &config.watch_extensions;
    let mut known = false;
    let mut i: usize = 0;
    while i < exts.len()
        invariant
            i <= exts@.len(),
            extension(path@) == Some(ext@),
            known == exists|k: int| 0 <= k < i && exts@[k]@ == ext@,
        decreases exts@.len() - i,
    {
        if str_eq(exts[i].as_str(), ext) {
            known = true;
        }
        i = i + 1;
    }
    proof {
        let vs = views(exts@);
        if known {
            let k = choose|k: int| 0 <= k < exts@.len() && exts@[k]@ == ext@;
            assert(vs[k] == ext@);
        } else {
            if vs.contains(ext@) {
                let k = choose|k: int| 0 <= k < vs.len() && vs[k] == ext@;
                assert(exts@[k]@ == ext@);
            }
        }
    }
    if !known {
        return false;
    }
    let pats = &config.ignore_patterns;
    let mut j: usize = 0;
    while j < pats.len()
        invariant
            j <= pats@.len(),
            *pats == config.ignore_patterns,
            extension(path@) == Some(ext@),
            views(config.watch_extensions@).contains(ext@),
            forall|k: int| 0 <= k < j ==> !occurs_in(path@, #[trigger] views(pats@)[k]),
        decreases pats@.len() - j,
    {
        if contains(path, pats[j].as_str()) {
            proof {
                assert(views(pats@)[j as int] == pats@[j as int]@);
                assert(occurs_in(path@, views(pats@)[j as int]));
                assert(extension(path@) == Some(ext@));
            }
            return false;
        }
        j = j + 1;
    }
    true
}

} // verus!
