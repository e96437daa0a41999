use vstd::prelude::*;
use crate::text::starts_with;

verus! {

/// A path to an asset, read differently on each platform.
#[derive(Clone, Debug)]
pub enum AssetPath {
    /// Relative to the asset root of the platform.
    Relative(String),
    /// An absolute file system path (desktop only).
    Absolute(String),
    /// An asset embedded in the binary, by name.
    Embedded(&'static str),
}

/// Whether a path names an absolute location: it starts with `/`.
pub open spec fn is_absolute(p: Seq<char>) -> bool {
    p.len() > 0 && p[0] == '/'
}

impl AssetPath {
    pub fn relative(path: &str) -> (r: AssetPath)
        ensures
            r matches AssetPath::Relative(p) && p@ == path@,
    {
        AssetPath::Relative(path.to_owned())
    }

    pub fn absolute(path: &str) -> (r: AssetPath)
        ensures
            r matches AssetPath::Absolute(p) && p@ == path@,
    {
        AssetPath::Absolute(path.to_owned())
    }

    pub fn embedded(name: &'static str) -> (r: AssetPath)
        ensures
            r == AssetPath::Embedded(name),
    {
        AssetPath::Embedded(name)
    }

    /// An absolute path for a string starting with `/`, a relative one otherwise.
    pub fn from_path(s: String) -> (r: AssetPath)
        ensures
            r == AssetPath::from_spec_string(s),
    {
        if starts_with(s.as_str(), "/") {
            proof {
                reveal_strlit("/");
                assert(s@.subrange(0, 1)[0] == s@[0]);
            }
            AssetPath::Absolute(s)
        } else {
            proof {
                reveal_strlit("/");
                if s@.len() > 0 && s@[0] == '/' {
                    assert(s@.subrange(0, 1) =~= "/"@);
                }
            }
            AssetPath::Relative(s)
        }
    }

    pub open spec fn from_spec_string(s: String) -> AssetPath {
        if is_absolute(s@) {
            AssetPath::Absolute(s)
        } else {
            AssetPath::Relative(s)
        }
    }
}

impl From<String> for AssetPath {
    fn from(s: String) -> (r: AssetPath)
        ensures
            r == AssetPath::from_spec_string(s),
    {
        AssetPath::from_path(s)
    }
}

impl vstd::std_specs::convert::FromSpecImpl<String> for AssetPath {
    open spec fn obeys_from_spec() -> bool {
        true
    }

    open spec fn from_spec(v: String) -> AssetPath {
        AssetPath::from_spec_string(v)
    }
}

/// `rel` resolved against `base`, as joining paths does: an absolute `rel`
/// replaces the base, an empty base leaves `rel`, and otherwise a `/` separates
/// the two unless `base` ends with one.
pub open spec fn join_path(base: Seq<char>, rel: Seq<char>) -> Seq<char> {
    if is_absolute(rel) || base.len() == 0 {
        rel
    } else if base[base.len() - 1] == '/' {
        base + rel
    } else {
        base + seq!['/'] + rel
    }
}

/// Joins `rel` onto `base` (see `join_path`).
pub fn join(base: &str, rel: &str) -> (r: String)
    ensures
        r@ == join_path(base@, rel@),
{
    let rel_abs = starts_with(rel, "/");
    proof {
        reveal_strlit("/");
        if rel@.len() > 0 && rel@[0] == '/' {
            assert(rel@.subrange(0, 1) =~= "/"@);
        }
        if rel_abs {
            assert(rel@.subrange(0, 1)[0] == rel@[0]);
        }
    }
    let n = base.unicode_len();
    if rel_abs || n == 0 {
        return rel.to_owned();
    }
    let mut out = base.to_owned();
    if base.get_char(n - 1) != '/' {
        out.append("/");
        proof {
            reveal_strlit("/");
        }
    }
    out.append(rel);
    proof {
        assert(out@ =~= join_path(base@, rel@));
    }
    out
}

/// Reads assets from the file system, relative paths from an optional base.
#[derive(Clone, Debug)]
pub struct FilesystemAssetLoader {
    base_path: Option<String>,
}

impl FilesystemAssetLoader {
    pub closed spec fn spec_base(&self) -> Option<Seq<char>> {
        match self.base_path {
            Some(b) => Some(b@),
            None => None,
        }
    }

    /// Relative paths are read from the working directory.
    pub fn new() -> (r: FilesystemAssetLoader)
        ensures
            r.spec_base().is_none(),
    {
        FilesystemAssetLoader { base_path: None }
    }

    /// Relative paths are read from `base`.
    pub fn with_base_path(base: &str) -> (r: FilesystemAssetLoader)
        ensures
            r.spec_base() == Some(base@),
    {
        FilesystemAssetLoader { base_path: Some(base.to_owned()) }
    }

    pub fn set_base_path(&mut self, base: &str)
        ensures
            final(self).spec_base() == Some(base@),
    {
        self.base_path = Some(base.to_owned());
    }

    /// The file a path names: an absolute path as it is, a relative path or an
    /// embedded name joined onto the base when there is one.
    pub fn resolve_path(&self, path: &AssetPath) -> (r: String)
        ensures
            r@ == match path {
                AssetPath::Absolute(a) => a@,
                AssetPath::Relative(p) => match self.spec_base() {
                    Some(b) => join_path(b, p@),
                    None => p@,
                },
                AssetPath::Embedded(p) => match self.spec_base() {
                    Some(b) => join_path(b, p@),
                    None => p@,
                },
            },
    {
        match path {
            AssetPath::Absolute(a) => a.clone(),
            AssetPath::Relative(p) => match &self.base_path {
                Some(b) => join(b.as_str(), p.as_str()),
                None => p.clone(),
            },
            AssetPath::Embedded(p) => match &self.base_path {
                Some(b) => join(b.as_str(), *p),
                None => (*p).to_owned(),
            },
        }
    }

    /// Name of the platform this loader serves.
    pub fn platform_name(&self) -> (r: &'static str)
        ensures
            r@ == "filesystem"@,
    {
        "filesystem"
    }
}

impl Default for FilesystemAssetLoader {
    fn default() -> (r: FilesystemAssetLoader)
        ensures
            r.spec_base().is_none(),
    {
        FilesystemAssetLoader::new()
    }
}

} // verus!
