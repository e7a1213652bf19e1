//! What a directory holds of the manifest files that providers look for.
//!
//! Reading the file system is left to the caller, which records for each
//! manifest name whether it exists, whether it is a regular file, and what
//! reading it as UTF-8 text gave.

use vstd::prelude::*;

use crate::text::push_char;

verus! {

broadcast use vstd::string::group_string_axioms;

/// The files that some provider looks for.
#[derive(Clone, Copy, Debug, PartialEq, Eq, Structural)]
pub enum Marker {
    YobikoToml,
    CargoToml,
    ComposeYaml,
    ComposeYml,
    DockerComposeYaml,
    DockerComposeYml,
    GoMod,
    PackageJson,
    PnpmLock,
    YarnLock,
    MiseToml,
    PyprojectToml,
    UvLock,
}

/// The file name of a marker.
pub open spec fn marker_file(m: Marker) -> Seq<char> {
    match m {
        Marker::YobikoToml => "yobiko.toml"@,
        Marker::CargoToml => "Cargo.toml"@,
        Marker::ComposeYaml => "compose.yaml"@,
        Marker::ComposeYml => "compose.yml"@,
        Marker::DockerComposeYaml => "docker-compose.yaml"@,
        Marker::DockerComposeYml => "docker-compose.yml"@,
        Marker::GoMod => "go.mod"@,
        Marker::PackageJson => "package.json"@,
        Marker::PnpmLock => "pnpm-lock.yaml"@,
        Marker::YarnLock => "yarn.lock"@,
        Marker::MiseToml => "mise.toml"@,
        Marker::PyprojectToml => "pyproject.toml"@,
        Marker::UvLock => "uv.lock"@,
    }
}

/// Every marker, in declaration order.
pub open spec fn all_markers() -> Seq<Marker> {
    seq![
        Marker::YobikoToml,
        Marker::CargoToml,
        Marker::ComposeYaml,
        Marker::ComposeYml,
        Marker::DockerComposeYaml,
        Marker::DockerComposeYml,
        Marker::GoMod,
        Marker::PackageJson,
        Marker::PnpmLock,
        Marker::YarnLock,
        Marker::MiseToml,
        Marker::PyprojectToml,
        Marker::UvLock,
    ]
}

impl Marker {
    /// The file name this marker stands for.
    pub fn file_name(&self) -> (r: &'static str)
        ensures
            r@ == marker_file(*self),
    {
        match self {
            Marker::YobikoToml => "yobiko.toml",
            Marker::CargoToml => "Cargo.toml",
            Marker::ComposeYaml => "compose.yaml",
            Marker::ComposeYml => "compose.yml",
            Marker::DockerComposeYaml => "docker-compose.yaml",
            Marker::DockerComposeYml => "docker-compose.yml",
            Marker::GoMod => "go.mod",
            Marker::PackageJson => "package.json",
            Marker::PnpmLock => "pnpm-lock.yaml",
            Marker::YarnLock => "yarn.lock",
            Marker::MiseToml => "mise.toml",
            Marker::PyprojectToml => "pyproject.toml",
            Marker::UvLock => "uv.lock",
        }
    }

    /// Every marker, in declaration order.
    pub fn all() -> (r: Vec<Marker>)
        ensures
            r@ == all_markers(),
    {
        let r = vec![
            Marker::YobikoToml,
            Marker::CargoToml,
            Marker::ComposeYaml,
            Marker::ComposeYml,
            Marker::DockerComposeYaml,
            Marker::DockerComposeYml,
            Marker::GoMod,
            Marker::PackageJson,
            Marker::PnpmLock,
            Marker::YarnLock,
            Marker::MiseToml,
            Marker::PyprojectToml,
            Marker::UvLock,
        ];
        assert(r@ =~= all_markers());
        r
    }
}

/// What the file system showed of one path.
#[derive(Debug)]
pub enum FileState {
    /// Nothing is there (reading it fails with "not found").
    Absent,
    /// Something is there; `read` is the text, or the error message, that
    /// reading it as UTF-8 gave.
    Present { is_file: bool, read: Result<String, String> },
}

/// The manifest files found in one directory.
#[derive(Debug)]
pub struct Snapshot {
    pub dir: String,
    pub files: Vec<(Marker, FileState)>,
}

/// The index of the first record for `m`.
pub open spec fn marker_index(files: Seq<(Marker, FileState)>, m: Marker) -> Option<int>
    decreases files.len(),
{
    if files.len() == 0 {
        None
    } else if files[0].0 == m {
        Some(0)
    } else {
        match marker_index(files.drop_first(), m) {
            Some(i) => Some(i + 1),
            None => None,
        }
    }
}

proof fn lemma_marker_index(files: Seq<(Marker, FileState)>, m: Marker)
    ensures
        marker_index(files, m) matches Some(i) ==> 0 <= i < files.len() && files[i].0 == m && forall|
            j: int,
        | 0 <= j < i ==> #[trigger] files[j].0 != m,
        marker_index(files, m) is None ==> forall|j: int|
            0 <= j < files.len() ==> #[trigger] files[j].0 != m,
    decreases files.len(),
{
    if files.len() > 0 {
        lemma_marker_index(files.drop_first(), m);
        if files[0].0 != m {
            assert forall|j: int| 1 <= j < files.len() implies #[trigger] files[j].0
                == files.drop_first()[j - 1].0 by {}
        }
    }
}

/// What the snapshot records of `m`; absent where it records nothing.
pub open spec fn probe(s: Snapshot, m: Marker) -> FileState {
    match marker_index(s.files@, m) {
        Some(i) => s.files@[i].1,
        None => FileState::Absent,
    }
}

/// `path.join(name).exists()`.
pub open spec fn exists_at(s: Snapshot, m: Marker) -> bool {
    probe(s, m) is Present
}

/// `path.join(name).is_file()`.
pub open spec fn is_file_at(s: Snapshot, m: Marker) -> bool {
    match probe(s, m) {
        FileState::Present { is_file, .. } => is_file,
        FileState::Absent => false,
    }
}

/// `fs::read_to_string(path.join(name)).ok()`.
pub open spec fn text_at(s: Snapshot, m: Marker) -> Option<Seq<char>> {
    match probe(s, m) {
        FileState::Present { read: Ok(t), .. } => Some(t@),
        _ => None,
    }
}

/// `Path::join` of a directory and a plain file name.
pub open spec fn joined_path(dir: Seq<char>, name: Seq<char>) -> Seq<char> {
    if dir.len() == 0 {
        name
    } else if dir.last() == '/' {
        dir + name
    } else {
        dir + seq!['/'] + name
    }
}

/// `Path::join` of a directory and a plain file name.
pub fn join_path(dir: &str, name: &str) -> (r: String)
    ensures
        r@ == joined_path(dir@, name@),
{
    let n = dir.unicode_len();
    if n == 0 {
        return String::from_str(name);
    }
    let mut r = String::from_str(dir);
    if dir.get_char(n - 1) != '/' {
        push_char(&mut r, '/');
    }
    r.append(name);
    r
}

impl Snapshot {
    /// The record of `m`, where there is one.
    pub fn state(&self, m: Marker) -> (r: Option<&FileState>)
        ensures
            r matches Some(f) ==> probe(*self, m) == *f,
            r is None ==> probe(*self, m) is Absent,
    {
        let mut i: usize = 0;
        while i < self.files.len()
            invariant
                i <= self.files@.len(),
                forall|j: int| 0 <= j < i ==> #[trigger] self.files@[j].0 != m,
            decreases self.files@.len() - i,
        {
            if self.files[i].0 == m {
                proof {
                    lemma_marker_index(self.files@, m);
                    match marker_index(self.files@, m) {
                        Some(k) => {
                            if k < i {
                                assert(self.files@[k].0 != m);
                            }
                            if k > i {
                                assert(self.files@[i as int].0 != m);
                            }
                        },
                        None => {
                            assert(self.files@[i as int].0 != m);
                        },
                    }
                }
                return Some(&self.files[i].1);
            }
            i = i + 1;
        }
        proof {
            lemma_marker_index(self.files@, m);
            if let Some(k) = marker_index(self.files@, m) {
                assert(self.files@[k].0 != m);
            }
        }
        None
    }

    /// Whether something is at `m`'s path.
    pub fn has_entry(&self, m: Marker) -> (r: bool)
        ensures
            r == exists_at(*self, m),
    {
        match self.state(m) {
            Some(FileState::Present { .. }) => true,
            _ => false,
        }
    }

    /// Whether a regular file is at `m`'s path.
    pub fn is_file(&self, m: Marker) -> (r: bool)
        ensures
            r == is_file_at(*self, m),
    {
        match self.state(m) {
            Some(FileState::Present { is_file, .. }) => *is_file,
            _ => false,
        }
    }

    /// The text of the file at `m`'s path, where reading it succeeded.
    pub fn text(&self, m: Marker) -> (r: Option<&String>)
        ensures
            r matches Some(t) ==> text_at(*self, m) == Some(t@),
            r is None ==> text_at(*self, m) is None,
    {
        match self.state(m) {
            Some(FileState::Present { read: Ok(t), .. }) => Some(t),
            _ => None,
        }
    }
}

} // verus!
