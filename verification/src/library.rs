//! The resolved outcome of probing one dependency.

use vstd::prelude::*;

use crate::strutil::str_views;

verus! {

/// From where the library settings have been retrieved.
#[derive(Debug, Clone, Copy, PartialEq, Eq, Structural)]
pub enum Source {
    /// Settings have been retrieved from the discovery collaborator.
    PkgConfig,
    /// Settings have been defined using user defined environment variables.
    EnvVariables,
}

/// A system dependency, as resolved for the build.
#[derive(Debug)]
pub struct Library {
    /// From where the library settings have been retrieved.
    pub source: Source,
    /// Libraries the linker should link on.
    pub libs: Vec<String>,
    /// Directories where the linker should look for libraries.
    pub link_paths: Vec<String>,
    /// Frameworks the linker should link on.
    pub frameworks: Vec<String>,
    /// Directories where the linker should look for frameworks.
    pub framework_paths: Vec<String>,
    /// Directories where the compiler should look for header files.
    pub include_paths: Vec<String>,
    /// Macros that should be defined by the compiler.
    pub defines: Vec<(String, Option<String>)>,
    /// Library version.
    pub version: String,
}

/// The mathematical value of a `Library`.
#[verifier::ext_equal]
pub ghost struct LibraryView {
    pub source: Source,
    pub libs: Seq<Seq<char>>,
    pub link_paths: Seq<Seq<char>>,
    pub frameworks: Seq<Seq<char>>,
    pub framework_paths: Seq<Seq<char>>,
    pub include_paths: Seq<Seq<char>>,
    pub defines: Seq<(Seq<char>, Option<Seq<char>>)>,
    pub version: Seq<char>,
}

impl View for Library {
    type V = LibraryView;

    open spec fn view(&self) -> LibraryView {
        LibraryView {
            source: self.source,
            libs: str_views(self.libs@),
            link_paths: str_views(self.link_paths@),
            frameworks: str_views(self.frameworks@),
            framework_paths: str_views(self.framework_paths@),
            include_paths: str_views(self.include_paths@),
            defines: self.defines@.map_values(
                |p: (String, Option<String>)|
                    (
                        p.0@,
                        match p.1 {
                            Some(v) => Some(v@),
                            None => None,
                        },
                    ),
            ),
            version: self.version@,
        }
    }
}

/// The manually specified library every field of which is still to be filled
/// in from the override variables: empty lists and an empty version.
pub open spec fn spec_manual_library() -> LibraryView {
    LibraryView {
        source: Source::EnvVariables,
        libs: Seq::<Seq<char>>::empty(),
        link_paths: Seq::<Seq<char>>::empty(),
        frameworks: Seq::<Seq<char>>::empty(),
        framework_paths: Seq::<Seq<char>>::empty(),
        include_paths: Seq::<Seq<char>>::empty(),
        defines: Seq::<(Seq<char>, Option<Seq<char>>)>::empty(),
        version: Seq::<char>::empty(),
    }
}

/// The views of a list of keyed libraries.
pub open spec fn libs_view(s: Seq<(String, Library)>) -> Seq<(Seq<char>, LibraryView)> {
    s.map_values(|p: (String, Library)| (p.0@, p.1@))
}

impl Library {
    /// The starting point for a dependency whose discovery is skipped: every
    /// field is empty, waiting for the override variables.
    pub fn from_env_variables() -> (r: Library)
        ensures
            r@ == spec_manual_library(),
    {
        let r = Library {
            source: Source::EnvVariables,
            libs: Vec::new(),
            link_paths: Vec::new(),
            frameworks: Vec::new(),
            framework_paths: Vec::new(),
            include_paths: Vec::new(),
            defines: Vec::new(),
            version: String::new(),
        };
        proof {
            assert(r@.libs =~= spec_manual_library().libs);
            assert(r@.link_paths =~= spec_manual_library().link_paths);
            assert(r@.frameworks =~= spec_manual_library().frameworks);
            assert(r@.framework_paths =~= spec_manual_library().framework_paths);
            assert(r@.include_paths =~= spec_manual_library().include_paths);
            assert(r@.defines =~= spec_manual_library().defines);
            assert(r@ =~= spec_manual_library());
        }
        r
    }
}

} // verus!
