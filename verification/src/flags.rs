//! Override application and directive generation.
//!
//! After probing, each library's path and name lists can be replaced -- never
//! merged -- from the per-dependency override variables.  The surviving
//! libraries are then flattened into an ordered list of build directives,
//! with all include paths aggregated into one directive at the end.

use vstd::prelude::*;

use crate::env::{spec_env_get, EnvVariables};
use crate::error::{Error, ErrorView};
use crate::library::{libs_view, Library, LibraryView, Source};
use crate::strutil::{
    flag_override_var, join_paths, spec_join_paths, spec_override_var, spec_split_list,
    split_paths, split_string, str_views,
};

verus! {

use vstd::string::StringExecFns;

/// One build directive.
#[derive(Debug, PartialEq)]
pub enum BuildFlag {
    /// The aggregated include-path directive.
    Include(String),
    /// A native library search path.
    SearchNative(String),
    /// A framework search path.
    SearchFramework(String),
    /// A library to link.
    Lib(String),
    /// A framework to link.
    LibFramework(String),
}

/// The mathematical value of a `BuildFlag`.
pub ghost enum FlagView {
    Include(Seq<char>),
    SearchNative(Seq<char>),
    SearchFramework(Seq<char>),
    Lib(Seq<char>),
    LibFramework(Seq<char>),
}

impl View for BuildFlag {
    type V = FlagView;

    open spec fn view(&self) -> FlagView {
        match self {
            BuildFlag::Include(s) => FlagView::Include(s@),
            BuildFlag::SearchNative(s) => FlagView::SearchNative(s@),
            BuildFlag::SearchFramework(s) => FlagView::SearchFramework(s@),
            BuildFlag::Lib(s) => FlagView::Lib(s@),
            BuildFlag::LibFramework(s) => FlagView::LibFramework(s@),
        }
    }
}

/// The text line a directive prints as.
pub open spec fn spec_flag_line(f: FlagView) -> Seq<char> {
    match f {
        FlagView::Include(p) => "cargo:include="@ + p + "\n"@,
        FlagView::SearchNative(p) => "cargo:rustc-link-search=native="@ + p + "\n"@,
        FlagView::SearchFramework(p) => "cargo:rustc-link-search=framework="@ + p + "\n"@,
        FlagView::Lib(l) => "cargo:rustc-link-lib="@ + l + "\n"@,
        FlagView::LibFramework(l) => "cargo:rustc-link-lib=framework="@ + l + "\n"@,
    }
}

/// The text of a whole directive list, one line per directive.
pub open spec fn spec_flags_text(s: Seq<FlagView>) -> Seq<char>
    decreases s.len(),
{
    if s.len() == 0 {
        Seq::<char>::empty()
    } else {
        spec_flags_text(s.drop_last()) + spec_flag_line(s.last())
    }
}

/// The ordered directives of one resolution pass.
#[derive(Debug, PartialEq)]
pub struct BuildFlags {
    flags: Vec<BuildFlag>,
}

impl View for BuildFlags {
    type V = Seq<FlagView>;

    closed spec fn view(&self) -> Seq<FlagView> {
        self.flags@.map_values(|f: BuildFlag| f@)
    }
}

fn flag_line(f: &BuildFlag) -> (r: String)
    ensures
        r@ == spec_flag_line(f@),
{
    match f {
        BuildFlag::Include(p) => String::from_str("cargo:include=").concat(p.as_str()).concat(
            "\n",
        ),
        BuildFlag::SearchNative(p) => String::from_str("cargo:rustc-link-search=native=").concat(
            p.as_str(),
        ).concat("\n"),
        BuildFlag::SearchFramework(p) => String::from_str(
            "cargo:rustc-link-search=framework=",
        ).concat(p.as_str()).concat("\n"),
        BuildFlag::Lib(l) => String::from_str("cargo:rustc-link-lib=").concat(l.as_str()).concat(
            "\n",
        ),
        BuildFlag::LibFramework(l) => String::from_str("cargo:rustc-link-lib=framework=").concat(
            l.as_str(),
        ).concat("\n"),
    }
}

impl BuildFlags {
    /// No directives yet.
    pub fn new() -> (r: BuildFlags)
        ensures
            r@ == Seq::<FlagView>::empty(),
    {
        let r = BuildFlags { flags: Vec::new() };
        proof {
            assert(r@ =~= Seq::<FlagView>::empty());
        }
        r
    }

    /// Append one directive.
    pub fn add(&mut self, flag: BuildFlag)
        ensures
            final(self)@ == old(self)@.push(flag@),
    {
        let ghost fv = flag@;
        self.flags.push(flag);
        proof {
            assert(self@ =~= old(self)@.push(fv));
        }
    }

    /// The directives as the build tool reads them, one `cargo:` line each.
    #[verifier::loop_isolation(false)]
    pub fn render(&self) -> (r: String)
        ensures
            r@ == spec_flags_text(self@),
    {
        let mut out = String::new();
        let mut i: usize = 0;
        while i < self.flags.len()
            invariant
                i <= self.flags.len(),
                out@ == spec_flags_text(self@.take(i as int)),
            decreases self.flags.len() - i,
        {
            proof {
                assert(self@.take(i as int + 1).drop_last() =~= self@.take(i as int));
                assert(self@.take(i as int + 1).last() == self@[i as int]);
            }
            let line = flag_line(&self.flags[i]);
            out.append(line.as_str());
            i += 1;
        }
        proof {
            assert(self@.take(self.flags@.len() as int) =~= self@);
        }
        out
    }
}

/// A library after its override variables: each present override replaces
/// the corresponding list outright, the empty string meaning the empty list.
pub open spec fn spec_override_lib(
    l: LibraryView,
    env: Seq<(Seq<char>, Seq<char>)>,
    key: Seq<char>,
) -> LibraryView {
    LibraryView {
        link_paths: match spec_env_get(env, spec_override_var(key, "SEARCH_NATIVE"@)) {
            Some(v) => spec_split_list(v, ':'),
            None => l.link_paths,
        },
        framework_paths: match spec_env_get(env, spec_override_var(key, "SEARCH_FRAMEWORK"@)) {
            Some(v) => spec_split_list(v, ':'),
            None => l.framework_paths,
        },
        libs: match spec_env_get(env, spec_override_var(key, "LIB"@)) {
            Some(v) => spec_split_list(v, ' '),
            None => l.libs,
        },
        frameworks: match spec_env_get(env, spec_override_var(key, "LIB_FRAMEWORK"@)) {
            Some(v) => spec_split_list(v, ' '),
            None => l.frameworks,
        },
        include_paths: match spec_env_get(env, spec_override_var(key, "INCLUDE"@)) {
            Some(v) => spec_split_list(v, ':'),
            None => l.include_paths,
        },
        ..l
    }
}

fn clone_strings(v: &Vec<String>) -> (r: Vec<String>)
    ensures
        r@ == v@,
{
    let mut out: Vec<String> = Vec::new();
    let mut i: usize = 0;
    while i < v.len()
        invariant
            i <= v.len(),
            out@ == v@.take(i as int),
        decreases v.len() - i,
    {
        out.push(v[i].clone());
        proof {
            assert(v@.take(i as int + 1) =~= v@.take(i as int).push(v@[i as int]));
        }
        i += 1;
    }
    proof {
        assert(v@.take(v@.len() as int) =~= v@);
    }
    out
}

/// One library with its override variables applied.
fn apply_overrides_one(key: &str, lib: &Library, env: &EnvVariables) -> (r: Library)
    ensures
        r@ == spec_override_lib(lib@, env@, key@),
{
    let link_paths = match env.get(flag_override_var(key, "SEARCH_NATIVE").as_str()) {
        Some(v) => split_paths(v.as_str()),
        None => clone_strings(&lib.link_paths),
    };
    let framework_paths = match env.get(flag_override_var(key, "SEARCH_FRAMEWORK").as_str()) {
        Some(v) => split_paths(v.as_str()),
        None => clone_strings(&lib.framework_paths),
    };
    let libs = match env.get(flag_override_var(key, "LIB").as_str()) {
        Some(v) => split_string(v.as_str()),
        None => clone_strings(&lib.libs),
    };
    let frameworks = match env.get(flag_override_var(key, "LIB_FRAMEWORK").as_str()) {
        Some(v) => split_string(v.as_str()),
        None => clone_strings(&lib.frameworks),
    };
    let include_paths = match env.get(flag_override_var(key, "INCLUDE").as_str()) {
        Some(v) => split_paths(v.as_str()),
        None => clone_strings(&lib.include_paths),
    };
    let mut defines: Vec<(String, Option<String>)> = Vec::new();
    let mut i: usize = 0;
    while i < lib.defines.len()
        invariant
            i <= lib.defines.len(),
            defines@ == lib.defines@.take(i as int),
        decreases lib.defines.len() - i,
    {
        let name = lib.defines[i].0.clone();
        let value = match &lib.defines[i].1 {
            Some(v) => Some(v.clone()),
            None => None,
        };
        defines.push((name, value));
        proof {
            assert(lib.defines@.take(i as int + 1) =~= lib.defines@.take(i as int).push(
                lib.defines@[i as int],
            ));
        }
        i += 1;
    }
    proof {
        assert(lib.defines@.take(lib.defines@.len() as int) =~= lib.defines@);
    }
    let r = Library {
        source: lib.source,
        libs,
        link_paths,
        frameworks,
        framework_paths,
        include_paths,
        defines,
        version: lib.version.clone(),
    };
    proof {
        assert(str_views(r.libs@) =~= r@.libs);
        assert(r@ =~= spec_override_lib(lib@, env@, key@));
    }
    r
}

/// Every library of a keyed list after its override variables.
pub open spec fn spec_apply_overrides(
    libs: Seq<(Seq<char>, LibraryView)>,
    env: Seq<(Seq<char>, Seq<char>)>,
) -> Seq<(Seq<char>, LibraryView)> {
    libs.map_values(|p: (Seq<char>, LibraryView)| (p.0, spec_override_lib(p.1, env, p.0)))
}

/// Rewrite every resolved library from its override variables.
#[verifier::loop_isolation(false)]
pub fn override_from_flags(libraries: &mut Vec<(String, Library)>, env: &EnvVariables)
    ensures
        libs_view(final(libraries)@) == spec_apply_overrides(libs_view(old(libraries)@), env@),
{
    let mut out: Vec<(String, Library)> = Vec::new();
    let ghost target = spec_apply_overrides(libs_view(old(libraries)@), env@);
    let mut i: usize = 0;
    while i < libraries.len()
        invariant
            i <= libraries.len(),
            out@.len() == i,
            forall|m: int| 0 <= m < i ==> libs_view(out@)[m] == target[m],
        decreases libraries.len() - i,
    {
        let name = libraries[i].0.clone();
        let new_lib = apply_overrides_one(name.as_str(), &libraries[i].1, env);
        out.push((name, new_lib));
        i += 1;
    }
    *libraries = out;
    proof {
        assert(libs_view(libraries@) =~= target);
    }
}

/// The directives one library contributes, in its own field order.
pub open spec fn spec_lib_flags(l: LibraryView) -> Seq<FlagView> {
    l.link_paths.map_values(|p: Seq<char>| FlagView::SearchNative(p))
        + l.framework_paths.map_values(|p: Seq<char>| FlagView::SearchFramework(p))
        + l.libs.map_values(|p: Seq<char>| FlagView::Lib(p))
        + l.frameworks.map_values(|p: Seq<char>| FlagView::LibFramework(p))
}

/// The directives and collected include paths of a list of libraries, in
/// order, the first under-specified manual library failing the whole pass.
pub open spec fn spec_gen_rec(libs: Seq<(Seq<char>, LibraryView)>) -> Result<
    (Seq<FlagView>, Seq<Seq<char>>),
    ErrorView,
>
    decreases libs.len(),
{
    if libs.len() == 0 {
        Ok((Seq::<FlagView>::empty(), Seq::<Seq<char>>::empty()))
    } else {
        let p = libs[0];
        if p.1.source is EnvVariables && p.1.libs.len() == 0 && p.1.frameworks.len() == 0 {
            Err(ErrorView::MissingLib(p.0))
        } else {
            match spec_gen_rec(libs.drop_first()) {
                Err(e) => Err(e),
                Ok(rest) => Ok((spec_lib_flags(p.1) + rest.0, p.1.include_paths + rest.1)),
            }
        }
    }
}

/// The full directive list of a pass: every library's directives in order,
/// then one aggregated include directive if any include path was seen.
pub open spec fn spec_gen_flags(libs: Seq<(Seq<char>, LibraryView)>) -> Result<
    Seq<FlagView>,
    ErrorView,
> {
    match spec_gen_rec(libs) {
        Err(e) => Err(e),
        Ok(r) => Ok(
            if r.1.len() > 0 {
                r.0.push(FlagView::Include(spec_join_paths(r.1)))
            } else {
                r.0
            },
        ),
    }
}

/// Append every directive of one library.
#[verifier::loop_isolation(false)]
fn add_lib_flags(flags: &mut BuildFlags, lib: &Library)
    ensures
        final(flags)@ == old(flags)@ + spec_lib_flags(lib@),
{
    let ghost base = flags@;
    let mut i: usize = 0;
    while i < lib.link_paths.len()
        invariant
            i <= lib.link_paths.len(),
            flags@ == base + str_views(lib.link_paths@).take(i as int).map_values(
                |p: Seq<char>| FlagView::SearchNative(p),
            ),
        decreases lib.link_paths.len() - i,
    {
        let ghost prev = flags@;
        flags.add(BuildFlag::SearchNative(lib.link_paths[i].clone()));
        proof {
            assert(str_views(lib.link_paths@).take(i as int + 1).map_values(
                |p: Seq<char>| FlagView::SearchNative(p),
            ) =~= str_views(lib.link_paths@).take(i as int).map_values(
                |p: Seq<char>| FlagView::SearchNative(p),
            ).push(FlagView::SearchNative(lib.link_paths@[i as int]@)));
            assert(flags@ =~= prev.push(FlagView::SearchNative(lib.link_paths@[i as int]@)));
        }
        i += 1;
    }
    proof {
        assert(str_views(lib.link_paths@).take(lib.link_paths@.len() as int) =~= str_views(
            lib.link_paths@,
        ));
    }
    let ghost base2 = flags@;
    let mut i: usize = 0;
    while i < lib.framework_paths.len()
        invariant
            i <= lib.framework_paths.len(),
            flags@ == base2 + str_views(lib.framework_paths@).take(i as int).map_values(
                |p: Seq<char>| FlagView::SearchFramework(p),
            ),
        decreases lib.framework_paths.len() - i,
    {
        let ghost prev = flags@;
        flags.add(BuildFlag::SearchFramework(lib.framework_paths[i].clone()));
        proof {
            assert(str_views(lib.framework_paths@).take(i as int + 1).map_values(
                |p: Seq<char>| FlagView::SearchFramework(p),
            ) =~= str_views(lib.framework_paths@).take(i as int).map_values(
                |p: Seq<char>| FlagView::SearchFramework(p),
            ).push(FlagView::SearchFramework(lib.framework_paths@[i as int]@)));
            assert(flags@ =~= prev.push(
                FlagView::SearchFramework(lib.framework_paths@[i as int]@),
            ));
        }
        i += 1;
    }
    proof {
        assert(str_views(lib.framework_paths@).take(lib.framework_paths@.len() as int)
            =~= str_views(lib.framework_paths@));
    }
    let ghost base3 = flags@;
    let mut i: usize = 0;
    while i < lib.libs.len()
        invariant
            i <= lib.libs.len(),
            flags@ == base3 + str_views(lib.libs@).take(i as int).map_values(
                |p: Seq<char>| FlagView::Lib(p),
            ),
        decreases lib.libs.len() - i,
    {
        let ghost prev = flags@;
        flags.add(BuildFlag::Lib(lib.libs[i].clone()));
        proof {
            assert(str_views(lib.libs@).take(i as int + 1).map_values(
                |p: Seq<char>| FlagView::Lib(p),
            ) =~= str_views(lib.libs@).take(i as int).map_values(
                |p: Seq<char>| FlagView::Lib(p),
            ).push(FlagView::Lib(lib.libs@[i as int]@)));
            assert(flags@ =~= prev.push(FlagView::Lib(lib.libs@[i as int]@)));
        }
        i += 1;
    }
    proof {
        assert(str_views(lib.libs@).take(lib.libs@.len() as int) =~= str_views(lib.libs@));
    }
    let ghost base4 = flags@;
    let mut i: usize = 0;
    while i < lib.frameworks.len()
        invariant
            i <= lib.frameworks.len(),
            flags@ == base4 + str_views(lib.frameworks@).take(i as int).map_values(
                |p: Seq<char>| FlagView::LibFramework(p),
            ),
        decreases lib.frameworks.len() - i,
    {
        let ghost prev = flags@;
        flags.add(BuildFlag::LibFramework(lib.frameworks[i].clone()));
        proof {
            assert(str_views(lib.frameworks@).take(i as int + 1).map_values(
                |p: Seq<char>| FlagView::LibFramework(p),
            ) =~= str_views(lib.frameworks@).take(i as int).map_values(
                |p: Seq<char>| FlagView::LibFramework(p),
            ).push(FlagView::LibFramework(lib.frameworks@[i as int]@)));
            assert(flags@ =~= prev.push(FlagView::LibFramework(lib.frameworks@[i as int]@)));
        }
        i += 1;
    }
    proof {
        assert(str_views(lib.frameworks@).take(lib.frameworks@.len() as int) =~= str_views(
            lib.frameworks@,
        ));
        assert(flags@ =~= base + spec_lib_flags(lib@));
    }
}

/// Flatten the resolved libraries into the build directives, validating that
/// every manually specified library ends up with something to link.
#[verifier::loop_isolation(false)]
pub fn gen_flags(libraries: &Vec<(String, Library)>) -> (r: Result<BuildFlags, Error>)
    ensures
        match r {
            Ok(f) => spec_gen_flags(libs_view(libraries@)) == Ok::<Seq<FlagView>, ErrorView>(f@),
            Err(e) => spec_gen_flags(libs_view(libraries@)) == Err::<Seq<FlagView>, ErrorView>(e@),
        },
{
    let ghost lv = libs_view(libraries@);
    let mut flags = BuildFlags::new();
    let mut include_paths: Vec<String> = Vec::new();
    let mut i: usize = 0;
    proof {
        assert(lv.skip(0) =~= lv);
    }
    while i < libraries.len()
        invariant
            i <= libraries.len(),
            spec_gen_rec(lv) == (match spec_gen_rec(lv.skip(i as int)) {
                Err(e) => Err::<(Seq<FlagView>, Seq<Seq<char>>), ErrorView>(e),
                Ok(rest) => Ok((flags@ + rest.0, str_views(include_paths@) + rest.1)),
            }),
        decreases libraries.len() - i,
    {
        proof {
            assert(lv.skip(i as int)[0] == lv[i as int]);
            assert(lv.skip(i as int).drop_first() =~= lv.skip(i as int + 1));
        }
        let name = &libraries[i].0;
        let lib = &libraries[i].1;
        let ghost prev_inc = str_views(include_paths@);
        let mut j: usize = 0;
        while j < lib.include_paths.len()
            invariant
                j <= lib.include_paths.len(),
                str_views(include_paths@) == prev_inc + str_views(lib.include_paths@).take(
                    j as int,
                ),
            decreases lib.include_paths.len() - j,
        {
            let ghost before = str_views(include_paths@);
            include_paths.push(lib.include_paths[j].clone());
            proof {
                assert(str_views(include_paths@) =~= before.push(lib.include_paths@[j as int]@));
                assert(prev_inc + str_views(lib.include_paths@).take(j as int + 1) =~= (prev_inc
                    + str_views(lib.include_paths@).take(j as int)).push(
                    lib.include_paths@[j as int]@,
                ));
            }
            j += 1;
        }
        proof {
            assert(str_views(lib.include_paths@).take(lib.include_paths@.len() as int)
                =~= str_views(lib.include_paths@));
            assert(str_views(include_paths@) =~= prev_inc + lib@.include_paths);
        }
        if lib.source == Source::EnvVariables && lib.libs.is_empty() && lib.frameworks.is_empty() {
            return Err(Error::MissingLib(name.clone()));
        }
        let ghost prev_flags = flags@;
        add_lib_flags(&mut flags, lib);
        proof {
            assert forall|rest0: Seq<FlagView>|
                prev_flags + (spec_lib_flags(lv[i as int].1) + rest0) =~= (prev_flags
                    + spec_lib_flags(lv[i as int].1)) + rest0 by {}
            assert forall|rest1: Seq<Seq<char>>|
                prev_inc + (lv[i as int].1.include_paths + rest1) =~= (prev_inc + lv[
                    i as int].1.include_paths) + rest1 by {}
        }
        i += 1;
    }
    proof {
        assert(lv.skip(libraries@.len() as int) =~= Seq::<(Seq<char>, LibraryView)>::empty());
        assert(flags@ + Seq::<FlagView>::empty() =~= flags@);
        assert(str_views(include_paths@) + Seq::<Seq<char>>::empty() =~= str_views(
            include_paths@,
        ));
    }
    if include_paths.len() > 0 {
        let joined = join_paths(&include_paths);
        flags.add(BuildFlag::Include(joined));
    }
    Ok(flags)
}

} // verus!
