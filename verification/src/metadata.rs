//! The dependency table of the manifest, parsed into a typed model.
//!
//! The table lives under `package.metadata.pkg-config`.  Each entry is either
//! a bare minimum-version string or a table with the keys `version`, `name`,
//! `feature` and `optional`, plus any number of version-override sub-tables
//! whose key starts with `v`.  Anything else is refused with a message naming
//! the offending path, which tooling matches on textually.

use vstd::prelude::*;

use crate::error::{Error, ErrorView};
use crate::strutil::{chars_vec, str_eq};
use crate::toml_data::{
    parse_toml_str, spec_get, spec_type_str, toml_tree_of, tv_pairs_view, lemma_tv_pairs_view,
    TomlValue, TomlView,
};

verus! {

use vstd::string::StringExecFns;

/// The name of the manifest table the dependencies live in.
pub open spec fn spec_table_key() -> Seq<char> {
    "package.metadata.pkg-config"@
}

/// The name of the manifest table the dependencies live in.
pub fn table_key() -> (r: &'static str)
    ensures
        r@ == spec_table_key(),
{
    "package.metadata.pkg-config"
}

/// An alternate minimum version for a dependency, active only while the
/// feature its key names is enabled.
#[derive(Debug, PartialEq)]
pub struct VersionOverride {
    /// The override's key in the manifest, which names its gating feature.
    pub key: String,
    /// The minimum version this override asks for.
    pub version: String,
    /// An alternate library name, if the override renames the dependency.
    pub name: Option<String>,
    /// An alternate optionality, if the override changes the parent's.
    pub optional: Option<bool>,
}

/// The mathematical value of a `VersionOverride`.
pub ghost struct OverrideView {
    pub key: Seq<char>,
    pub version: Seq<char>,
    pub name: Option<Seq<char>>,
    pub optional: Option<bool>,
}

impl View for VersionOverride {
    type V = OverrideView;

    open spec fn view(&self) -> OverrideView {
        OverrideView {
            key: self.key@,
            version: self.version@,
            name: match self.name {
                Some(ref n) => Some(n@),
                None => None,
            },
            optional: self.optional,
        }
    }
}

/// One declared dependency.
#[derive(Debug, PartialEq)]
pub struct Dependency {
    /// The entry's key in the manifest table, unique within it.
    pub key: String,
    /// The base minimum version, if one is declared directly.
    pub version: Option<String>,
    /// The real library name, where it differs from the key.
    pub name: Option<String>,
    /// A feature gating the whole dependency.
    pub feature: Option<String>,
    /// Whether discovery failure is tolerated.
    pub optional: bool,
    /// The version overrides, in manifest order.
    pub version_overrides: Vec<VersionOverride>,
}

/// The mathematical value of a `Dependency`.
#[verifier::ext_equal]
pub ghost struct DepView {
    pub key: Seq<char>,
    pub version: Option<Seq<char>>,
    pub name: Option<Seq<char>>,
    pub feature: Option<Seq<char>>,
    pub optional: bool,
    pub version_overrides: Seq<OverrideView>,
}

impl View for Dependency {
    type V = DepView;

    open spec fn view(&self) -> DepView {
        DepView {
            key: self.key@,
            version: match self.version {
                Some(ref v) => Some(v@),
                None => None,
            },
            name: match self.name {
                Some(ref n) => Some(n@),
                None => None,
            },
            feature: match self.feature {
                Some(ref f) => Some(f@),
                None => None,
            },
            optional: self.optional,
            version_overrides: self.version_overrides@.map_values(|o: VersionOverride| o@),
        }
    }
}

/// A dependency fresh from its key: no version, no options yet.
pub open spec fn spec_new_dep(key: Seq<char>) -> DepView {
    DepView {
        key: key,
        version: None,
        name: None,
        feature: None,
        optional: false,
        version_overrides: Seq::<OverrideView>::empty(),
    }
}

/// The library name a dependency resolves to by default: its `name` field,
/// or its key.
pub open spec fn spec_lib_name(d: DepView) -> Seq<char> {
    match d.name {
        Some(n) => n,
        None => d.key,
    }
}

impl Dependency {
    /// A dependency fresh from its key.
    pub fn new(name: &str) -> (r: Dependency)
        ensures
            r@ == spec_new_dep(name@),
    {
        let r = Dependency {
            key: name.to_owned(),
            version: None,
            name: None,
            feature: None,
            optional: false,
            version_overrides: Vec::new(),
        };
        proof {
            assert(r@.version_overrides =~= Seq::<OverrideView>::empty());
            assert(r@ =~= spec_new_dep(name@));
        }
        r
    }

    /// The library name this dependency looks up by default.
    pub fn lib_name(&self) -> (r: String)
        ensures
            r@ == spec_lib_name(self@),
    {
        match &self.name {
            Some(n) => n.clone(),
            None => self.key.clone(),
        }
    }
}

/// The parsed dependency table.
#[derive(Debug, PartialEq)]
pub struct MetaData {
    /// The dependencies, in manifest order.
    pub deps: Vec<Dependency>,
}

impl View for MetaData {
    type V = Seq<DepView>;

    open spec fn view(&self) -> Seq<DepView> {
        self.deps@.map_values(|d: Dependency| d@)
    }
}

/// Partial state of one version override while its sub-table is read.
pub struct VersionOverrideBuilder {
    /// The override's key in the manifest.
    pub version_id: String,
    /// The version seen so far, if any.
    pub version: Option<String>,
    /// The rename seen so far, if any.
    pub full_name: Option<String>,
    /// The optionality seen so far, if any.
    pub optional: Option<bool>,
}

/// The mathematical value of a `VersionOverrideBuilder`.
#[verifier::ext_equal]
pub ghost struct BuilderView {
    pub version_id: Seq<char>,
    pub version: Option<Seq<char>>,
    pub full_name: Option<Seq<char>>,
    pub optional: Option<bool>,
}

impl View for VersionOverrideBuilder {
    type V = BuilderView;

    open spec fn view(&self) -> BuilderView {
        BuilderView {
            version_id: self.version_id@,
            version: match self.version {
                Some(ref v) => Some(v@),
                None => None,
            },
            full_name: match self.full_name {
                Some(ref n) => Some(n@),
                None => None,
            },
            optional: self.optional,
        }
    }
}

/// The override a finished builder yields, or the error for a missing version.
pub open spec fn spec_build_override(b: BuilderView) -> Result<OverrideView, ErrorView> {
    match b.version {
        Some(v) => Ok(
            OverrideView { key: b.version_id, version: v, name: b.full_name, optional: b.optional },
        ),
        None => Err(ErrorView::InvalidMetadata("missing version field"@)),
    }
}

impl VersionOverrideBuilder {
    /// A builder fresh from the override's key.
    pub fn new(version_id: &str) -> (r: VersionOverrideBuilder)
        ensures
            r@ == (BuilderView {
                version_id: version_id@,
                version: None,
                full_name: None,
                optional: None,
            }),
    {
        VersionOverrideBuilder {
            version_id: version_id.to_owned(),
            version: None,
            full_name: None,
            optional: None,
        }
    }

    /// The finished override; an override without a version is refused.
    pub fn build(self) -> (r: Result<VersionOverride, Error>)
        ensures
            match r {
                Ok(o) => spec_build_override(self@) == Ok::<OverrideView, ErrorView>(o@),
                Err(e) => spec_build_override(self@) == Err::<OverrideView, ErrorView>(e@),
            },
    {
        match self.version {
            Some(v) => Ok(
                VersionOverride {
                    key: self.version_id,
                    version: v,
                    name: self.full_name,
                    optional: self.optional,
                },
            ),
            None => Err(Error::InvalidMetadata(String::from_str("missing version field"))),
        }
    }
}

/// One entry of an override sub-table folded into the builder, or the error
/// naming the offending path.
pub open spec fn spec_ovr_entry(b: BuilderView, dep_key: Seq<char>, k: Seq<char>, v: TomlView) -> Result<
    BuilderView,
    ErrorView,
> {
    if k == "version"@ && v is Str {
        Ok(BuilderView { version: Some(v->Str_0), ..b })
    } else if k == "name"@ && v is Str {
        Ok(BuilderView { full_name: Some(v->Str_0), ..b })
    } else if k == "optional"@ && v is Bool {
        Ok(BuilderView { optional: Some(v->Bool_0), ..b })
    } else {
        Err(
            ErrorView::InvalidMetadata(
                "Unexpected key "@ + spec_table_key() + "."@ + dep_key + "."@ + b.version_id + "."@
                    + k + " type "@ + spec_type_str(v),
            ),
        )
    }
}

/// An override sub-table folded into the builder, entry by entry.
pub open spec fn spec_ovr_entries(
    b: BuilderView,
    dep_key: Seq<char>,
    pairs: Seq<(Seq<char>, TomlView)>,
) -> Result<BuilderView, ErrorView>
    decreases pairs.len(),
{
    if pairs.len() == 0 {
        Ok(b)
    } else {
        match spec_ovr_entry(b, dep_key, pairs[0].0, pairs[0].1) {
            Err(e) => Err(e),
            Ok(b2) => spec_ovr_entries(b2, dep_key, pairs.drop_first()),
        }
    }
}

/// A whole version-override sub-table, parsed: its entries folded, then the
/// version demanded, its absence named by path.
pub open spec fn spec_parse_override(
    dep_key: Seq<char>,
    okey: Seq<char>,
    pairs: Seq<(Seq<char>, TomlView)>,
) -> Result<OverrideView, ErrorView> {
    let b0 = BuilderView { version_id: okey, version: None, full_name: None, optional: None };
    match spec_ovr_entries(b0, dep_key, pairs) {
        Err(e) => Err(e),
        Ok(b) => match b.version {
            Some(v) => Ok(
                OverrideView { key: okey, version: v, name: b.full_name, optional: b.optional },
            ),
            None => Err(
                ErrorView::InvalidMetadata(
                    "No version in "@ + spec_table_key() + "."@ + dep_key + "."@ + okey,
                ),
            ),
        },
    }
}

/// One entry of a dependency table folded into the dependency: the known
/// keys, a `v`-prefixed override sub-table, or the error naming the path.
pub open spec fn spec_dep_entry(d: DepView, k: Seq<char>, v: TomlView) -> Result<
    DepView,
    ErrorView,
> {
    if k == "feature"@ && v is Str {
        Ok(DepView { feature: Some(v->Str_0), ..d })
    } else if k == "version"@ && v is Str {
        Ok(DepView { version: Some(v->Str_0), ..d })
    } else if k == "name"@ && v is Str {
        Ok(DepView { name: Some(v->Str_0), ..d })
    } else if k == "optional"@ && v is Bool {
        Ok(DepView { optional: v->Bool_0, ..d })
    } else if k.len() > 0 && k[0] == 'v' && v is Table {
        match spec_parse_override(d.key, k, v->Table_0) {
            Err(e) => Err(e),
            Ok(o) => Ok(DepView { version_overrides: d.version_overrides.push(o), ..d }),
        }
    } else {
        Err(
            ErrorView::InvalidMetadata(
                "Unexpected key "@ + spec_table_key() + "."@ + d.key + "."@ + k + " type "@
                    + spec_type_str(v),
            ),
        )
    }
}

/// A dependency table folded into the dependency, entry by entry.
pub open spec fn spec_dep_entries(d: DepView, pairs: Seq<(Seq<char>, TomlView)>) -> Result<
    DepView,
    ErrorView,
>
    decreases pairs.len(),
{
    if pairs.len() == 0 {
        Ok(d)
    } else {
        match spec_dep_entry(d, pairs[0].0, pairs[0].1) {
            Err(e) => Err(e),
            Ok(d2) => spec_dep_entries(d2, pairs.drop_first()),
        }
    }
}

/// One dependency entry, parsed: a bare string is its minimum version, a
/// table is folded, anything else is refused.
pub open spec fn spec_parse_dep(name: Seq<char>, v: TomlView) -> Result<DepView, ErrorView> {
    match v {
        TomlView::Str(s) => Ok(DepView { version: Some(s), ..spec_new_dep(name) }),
        TomlView::Table(pairs) => spec_dep_entries(spec_new_dep(name), pairs),
        _ => Err(
            ErrorView::InvalidMetadata(
                spec_table_key() + "."@ + name + " not a string or table"@,
            ),
        ),
    }
}

/// The dependency table, parsed entry by entry in manifest order, the first
/// error winning.
pub open spec fn spec_parse_deps(pairs: Seq<(Seq<char>, TomlView)>) -> Result<
    Seq<DepView>,
    ErrorView,
>
    decreases pairs.len(),
{
    if pairs.len() == 0 {
        Ok(Seq::<DepView>::empty())
    } else {
        match spec_parse_dep(pairs[0].0, pairs[0].1) {
            Err(e) => Err(e),
            Ok(d) => match spec_parse_deps(pairs.drop_first()) {
                Err(e) => Err(e),
                Ok(ds) => Ok(seq![d] + ds),
            },
        }
    }
}

/// A whole manifest, parsed: the tree as the parser answered it, the walk to
/// the dependency table, and the table itself; every failure is an
/// `InvalidMetadata` whose message names `path`.
pub open spec fn spec_parse_manifest(
    tree: Result<TomlView, Seq<char>>,
    path: Seq<char>,
) -> Result<Seq<DepView>, ErrorView> {
    match tree {
        Err(msg) => Err(
            ErrorView::InvalidMetadata("Error parsing TOML from "@ + path + ": "@ + msg),
        ),
        Ok(root) => {
            let meta = match spec_get(root, "package"@) {
                Some(p) => match spec_get(p, "metadata"@) {
                    Some(m) => spec_get(m, "pkg-config"@),
                    None => None,
                },
                None => None,
            };
            match meta {
                None => Err(
                    ErrorView::InvalidMetadata(
                        "No "@ + spec_table_key() + " in "@ + path,
                    ),
                ),
                Some(TomlView::Table(pairs)) => spec_parse_deps(pairs),
                Some(_) => Err(
                    ErrorView::InvalidMetadata(
                        spec_table_key() + " not a table in "@ + path,
                    ),
                ),
            }
        },
    }
}

fn unexpected_key_err(dep_key: &str, k: &String, v: &TomlValue) -> (e: Error)
    ensures
        e@ == ErrorView::InvalidMetadata(
            "Unexpected key "@ + spec_table_key() + "."@ + dep_key@ + "."@ + k@ + " type "@
                + spec_type_str(v@),
        ),
{
    Error::InvalidMetadata(
        String::from_str("Unexpected key ").concat(table_key()).concat(".").concat(
            dep_key,
        ).concat(".").concat(k.as_str()).concat(" type ").concat(v.type_str()),
    )
}

fn unexpected_override_key_err(dep_key: &str, okey: &str, k: &String, v: &TomlValue) -> (e: Error)
    ensures
        e@ == ErrorView::InvalidMetadata(
            "Unexpected key "@ + spec_table_key() + "."@ + dep_key@ + "."@ + okey@ + "."@ + k@
                + " type "@ + spec_type_str(v@),
        ),
{
    Error::InvalidMetadata(
        String::from_str("Unexpected key ").concat(table_key()).concat(".").concat(
            dep_key,
        ).concat(".").concat(okey).concat(".").concat(k.as_str()).concat(" type ").concat(
            v.type_str(),
        ),
    )
}

#[verifier::loop_isolation(false)]
fn parse_override(dep_key: &str, okey: &String, pairs: &Vec<(String, TomlValue)>) -> (r: Result<
    VersionOverride,
    Error,
>)
    ensures
        match r {
            Ok(o) => spec_parse_override(dep_key@, okey@, tv_pairs_view(pairs@)) == Ok::<
                OverrideView,
                ErrorView,
            >(o@),
            Err(e) => spec_parse_override(dep_key@, okey@, tv_pairs_view(pairs@)) == Err::<
                OverrideView,
                ErrorView,
            >(e@),
        },
{
    let ghost vp = tv_pairs_view(pairs@);
    proof {
        lemma_tv_pairs_view(pairs@);
        assert(vp.skip(0) =~= vp);
    }
    let mut builder = VersionOverrideBuilder::new(okey.as_str());
    let ghost b0 = builder@;
    let mut i: usize = 0;
    while i < pairs.len()
        invariant
            i <= pairs.len(),
            vp == tv_pairs_view(pairs@),
            vp.len() == pairs@.len(),
            forall|m: int|
                0 <= m < vp.len() ==> #[trigger] vp[m] == (pairs@[m].0@, pairs@[m].1@),
            builder@.version_id == okey@,
            spec_ovr_entries(b0, dep_key@, vp) == spec_ovr_entries(
                builder@,
                dep_key@,
                vp.skip(i as int),
            ),
        decreases pairs.len() - i,
    {
        proof {
            assert(vp.skip(i as int)[0] == vp[i as int]);
            assert(vp.skip(i as int).drop_first() =~= vp.skip(i as int + 1));
        }
        let ghost prev = builder@;
        let k = &pairs[i].0;
        let v = &pairs[i].1;
        match v {
            TomlValue::Str(s) => {
                if str_eq(k.as_str(), "version") {
                    builder.version = Some(s.clone());
                } else if str_eq(k.as_str(), "name") {
                    builder.full_name = Some(s.clone());
                } else {
                    return Err(unexpected_override_key_err(dep_key, okey.as_str(), k, v));
                }
            },
            TomlValue::Bool(b) => {
                if str_eq(k.as_str(), "optional") {
                    builder.optional = Some(*b);
                } else {
                    return Err(unexpected_override_key_err(dep_key, okey.as_str(), k, v));
                }
            },
            _ => {
                return Err(unexpected_override_key_err(dep_key, okey.as_str(), k, v));
            },
        }
        proof {
            assert(spec_ovr_entry(prev, dep_key@, vp[i as int].0, vp[i as int].1)
                matches Ok(b2) && b2 =~= builder@);
        }
        i += 1;
    }
    proof {
        assert(vp.skip(pairs@.len() as int) =~= Seq::<(Seq<char>, TomlView)>::empty());
    }
    if builder.version.is_none() {
        return Err(
            Error::InvalidMetadata(
                String::from_str("No version in ").concat(table_key()).concat(".").concat(
                    dep_key,
                ).concat(".").concat(okey.as_str()),
            ),
        );
    }
    match builder.build() {
        Ok(o) => Ok(o),
        Err(e) => Err(e),
    }
}

#[verifier::loop_isolation(false)]
fn parse_dep_table(dep: &mut Dependency, pairs: &Vec<(String, TomlValue)>) -> (r: Result<
    (),
    Error,
>)
    ensures
        match r {
            Ok(_) => spec_dep_entries(old(dep)@, tv_pairs_view(pairs@)) == Ok::<DepView, ErrorView>(
                final(dep)@,
            ),
            Err(e) => spec_dep_entries(old(dep)@, tv_pairs_view(pairs@)) == Err::<
                DepView,
                ErrorView,
            >(e@),
        },
{
    let ghost vp = tv_pairs_view(pairs@);
    let ghost d0 = dep@;
    proof {
        lemma_tv_pairs_view(pairs@);
        assert(vp.skip(0) =~= vp);
    }
    let mut i: usize = 0;
    while i < pairs.len()
        invariant
            i <= pairs.len(),
            vp == tv_pairs_view(pairs@),
            vp.len() == pairs@.len(),
            forall|m: int|
                0 <= m < vp.len() ==> #[trigger] vp[m] == (pairs@[m].0@, pairs@[m].1@),
            spec_dep_entries(d0, vp) == spec_dep_entries(dep@, vp.skip(i as int)),
        decreases pairs.len() - i,
    {
        proof {
            assert(vp.skip(i as int)[0] == vp[i as int]);
            assert(vp.skip(i as int).drop_first() =~= vp.skip(i as int + 1));
        }
        let ghost prev = dep@;
        let k = &pairs[i].0;
        let v = &pairs[i].1;
        match v {
            TomlValue::Str(s) => {
                if str_eq(k.as_str(), "feature") {
                    dep.feature = Some(s.clone());
                } else if str_eq(k.as_str(), "version") {
                    dep.version = Some(s.clone());
                } else if str_eq(k.as_str(), "name") {
                    dep.name = Some(s.clone());
                } else {
                    return Err(unexpected_key_err(dep.key.as_str(), k, v));
                }
            },
            TomlValue::Bool(b) => {
                if str_eq(k.as_str(), "optional") {
                    dep.optional = *b;
                } else {
                    return Err(unexpected_key_err(dep.key.as_str(), k, v));
                }
            },
            TomlValue::Table(sub) => {
                let kc = chars_vec(k.as_str());
                if kc.len() > 0 && kc[0] == 'v' {
                    match parse_override(dep.key.as_str(), k, sub) {
                        Ok(o) => {
                            dep.version_overrides.push(o);
                            proof {
                                assert(dep@.version_overrides =~= prev.version_overrides.push(o@));
                            }
                        },
                        Err(e) => {
                            return Err(e);
                        },
                    }
                } else {
                    return Err(unexpected_key_err(dep.key.as_str(), k, v));
                }
            },
            TomlValue::Other(_) => {
                return Err(unexpected_key_err(dep.key.as_str(), k, v));
            },
        }
        proof {
            assert(spec_dep_entry(prev, vp[i as int].0, vp[i as int].1) matches Ok(d2) && d2
                =~= dep@);
        }
        i += 1;
    }
    proof {
        assert(vp.skip(pairs@.len() as int) =~= Seq::<(Seq<char>, TomlView)>::empty());
    }
    Ok(())
}

#[verifier::loop_isolation(false)]
fn parse_dep(name: &str, value: &TomlValue) -> (r: Result<Dependency, Error>)
    ensures
        match r {
            Ok(d) => spec_parse_dep(name@, value@) == Ok::<DepView, ErrorView>(d@),
            Err(e) => spec_parse_dep(name@, value@) == Err::<DepView, ErrorView>(e@),
        },
{
    let mut dep = Dependency::new(name);
    match value {
        TomlValue::Str(s) => {
            dep.version = Some(s.clone());
            proof {
                assert(dep@ =~= DepView { version: Some(s@), ..spec_new_dep(name@) });
            }
            Ok(dep)
        },
        TomlValue::Table(t) => {
            match parse_dep_table(&mut dep, t) {
                Ok(_) => Ok(dep),
                Err(e) => Err(e),
            }
        },
        _ => {
            Err(
                Error::InvalidMetadata(
                    String::from_str(table_key()).concat(".").concat(name).concat(
                        " not a string or table",
                    ),
                ),
            )
        },
    }
}

impl MetaData {
    /// Parse the dependency table out of manifest text; `path` is where the
    /// text came from, named by the error messages.
    #[verifier::loop_isolation(false)]
    pub fn from_str(manifest: &str, path: &str) -> (r: Result<MetaData, Error>)
        ensures
            match r {
                Ok(m) => spec_parse_manifest(toml_tree_of(manifest@), path@) == Ok::<
                    Seq<DepView>,
                    ErrorView,
                >(m@),
                Err(e) => spec_parse_manifest(toml_tree_of(manifest@), path@) == Err::<
                    Seq<DepView>,
                    ErrorView,
                >(e@),
            },
    {
        let root = match parse_toml_str(manifest) {
            Ok(v) => v,
            Err(msg) => {
                return Err(
                    Error::InvalidMetadata(
                        String::from_str("Error parsing TOML from ").concat(path).concat(
                            ": ",
                        ).concat(msg.as_str()),
                    ),
                );
            },
        };
        let meta_opt = match root.get("package") {
            Some(p) => match p.get("metadata") {
                Some(m) => m.get("pkg-config"),
                None => None,
            },
            None => None,
        };
        let meta = match meta_opt {
            Some(m) => m,
            None => {
                return Err(
                    Error::InvalidMetadata(
                        String::from_str("No ").concat(table_key()).concat(" in ").concat(path),
                    ),
                );
            },
        };
        let pairs = match meta {
            TomlValue::Table(pairs) => pairs,
            _ => {
                return Err(
                    Error::InvalidMetadata(
                        String::from_str(table_key()).concat(" not a table in ").concat(path),
                    ),
                );
            },
        };
        let ghost vp = tv_pairs_view(pairs@);
        proof {
            lemma_tv_pairs_view(pairs@);
            assert(vp.skip(0) =~= vp);
        }
        let mut deps: Vec<Dependency> = Vec::new();
        let mut i: usize = 0;
        while i < pairs.len()
            invariant
                i <= pairs.len(),
                vp == tv_pairs_view(pairs@),
                vp.len() == pairs@.len(),
                forall|m: int|
                    0 <= m < vp.len() ==> #[trigger] vp[m] == (pairs@[m].0@, pairs@[m].1@),
                spec_parse_deps(vp) == (match spec_parse_deps(vp.skip(i as int)) {
                    Err(e) => Err(e),
                    Ok(ds) => Ok(deps@.map_values(|d: Dependency| d@) + ds),
                }),
            decreases pairs.len() - i,
        {
            proof {
                assert(vp.skip(i as int)[0] == vp[i as int]);
                assert(vp.skip(i as int).drop_first() =~= vp.skip(i as int + 1));
            }
            let ghost prev = deps@.map_values(|d: Dependency| d@);
            match parse_dep(pairs[i].0.as_str(), &pairs[i].1) {
                Ok(d) => {
                    let ghost dv = d@;
                    deps.push(d);
                    proof {
                        assert(deps@.map_values(|d: Dependency| d@) =~= prev.push(dv));
                        assert forall|ds: Seq<DepView>|
                            prev + (seq![dv] + ds) =~= (prev.push(dv) + ds) by {
                        }
                    }
                },
                Err(e) => {
                    return Err(e);
                },
            }
            i += 1;
        }
        proof {
            assert(vp.skip(pairs@.len() as int) =~= Seq::<(Seq<char>, TomlView)>::empty());
            assert(deps@.map_values(|d: Dependency| d@) + Seq::<DepView>::empty() =~= deps@
                .map_values(|d: Dependency| d@));
        }
        Ok(MetaData { deps })
    }
}

} // verus!
