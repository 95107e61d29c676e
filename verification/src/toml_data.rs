//! The manifest's value tree, as the engine reads it.
//!
//! The structured-text parser itself is the toml crate's business; what the
//! engine needs from a parsed manifest is only which entries are strings,
//! booleans or tables, and, for anything else, the name of its type for the
//! error message.  `TomlValue` holds exactly that, and the one trusted
//! function of this module turns manifest text into such a tree.

use vstd::prelude::*;

use crate::strutil::str_eq;

verus! {

/// A parsed manifest value, reduced to what the engine reads.
pub enum TomlValue {
    /// A string value.
    Str(String),
    /// A boolean value.
    Bool(bool),
    /// A table, with its entries in the parser's iteration order.
    Table(Vec<(String, TomlValue)>),
    /// Any other value, kept only as the name of its type.
    Other(String),
}

/// The mathematical value of a `TomlValue`.
#[verifier::ext_equal]
pub ghost enum TomlView {
    Str(Seq<char>),
    Bool(bool),
    Table(Seq<(Seq<char>, TomlView)>),
    Other(Seq<char>),
}

/// The view of a whole tree.
pub open spec fn tv_view(v: TomlValue) -> TomlView
    decreases v,
{
    match v {
        TomlValue::Str(s) => TomlView::Str(s@),
        TomlValue::Bool(b) => TomlView::Bool(b),
        TomlValue::Table(pairs) => TomlView::Table(tv_pairs_view(pairs@)),
        TomlValue::Other(t) => TomlView::Other(t@),
    }
}

/// The views of a table's entries.
pub open spec fn tv_pairs_view(pairs: Seq<(String, TomlValue)>) -> Seq<(Seq<char>, TomlView)>
    decreases pairs,
    via tv_pairs_view_decreases
{
    if pairs.len() == 0 {
        Seq::<(Seq<char>, TomlView)>::empty()
    } else {
        tv_pairs_view(pairs.drop_last()).push((pairs.last().0@, tv_view(pairs.last().1)))
    }
}

#[via_fn]
proof fn tv_pairs_view_decreases(pairs: Seq<(String, TomlValue)>) {
    if pairs.len() > 0 {
        vstd::seq::axiom_seq_index_decreases(pairs, pairs.len() - 1);
        assert(decreases_to!(pairs => pairs.last()));
        assert(decreases_to!(pairs.last() => pairs.last().1));
        assert(decreases_to!(pairs => pairs.last().1));
    }
}

/// Pointwise reading of `tv_pairs_view`.
pub proof fn lemma_tv_pairs_view(pairs: Seq<(String, TomlValue)>)
    ensures
        tv_pairs_view(pairs).len() == pairs.len(),
        forall|i: int|
            0 <= i < pairs.len() ==> #[trigger] tv_pairs_view(pairs)[i] == (
                pairs[i].0@,
                tv_view(pairs[i].1),
            ),
    decreases pairs.len(),
{
    if pairs.len() > 0 {
        lemma_tv_pairs_view(pairs.drop_last());
    }
}

impl View for TomlValue {
    type V = TomlView;

    open spec fn view(&self) -> TomlView {
        tv_view(*self)
    }
}

/// The toml crate's value type, declared so that the conversion below can
/// take it; the engine itself never holds one.
#[verifier::external_type_specification]
#[verifier::external_body]
pub struct ExTomlValue(toml::Value);

/// What parsing the manifest text yields: the value tree, or the parser's
/// message.  Uninterpreted; the trusted parse function below relates it to
/// the toml crate's answer.
pub uninterp spec fn toml_tree_of(s: Seq<char>) -> Result<TomlView, Seq<char>>;

/// Relies on the toml crate's parser, `str::parse::<toml::Value>`, a pure
/// function of the text: on success the parsed tree is kept, arm by arm, as
/// a `TomlValue` (strings, booleans and tables; any other value only as the
/// name of its type); on failure the parser's rendered message is returned.
#[verifier::external_body]
pub(crate) fn parse_toml_str(s: &str) -> (r: Result<TomlValue, String>)
    ensures
        match r {
            Ok(v) => toml_tree_of(s@) == Ok::<TomlView, Seq<char>>(v@),
            Err(e) => toml_tree_of(s@) == Err::<TomlView, Seq<char>>(e@),
        },
{
    match s.parse::<toml::Value>() {
        Ok(v) => Ok(toml_value_to_tree(&v)),
        Err(e) => Err(format!("{:?}", e)),
    }
}

/// Relies on the shape of `toml::Value`: each variant is carried over one for
/// one, tables recursively in the crate's iteration order.
#[verifier::external_body]
fn toml_value_to_tree(v: &toml::Value) -> TomlValue {
    match v {
        toml::Value::String(s) => TomlValue::Str(s.clone()),
        toml::Value::Boolean(b) => TomlValue::Bool(*b),
        toml::Value::Table(t) => TomlValue::Table(
            t.iter().map(|(k, w)| (k.clone(), toml_value_to_tree(w))).collect(),
        ),
        other => TomlValue::Other(other.type_str().to_string()),
    }
}

/// The name of a value's type, as the error messages print it.
pub open spec fn spec_type_str(v: TomlView) -> Seq<char> {
    match v {
        TomlView::Str(_) => "string"@,
        TomlView::Bool(_) => "boolean"@,
        TomlView::Table(_) => "table"@,
        TomlView::Other(t) => t,
    }
}

/// Entry of a table under `key`, the first match counting; `None` for a
/// value that is not a table.
pub open spec fn spec_table_get(pairs: Seq<(Seq<char>, TomlView)>, key: Seq<char>) -> Option<
    TomlView,
>
    decreases pairs.len(),
{
    if pairs.len() == 0 {
        None
    } else if pairs[0].0 == key {
        Some(pairs[0].1)
    } else {
        spec_table_get(pairs.drop_first(), key)
    }
}

/// Entry under `key` of a value, `None` unless the value is a table holding it.
pub open spec fn spec_get(v: TomlView, key: Seq<char>) -> Option<TomlView> {
    match v {
        TomlView::Table(pairs) => spec_table_get(pairs, key),
        _ => None,
    }
}

impl TomlValue {
    /// The name of this value's type.
    pub fn type_str<'a>(&'a self) -> (r: &'a str)
        ensures
            r@ == spec_type_str(self@),
    {
        match self {
            TomlValue::Str(_) => "string",
            TomlValue::Bool(_) => "boolean",
            TomlValue::Table(_) => "table",
            TomlValue::Other(t) => t.as_str(),
        }
    }

    /// The entry under `key`, if this value is a table holding one.
    pub fn get<'a>(&'a self, key: &str) -> (r: Option<&'a TomlValue>)
        ensures
            match r {
                Some(w) => spec_get(self@, key@) == Some(w@),
                None => spec_get(self@, key@) is None,
            },
    {
        match self {
            TomlValue::Table(pairs) => {
                let ghost vp = tv_pairs_view(pairs@);
                proof {
                    lemma_tv_pairs_view(pairs@);
                    assert(self@ == TomlView::Table(vp));
                    assert(vp.skip(0) =~= vp);
                }
                let mut i: usize = 0;
                while i < pairs.len()
                    invariant
                        i <= pairs.len(),
                        self@ == TomlView::Table(vp),
                        vp.len() == pairs@.len(),
                        forall|k: int|
                            0 <= k < vp.len() ==> #[trigger] vp[k] == (
                            pairs@[k].0@,
                            tv_view(pairs@[k].1),
                            ),
                        spec_table_get(vp, key@) == spec_table_get(vp.skip(i as int), key@),
                    decreases pairs.len() - i,
                {
                    proof {
                        assert(vp.skip(i as int)[0] == vp[i as int]);
                    }
                    if str_eq(pairs[i].0.as_str(), key) {
                        return Some(&pairs[i].1);
                    }
                    proof {
                        assert(vp.skip(i as int).drop_first() =~= vp.skip(i as int + 1));
                    }
                    i += 1;
                }
                proof {
                    assert(vp.skip(pairs@.len() as int) =~= Seq::<(Seq<char>, TomlView)>::empty());
                }
                None
            },
            _ => None,
        }
    }
}

} // verus!
