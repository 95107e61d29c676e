//! Verified helpers for the character-level work the engine needs:
//! collecting the characters of a string, the uppercase/underscore key
//! transform used to build environment-variable names, and splitting and
//! joining of list-valued strings.

use vstd::prelude::*;

verus! {

broadcast use vstd::string::group_string_axioms;

use vstd::string::StringExecFns;
use vstd::std_specs::iter::IteratorSpec;

/// Relies on `String::push` of std: appends one character at the end.
pub assume_specification[ String::push ](s: &mut String, ch: char)
    ensures
        final(s)@ == old(s)@.push(ch),
;

/// The characters of `s`, as a vector.
pub fn chars_vec(s: &str) -> (r: Vec<char>)
    ensures
        r@ == s@,
{
    let mut it = s.chars();
    let mut out: Vec<char> = Vec::new();
    loop
        invariant_except_break
            out@ + it.remaining() == s@,
            it.decrease() is Some,
        ensures
            out@ == s@,
        decreases it.decrease()->0,
    {
        match it.next() {
            Some(c) => {
                out.push(c);
            },
            None => {
                proof {
                    assert(out@ =~= out@ + it.remaining());
                }
                break ;
            },
        }
    }
    out
}

/// Whether two strings hold the same characters.
pub fn str_eq(a: &str, b: &str) -> (r: bool)
    ensures
        r == (a@ == b@),
{
    let ac = chars_vec(a);
    let bc = chars_vec(b);
    if ac.len() != bc.len() {
        return false;
    }
    let mut i: usize = 0;
    while i < ac.len()
        invariant
            i <= ac.len(),
            ac@ == a@,
            bc@ == b@,
            ac.len() == bc.len(),
            forall|k: int| 0 <= k < i ==> a@[k] == b@[k],
        decreases ac.len() - i,
    {
        if ac[i] != bc[i] {
            return false;
        }
        i += 1;
    }
    proof {
        assert(a@ =~= b@);
    }
    true
}

/// One character of the environment-variable form of a key: ASCII lowercase
/// letters are uppercased and `-` becomes `_`; everything else is unchanged.
pub open spec fn spec_upper_char(c: char) -> char {
    match c {
        'a' => 'A',
        'b' => 'B',
        'c' => 'C',
        'd' => 'D',
        'e' => 'E',
        'f' => 'F',
        'g' => 'G',
        'h' => 'H',
        'i' => 'I',
        'j' => 'J',
        'k' => 'K',
        'l' => 'L',
        'm' => 'M',
        'n' => 'N',
        'o' => 'O',
        'p' => 'P',
        'q' => 'Q',
        'r' => 'R',
        's' => 'S',
        't' => 'T',
        'u' => 'U',
        'v' => 'V',
        'w' => 'W',
        'x' => 'X',
        'y' => 'Y',
        'z' => 'Z',
        '-' => '_',
        _ => c,
    }
}

fn upper_char(c: char) -> (r: char)
    ensures
        r == spec_upper_char(c),
{
    match c {
        'a' => 'A',
        'b' => 'B',
        'c' => 'C',
        'd' => 'D',
        'e' => 'E',
        'f' => 'F',
        'g' => 'G',
        'h' => 'H',
        'i' => 'I',
        'j' => 'J',
        'k' => 'K',
        'l' => 'L',
        'm' => 'M',
        'n' => 'N',
        'o' => 'O',
        'p' => 'P',
        'q' => 'Q',
        'r' => 'R',
        's' => 'S',
        't' => 'T',
        'u' => 'U',
        'v' => 'V',
        'w' => 'W',
        'x' => 'X',
        'y' => 'Y',
        'z' => 'Z',
        '-' => '_',
        _ => c,
    }
}

/// A key in the form used for environment-variable names: uppercased, with
/// dashes as underscores.
pub open spec fn spec_upper_snake(s: Seq<char>) -> Seq<char> {
    s.map_values(|c: char| spec_upper_char(c))
}

/// The environment-variable form of a key (uppercase, dashes as underscores).
pub fn upper_snake(s: &str) -> (r: String)
    ensures
        r@ == spec_upper_snake(s@),
{
    let cs = chars_vec(s);
    let mut out = String::new();
    let mut i: usize = 0;
    while i < cs.len()
        invariant
            i <= cs.len(),
            cs@ == s@,
            out@ == spec_upper_snake(s@.take(i as int)),
        decreases cs.len() - i,
    {
        out.push(upper_char(cs[i]));
        proof {
            assert(spec_upper_snake(s@.take(i as int + 1)) =~= spec_upper_snake(s@.take(i as int)).push(
                spec_upper_char(s@[i as int]),
            ));
        }
        i += 1;
    }
    proof {
        assert(s@.take(cs@.len() as int) =~= s@);
    }
    out
}

/// Name of the per-dependency override variable `METADEPS_<KEY>_<flag>`.
pub open spec fn spec_override_var(lib: Seq<char>, flag: Seq<char>) -> Seq<char> {
    "METADEPS_"@ + spec_upper_snake(lib) + "_"@ + flag
}

/// Name of the override variable for dependency `lib` and override slot `flag`.
pub fn flag_override_var(lib: &str, flag: &str) -> (r: String)
    ensures
        r@ == spec_override_var(lib@, flag@),
{
    let up = upper_snake(lib);
    String::from_str("METADEPS_").concat(up.as_str()).concat("_").concat(flag)
}

/// Name of the variable that signals that feature `f` is enabled.
pub open spec fn spec_feature_var(f: Seq<char>) -> Seq<char> {
    "CARGO_FEATURE_"@ + spec_upper_snake(f)
}

/// Name of the feature-enabled variable for feature `f`.
pub fn feature_var(f: &str) -> (r: String)
    ensures
        r@ == spec_feature_var(f@),
{
    let up = upper_snake(f);
    String::from_str("CARGO_FEATURE_").concat(up.as_str())
}

/// Split on a separator character.  Always yields one more part than there
/// are separators; the empty string yields one empty part.
pub open spec fn split_chars(s: Seq<char>, sep: char) -> Seq<Seq<char>>
    decreases s.len(),
{
    if s.len() == 0 {
        seq![Seq::<char>::empty()]
    } else if s.last() == sep {
        split_chars(s.drop_last(), sep).push(Seq::<char>::empty())
    } else {
        let rest = split_chars(s.drop_last(), sep);
        rest.update(rest.len() - 1, rest.last().push(s.last()))
    }
}

/// The views of a sequence of strings.
pub open spec fn str_views(s: Seq<String>) -> Seq<Seq<char>> {
    s.map_values(|t: String| t@)
}

/// Split `s` on `sep` into owned parts.
pub fn split_on(s: &str, sep: char) -> (r: Vec<String>)
    ensures
        str_views(r@) == split_chars(s@, sep),
{
    let cs = chars_vec(s);
    let mut out: Vec<String> = Vec::new();
    let mut cur = String::new();
    let mut i: usize = 0;
    while i < cs.len()
        invariant
            i <= cs.len(),
            cs@ == s@,
            split_chars(s@.take(i as int), sep) == str_views(out@).push(cur@),
        decreases cs.len() - i,
    {
        proof {
            assert(s@.take(i as int + 1).drop_last() =~= s@.take(i as int));
        }
        if cs[i] == sep {
            out.push(cur);
            cur = String::new();
            proof {
                assert(str_views(out@).push(cur@) =~= str_views(out@.drop_last()).push(
                    out@.last()@,
                ).push(Seq::<char>::empty()));
            }
        } else {
            let ghost prev = str_views(out@).push(cur@);
            cur.push(cs[i]);
            proof {
                assert(split_chars(s@.take(i as int + 1), sep) =~= prev.update(
                    prev.len() - 1,
                    prev.last().push(s@[i as int]),
                ));
                assert(prev.update(prev.len() - 1, prev.last().push(s@[i as int])) =~= str_views(
                    out@,
                ).push(cur@));
            }
        }
        i += 1;
    }
    proof {
        assert(s@.take(cs@.len() as int) =~= s@);
    }
    out.push(cur);
    proof {
        assert(str_views(out@) =~= str_views(out@.drop_last()).push(out@.last()@));
    }
    out
}

/// A list-valued override: the empty string means the empty list, anything
/// else is split on the separator.
pub open spec fn spec_split_list(s: Seq<char>, sep: char) -> Seq<Seq<char>> {
    if s.len() == 0 {
        Seq::<Seq<char>>::empty()
    } else {
        split_chars(s, sep)
    }
}

/// Split a path-list value on `:`; the empty string yields no paths.
pub fn split_paths(value: &str) -> (r: Vec<String>)
    ensures
        str_views(r@) == spec_split_list(value@, ':'),
{
    if value.is_empty() {
        let r = Vec::<String>::new();
        proof {
            assert(str_views(r@) =~= Seq::<Seq<char>>::empty());
        }
        r
    } else {
        split_on(value, ':')
    }
}

/// Split a name-list value on a single space; the empty string yields no names.
pub fn split_string(value: &str) -> (r: Vec<String>)
    ensures
        str_views(r@) == spec_split_list(value@, ' '),
{
    if value.is_empty() {
        let r = Vec::<String>::new();
        proof {
            assert(str_views(r@) =~= Seq::<Seq<char>>::empty());
        }
        r
    } else {
        split_on(value, ' ')
    }
}

/// Parts joined with `:` between them; no separator is added for a single
/// part, and no text at all for none.
pub open spec fn spec_join_paths(parts: Seq<Seq<char>>) -> Seq<char>
    decreases parts.len(),
{
    if parts.len() == 0 {
        Seq::<char>::empty()
    } else if parts.len() == 1 {
        parts[0]
    } else {
        spec_join_paths(parts.drop_last()) + ":"@ + parts.last()
    }
}

/// Join paths with `:` between them.
pub fn join_paths(parts: &Vec<String>) -> (r: String)
    ensures
        r@ == spec_join_paths(str_views(parts@)),
{
    let mut out = String::new();
    let mut i: usize = 0;
    while i < parts.len()
        invariant
            i <= parts.len(),
            out@ == spec_join_paths(str_views(parts@).take(i as int)),
        decreases parts.len() - i,
    {
        proof {
            assert(str_views(parts@).take(i as int + 1).drop_last() =~= str_views(parts@).take(i as int));
        }
        if i > 0 {
            out.append(":");
        }
        out.append(parts[i].as_str());
        proof {
            if i == 0 {
                assert(out@ == str_views(parts@).take(i as int + 1).last());
            }
        }
        i += 1;
    }
    proof {
        assert(str_views(parts@).take(parts@.len() as int) =~= str_views(parts@));
    }
    out
}

} // verus!
