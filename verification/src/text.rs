//! Small string utilities shared by the configuration and the organizer:
//! equality and concatenation helpers, case folding, trimming, placeholder
//! substitution and file-name extension handling.

use vstd::prelude::*;
use vstd::string::StrSliceExecFns;
use vstd::string::StringExecFns;

verus! {

/// What `str::to_lowercase` returns for a given character sequence.
pub uninterp spec fn lower_of(s: Seq<char>) -> Seq<char>;

/// What `str::trim` returns for a given character sequence.
pub uninterp spec fn trim_of(s: Seq<char>) -> Seq<char>;

/// Relies on `str::to_lowercase`: the result is a function of the characters
/// alone, and the empty string stays empty.
#[verifier::external_body]
pub fn lowercase(s: &str) -> (r: String)
    ensures
        r@ == lower_of(s@),
        s@.len() == 0 ==> r@.len() == 0,
{
    s.to_lowercase()
}

/// Relies on `str::trim`: the result is the slice without leading and
/// trailing whitespace, a function of the characters alone, and the empty
/// string stays empty.
#[verifier::external_body]
pub fn trimmed(s: &str) -> (r: &str)
    ensures
        r@ == trim_of(s@),
        s@.len() == 0 ==> r@.len() == 0,
{
    s.trim()
}

/// Character-for-character equality of two string slices.
pub fn str_eq(a: &str, b: &str) -> (r: bool)
    ensures
        r == (a@ == b@),
{
    let sa: String = a.to_owned();
    let sb: String = b.to_owned();
    sa == sb
}

/// `base` and `name` joined with a single separator.
pub fn join_path(base: &str, name: &str) -> (r: String)
    ensures
        r@ == base@ + "/"@ + name@,
{
    let mut r: String = base.to_owned();
    r.append("/");
    r.append(name);
    r
}

/// The view of an optional string slice.
pub open spec fn opt_str_view(r: Option<&str>) -> Option<Seq<char>> {
    match r {
        Some(s) => Some(s@),
        None => None,
    }
}

/// Index of the last `'.'` in a file name, if any.
pub open spec fn spec_last_dot(n: Seq<char>) -> Option<int>
    decreases n.len(),
{
    if n.len() == 0 {
        None
    } else if n.last() == '.' {
        Some(n.len() - 1)
    } else {
        spec_last_dot(n.drop_last())
    }
}

/// The extension of a file name: the portion after the final `'.'`, or
/// nothing when there is no dot or when the only dot starts a hidden file's
/// name.
pub open spec fn spec_extension(n: Seq<char>) -> Option<Seq<char>> {
    match spec_last_dot(n) {
        None => None,
        Some(i) => if i == 0 {
            None
        } else {
            Some(n.subrange(i + 1, n.len() as int))
        },
    }
}

proof fn lemma_last_dot_step(n: Seq<char>, i: int)
    requires
        0 < i <= n.len(),
        n[i - 1] != '.',
    ensures
        spec_last_dot(n.take(i)) == spec_last_dot(n.take(i - 1)),
{
    assert(n.take(i).last() == n[i - 1]);
    assert(n.take(i).drop_last() =~= n.take(i - 1));
}

/// The extension of `name`, with the semantics of `spec_extension`.
pub fn extension_of(name: &str) -> (r: Option<&str>)
    ensures
        opt_str_view(r) == spec_extension(name@),
{
    let n = name.unicode_len();
    let mut i = n;
    proof {
        assert(name@.take(n as int) =~= name@);
    }
    while i > 0
        invariant
            i <= n,
            n == name@.len(),
            spec_last_dot(name@) == spec_last_dot(name@.take(i as int)),
        decreases i,
    {
        if name.get_char(i - 1) == '.' {
            proof {
                assert(name@.take(i as int).last() == name@[i as int - 1]);
                assert(spec_last_dot(name@) == Some(i as int - 1));
            }
            if i - 1 == 0 {
                return None;
            }
            let ext = name.substring_char(i, n);
            return Some(ext);
        }
        proof {
            lemma_last_dot_step(name@, i as int);
        }
        i = i - 1;
    }
    proof {
        assert(name@.take(0) =~= Seq::<char>::empty());
    }
    None
}

/// The ten characters of the `{username}` placeholder.
pub open spec fn placeholder() -> Seq<char> {
    seq!['{', 'u', 's', 'e', 'r', 'n', 'a', 'm', 'e', '}']
}

/// `t` with every non-overlapping occurrence of the `{username}` placeholder,
/// leftmost first, replaced by `v`.
pub open spec fn spec_subst(t: Seq<char>, v: Seq<char>) -> Seq<char>
    decreases t.len(),
{
    if t.len() >= 10 && t.subrange(0, 10) == placeholder() {
        v + spec_subst(t.skip(10), v)
    } else if t.len() == 0 {
        Seq::empty()
    } else {
        seq![t[0]] + spec_subst(t.skip(1), v)
    }
}

/// Whether the placeholder occurs in `s` at position `i`.
fn is_placeholder_at(s: &str, i: usize) -> (r: bool)
    requires
        i + 10 <= s@.len(),
        s@.len() <= usize::MAX,
    ensures
        r == (s@.subrange(i as int, i as int + 10) == placeholder()),
{
    let r = s.get_char(i) == '{' && s.get_char(i + 1) == 'u' && s.get_char(i + 2) == 's'
        && s.get_char(i + 3) == 'e' && s.get_char(i + 4) == 'r' && s.get_char(i + 5) == 'n'
        && s.get_char(i + 6) == 'a' && s.get_char(i + 7) == 'm' && s.get_char(i + 8) == 'e'
        && s.get_char(i + 9) == '}';
    proof {
        if r {
            assert(s@.subrange(i as int, i as int + 10) =~= placeholder());
        } else {
            assert(s@.subrange(i as int, i as int + 10) != placeholder());
        }
    }
    r
}

/// `template` with every `{username}` placeholder replaced by `value`.
pub fn replace_username(template: &str, value: &str) -> (r: String)
    ensures
        r@ == spec_subst(template@, value@),
{
    let n = template.unicode_len();
    let mut r = String::new();
    let mut i: usize = 0;
    proof {
        assert(template@.skip(0) =~= template@);
        assert(Seq::<char>::empty() + spec_subst(template@, value@) =~= spec_subst(
            template@,
            value@,
        ));
    }
    while i < n
        invariant
            i <= n,
            n == template@.len(),
            r@ + spec_subst(template@.skip(i as int), value@) == spec_subst(template@, value@),
        decreases n - i,
    {
        let ghost rest = template@.skip(i as int);
        if n - i >= 10 && is_placeholder_at(template, i) {
            proof {
                assert(rest.subrange(0, 10) =~= template@.subrange(i as int, i as int + 10));
                assert(rest.skip(10) =~= template@.skip(i as int + 10));
                assert(spec_subst(rest, value@) == value@ + spec_subst(
                    template@.skip(i as int + 10),
                    value@,
                ));
            }
            r.append(value);
            i = i + 10;
        } else {
            proof {
                if rest.len() >= 10 {
                    assert(rest.subrange(0, 10) =~= template@.subrange(i as int, i as int + 10));
                }
                assert(rest[0] == template@[i as int]);
                assert(rest.skip(1) =~= template@.skip(i as int + 1));
                assert(spec_subst(rest, value@) == seq![template@[i as int]] + spec_subst(
                    template@.skip(i as int + 1),
                    value@,
                ));
            }
            let c = template.substring_char(i, i + 1);
            proof {
                assert(c@ =~= seq![template@[i as int]]);
            }
            r.append(c);
            i = i + 1;
        }
    }
    proof {
        assert(template@.skip(n as int) =~= Seq::<char>::empty());
        assert(r@ + Seq::<char>::empty() =~= r@);
    }
    r
}

/// Whether `x` occurs in `list`, compared character for character.
pub fn contains_str(list: &Vec<&'static str>, x: &str) -> (r: bool)
    ensures
        r == list.deep_view().contains(x@),
{
    let mut i: usize = 0;
    while i < list.len()
        invariant
            i <= list@.len(),
            forall|j: int| 0 <= j < i ==> list@[j]@ != x@,
        decreases list@.len() - i,
    {
        if str_eq(list[i], x) {
            proof {
                assert(list.deep_view()[i as int] == x@);
            }
            return true;
        }
        i = i + 1;
    }
    proof {
        assert(forall|j: int| 0 <= j < list.deep_view().len() ==> list.deep_view()[j] != x@);
    }
    false
}

} // verus!
