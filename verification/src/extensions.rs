//! The extension filter: the set of file-name extensions the report includes.
//!
//! The filter is built once from the user-supplied list and a flag asking for
//! the built-in defaults, deduplicated while preserving first-seen order, and
//! is immutable afterwards. A file name matches when the part of it after its
//! last dot equals one of the stored extensions, compared exactly (no case
//! folding).

use vstd::prelude::*;
use vstd::string::StringExecFns;
use vstd::string::StringSliceAdditionalSpecFns;
use vstd::utf8::encode_utf8;

verus! {

/// The views of a sequence of strings.
pub open spec fn views_of(v: Seq<String>) -> Seq<Seq<char>> {
    v.map_values(|s: String| s@)
}

/// The built-in default extensions.
pub open spec fn default_extensions() -> Seq<Seq<char>> {
    seq!["rs"@, "go"@, "cs"@, "toml"@, "java"@, "html"@]
}

/// Removes duplicate entries, keeping the first occurrence of each entry and
/// the order of those first occurrences.
pub open spec fn dedup_first_seen(s: Seq<Seq<char>>) -> Seq<Seq<char>>
    decreases s.len(),
{
    if s.len() == 0 {
        Seq::empty()
    } else {
        let rest = dedup_first_seen(s.drop_last());
        if rest.contains(s.last()) {
            rest
        } else {
            rest.push(s.last())
        }
    }
}

/// The list the filter is built from: the user list alone when it is
/// non-empty and defaults were not asked for; the defaults followed by the
/// user list when defaults were asked for; the defaults alone otherwise.
pub open spec fn effective_input(user: Seq<Seq<char>>, use_defaults: bool) -> Seq<Seq<char>> {
    if !use_defaults && user.len() > 0 {
        user
    } else if use_defaults {
        default_extensions() + user
    } else {
        default_extensions()
    }
}

/// The dot byte, which separates a file name from its extension.
pub open spec fn dot() -> u8 {
    46
}

/// The index of the last dot byte in `s`, or `-1` when `s` holds none.
pub open spec fn last_dot(s: Seq<u8>) -> int
    decreases s.len(),
{
    if s.len() == 0 {
        -1
    } else if s.last() == dot() {
        s.len() - 1
    } else {
        last_dot(s.drop_last())
    }
}

/// The extension of a file name given as bytes: the bytes after the last
/// dot, empty when the name holds no dot.
pub open spec fn spec_extension_of(s: Seq<u8>) -> Seq<u8> {
    if last_dot(s) < 0 {
        Seq::empty()
    } else {
        s.subrange(last_dot(s) + 1, s.len() as int)
    }
}

/// Whether the file name with bytes `name_bytes` has one of `exts` as its
/// extension, compared byte for byte.
pub open spec fn spec_matches(exts: Seq<Seq<char>>, name_bytes: Seq<u8>) -> bool {
    exists|i: int|
        0 <= i < exts.len() && encode_utf8(exts[i]) == spec_extension_of(name_bytes)
}

/// Mapping strings to their views commutes with appending one string.
proof fn lemma_views_push(v: Seq<String>, x: String)
    ensures
        views_of(v.push(x)) =~= views_of(v).push(x@),
{
    assert forall|k: int| 0 <= k < v.len() + 1 implies views_of(v.push(x))[k] == views_of(
        v,
    ).push(x@)[k] by {
        if k < v.len() {
            assert(v.push(x)[k] == v[k]);
        } else {
            assert(v.push(x)[k] == x);
        }
    }
}

/// The filter law: whatever list the filter is built from, deduplication
/// leaves no duplicate entries, keeps exactly the entries of the input, and
/// lists them in the order of their first occurrence in the input.
pub proof fn lemma_dedup_first_seen_properties(s: Seq<Seq<char>>)
    ensures
        forall|i: int, j: int|
            0 <= i < j < dedup_first_seen(s).len() ==> dedup_first_seen(s)[i]
                != dedup_first_seen(s)[j],
        forall|x: Seq<char>| #[trigger]
            dedup_first_seen(s).contains(x) <==> s.contains(x),
        forall|i: int, j: int|
            0 <= i < j < dedup_first_seen(s).len() ==> {
                &&& s.index_of_first(dedup_first_seen(s)[i]) is Some
                &&& s.index_of_first(dedup_first_seen(s)[j]) is Some
                &&& s.index_of_first(dedup_first_seen(s)[i])->0 < s.index_of_first(
                    dedup_first_seen(s)[j],
                )->0
            },
    decreases s.len(),
{
    let d = dedup_first_seen(s);
    if s.len() == 0 {
        assert(forall|x: Seq<char>| !s.contains(x));
    } else {
        let s1 = s.drop_last();
        let e = s.last();
        lemma_dedup_first_seen_properties(s1);
        let d1 = dedup_first_seen(s1);
        assert(s1.push(e) =~= s);
        assert forall|x: Seq<char>| s.contains(x) <==> (s1.contains(x) || x == e) by {
            if s.contains(x) {
                let k = choose|k: int| 0 <= k < s.len() && s[k] == x;
                if k < s1.len() {
                    assert(s1[k] == x);
                } else {
                    assert(x == e);
                }
            }
            if s1.contains(x) {
                let k = choose|k: int| 0 <= k < s1.len() && s1[k] == x;
                assert(s[k] == x);
            }
            if x == e {
                assert(s[s.len() - 1] == x);
            }
        }
        assert forall|x: Seq<char>| s1.contains(x) implies s.index_of_first(x)
            == s1.index_of_first(x) by {
            s1.index_of_first_ensures(x);
            s.index_of_first_ensures(x);
            let i1 = s1.index_of_first(x)->0;
            let i2 = s.index_of_first(x)->0;
            if i2 < i1 {
                assert(s1[i2] == x);
            }
            if i1 < i2 {
                assert(s[i1] == x);
            }
        }
        if d1.contains(e) {
            assert(d == d1);
            assert forall|i: int, j: int| 0 <= i < j < d.len() implies {
                &&& s.index_of_first(d[i]) is Some
                &&& s.index_of_first(d[j]) is Some
                &&& s.index_of_first(d[i])->0 < s.index_of_first(d[j])->0
            } by {
                assert(d1.contains(d1[i]));
                assert(d1.contains(d1[j]));
            }
        } else {
            assert(d == d1.push(e));
            assert(!s1.contains(e));
            s.index_of_first_ensures(e);
            let m = s.index_of_first(e)->0;
            assert(s.contains(e)) by {
                assert(s[s.len() - 1] == e);
            }
            assert(m == s1.len()) by {
                if m < s1.len() {
                    assert(s1[m] == s[m]);
                    assert(s1.contains(s[m]));
                }
            }
            assert forall|x: Seq<char>| #[trigger] d.contains(x) <==> s.contains(x) by {
                if d.contains(x) {
                    let k = choose|k: int| 0 <= k < d.len() && d[k] == x;
                    if k < d1.len() {
                        assert(d1[k] == x);
                        assert(d1.contains(x));
                    } else {
                        assert(x == e);
                    }
                }
                if s.contains(x) {
                    if s1.contains(x) {
                        assert(d1.contains(x));
                        let k = choose|k: int| 0 <= k < d1.len() && d1[k] == x;
                        assert(d[k] == x);
                    } else {
                        assert(x == e);
                        assert(d[d.len() - 1] == x);
                    }
                }
            }
            assert forall|i: int, j: int| 0 <= i < j < d.len() implies {
                &&& s.index_of_first(d[i]) is Some
                &&& s.index_of_first(d[j]) is Some
                &&& s.index_of_first(d[i])->0 < s.index_of_first(d[j])->0
            } by {
                if j < d1.len() {
                    assert(d1.contains(d1[i]));
                    assert(d1.contains(d1[j]));
                } else {
                    assert(d[j] == e);
                    assert(d[i] == d1[i]);
                    assert(d1.contains(d1[i]));
                    assert(s1.contains(d1[i]));
                    s1.index_of_first_ensures(d1[i]);
                }
            }
        }
    }
}

/// The set of file extensions the report includes: deduplicated, in
/// first-seen order, immutable once built.
pub struct ExtensionSet {
    exts: Vec<String>,
}

impl View for ExtensionSet {
    type V = Seq<Seq<char>>;

    closed spec fn view(&self) -> Seq<Seq<char>> {
        views_of(self.exts@)
    }
}

/// The built-in default extension list as strings.
fn default_list() -> (r: Vec<String>)
    ensures
        views_of(r@) == default_extensions(),
{
    let mut r: Vec<String> = Vec::new();
    r.push(String::from_str("rs"));
    r.push(String::from_str("go"));
    r.push(String::from_str("cs"));
    r.push(String::from_str("toml"));
    r.push(String::from_str("java"));
    r.push(String::from_str("html"));
    proof {
        assert(views_of(r@) =~= default_extensions());
    }
    r
}

/// Whether one of the strings of `v` has the same characters as `x`.
fn list_contains(v: &Vec<String>, x: &String) -> (r: bool)
    ensures
        r == views_of(v@).contains(x@),
{
    let mut i: usize = 0;
    while i < v.len()
        invariant
            0 <= i <= v@.len(),
            forall|j: int| 0 <= j < i ==> v@[j]@ != x@,
        decreases v@.len() - i,
    {
        if v[i] == *x {
            proof {
                assert(views_of(v@)[i as int] == v@[i as int]@);
            }
            return true;
        }
        i = i + 1;
    }
    proof {
        assert(forall|j: int|
            0 <= j < views_of(v@).len() ==> views_of(v@)[j] == v@[j]@);
    }
    false
}

/// Whether two byte slices hold the same bytes.
fn bytes_eq(a: &[u8], b: &[u8]) -> (r: bool)
    ensures
        r == (a@ == b@),
{
    if a.len() != b.len() {
        proof {
            assert(a@ != b@);
        }
        return false;
    }
    let mut i: usize = 0;
    while i < a.len()
        invariant
            0 <= i <= a@.len(),
            a@.len() == b@.len(),
            forall|j: int| 0 <= j < i ==> a@[j] == b@[j],
        decreases a@.len() - i,
    {
        if a[i] != b[i] {
            proof {
                assert(a@ != b@);
            }
            return false;
        }
        i = i + 1;
    }
    proof {
        assert(a@ =~= b@);
    }
    true
}

impl ExtensionSet {
    /// Builds the filter from the user-supplied extensions and the flag
    /// asking for the built-in defaults, deduplicating while keeping
    /// first-seen order.
    pub fn from_args(user: Vec<String>, use_defaults: bool) -> (r: ExtensionSet)
        ensures
            r@ == dedup_first_seen(effective_input(views_of(user@), use_defaults)),
    {
        let ghost user_views = views_of(user@);
        let input: Vec<String> = if !use_defaults && user.len() > 0 {
            user
        } else if use_defaults {
            let mut d = default_list();
            let mut i: usize = 0;
            while i < user.len()
                invariant
                    0 <= i <= user@.len(),
                    views_of(user@) == user_views,
                    views_of(d@) == default_extensions() + user_views.take(i as int),
                decreases user@.len() - i,
            {
                let ghost d_old = d@;
                let c = user[i].clone();
                proof {
                    lemma_views_push(d_old, c);
                }
                d.push(c);
                proof {
                    assert(views_of(d@) == views_of(d_old).push(user@[i as int]@));
                    assert(views_of(d@) =~= default_extensions() + user_views.take(
                        i + 1 as int,
                    ));
                }
                i = i + 1;
            }
            proof {
                assert(user_views.take(user@.len() as int) =~= user_views);
            }
            d
        } else {
            default_list()
        };
        proof {
            assert(views_of(input@) == effective_input(user_views, use_defaults));
        }
        let mut out: Vec<String> = Vec::new();
        let mut i: usize = 0;
        while i < input.len()
            invariant
                0 <= i <= input@.len(),
                views_of(input@) == effective_input(user_views, use_defaults),
                views_of(out@) == dedup_first_seen(views_of(input@).take(i as int)),
            decreases input@.len() - i,
        {
            let present = list_contains(&out, &input[i]);
            proof {
                assert(views_of(input@).take(i + 1 as int).drop_last() =~= views_of(
                    input@,
                ).take(i as int));
                assert(views_of(input@).take(i + 1 as int).last() == input@[i as int]@);
            }
            if !present {
                let ghost out_old = out@;
                let c = input[i].clone();
                proof {
                    lemma_views_push(out_old, c);
                }
                out.push(c);
                proof {
                    assert(views_of(out@) == views_of(out_old).push(input@[i as int]@));
                }
            }
            i = i + 1;
        }
        proof {
            assert(views_of(input@).take(input@.len() as int) =~= views_of(input@));
        }
        ExtensionSet { exts: out }
    }

    /// The stored extensions, in order.
    pub fn as_list(&self) -> (r: &Vec<String>)
        ensures
            views_of(r@) == self@,
    {
        &self.exts
    }

    /// Whether the file name `name` has one of the stored extensions: the
    /// part of `name` after its last dot must equal a stored extension byte
    /// for byte.
    pub fn matches_name(&self, name: &str) -> (r: bool)
        ensures
            r == spec_matches(self@, name.spec_bytes()),
    {
        let ext = extension_of(name);
        let mut i: usize = 0;
        while i < self.exts.len()
            invariant
                0 <= i <= self.exts@.len(),
                ext@ == spec_extension_of(name.spec_bytes()),
                forall|j: int|
                    0 <= j < i ==> encode_utf8(#[trigger] views_of(self.exts@)[j])
                        != spec_extension_of(name.spec_bytes()),
            decreases self.exts@.len() - i,
        {
            let eb = self.exts[i].as_str().as_bytes();
            if bytes_eq(eb, ext.as_slice()) {
                proof {
                    assert(views_of(self.exts@)[i as int] == self.exts@[i as int]@);
                }
                return true;
            }
            proof {
                assert(views_of(self.exts@)[i as int] == self.exts@[i as int]@);
            }
            i = i + 1;
        }
        proof {
            assert(forall|j: int|
                0 <= j < self@.len() ==> views_of(self.exts@)[j] == self@[j]);
        }
        false
    }
}

/// The extension of the file name `name`: the bytes after the last dot, or
/// no bytes when the name holds no dot.
pub fn extension_of(name: &str) -> (r: Vec<u8>)
    ensures
        r@ == spec_extension_of(name.spec_bytes()),
{
    let b = name.as_bytes();
    let mut has: bool = false;
    let mut pos: usize = 0;
    let mut i: usize = 0;
    while i < b.len()
        invariant
            0 <= i <= b@.len(),
            has ==> pos < i && last_dot(b@.take(i as int)) == pos,
            (!has) ==> last_dot(b@.take(i as int)) == -1,
        decreases b@.len() - i,
    {
        proof {
            assert(b@.take(i + 1 as int).drop_last() =~= b@.take(i as int));
            assert(b@.take(i + 1 as int).last() == b@[i as int]);
        }
        if b[i] == 46 {
            has = true;
            pos = i;
        }
        i = i + 1;
    }
    proof {
        assert(b@.take(b@.len() as int) =~= b@);
    }
    let mut r: Vec<u8> = Vec::new();
    if has {
        let mut j: usize = pos + 1;
        while j < b.len()
            invariant
                pos + 1 <= j <= b@.len(),
                pos < b@.len(),
                last_dot(b@) == pos,
                r@ == b@.subrange(pos + 1 as int, j as int),
            decreases b@.len() - j,
        {
            r.push(b[j]);
            proof {
                assert(r@ =~= b@.subrange(pos + 1 as int, j + 1 as int));
            }
            j = j + 1;
        }
    } else {
        proof {
            assert(r@ =~= spec_extension_of(b@));
        }
    }
    r
}

} // verus!
