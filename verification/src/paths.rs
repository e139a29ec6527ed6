//! File-system path operations from `std::path`. What they return depends
//! on the platform the crate is built for (separators, prefixes), so their
//! results are not given names. What they do on texts that Unix and
//! Windows read alike (`/` separators, no drive or UNC prefix) is stated,
//! with the separator a join inserts left as `/` or `\`.
use vstd::prelude::*;

verus! {

/// A path in the syntax Unix and Windows share: no backslash and no `:`,
/// and not two leading `/` (which Windows reads as a UNC prefix), so `/` is
/// the only separator and there is no prefix.
pub open spec fn portable_path(p: Seq<char>) -> bool {
    &&& forall|i: int| 0 <= i < p.len() ==> p[i] != '\\' && p[i] != ':'
    &&& !(p.len() >= 2 && p[0] == '/' && p[1] == '/')
}

/// The text after the last `/` of `p` (all of `p` when it has none).
pub open spec fn last_segment(p: Seq<char>) -> Seq<char>
    decreases p.len(),
{
    if p.len() == 0 {
        p
    } else if p.last() == '/' {
        Seq::empty()
    } else {
        last_segment(p.drop_last()).push(p.last())
    }
}

/// A normal path component: not empty, and neither `.` nor `..`.
pub open spec fn normal_name(s: Seq<char>) -> bool {
    s.len() > 0 && s != "."@ && s != ".."@
}

/// `p` ends in a `..` component.
pub open spec fn ends_in_parent(p: Seq<char>) -> bool {
    p == ".."@ || (p.len() >= 3 && p.skip(p.len() - 3) == "/.."@)
}

/// Index of the last `c` in `s`.
pub open spec fn last_index_of(s: Seq<char>, c: char) -> Option<int>
    decreases s.len(),
{
    if s.len() == 0 {
        None
    } else if s.last() == c {
        Some(s.len() - 1)
    } else {
        last_index_of(s.drop_last(), c)
    }
}

/// The extension of a file name, as `Path::extension` documents it: none
/// without a `.`, none when the only `.` leads the name, else the text
/// after the last `.`.
pub open spec fn name_extension(name: Seq<char>) -> Option<Seq<char>> {
    match last_index_of(name, '.') {
        None => None,
        Some(k) => if k == 0 {
            None
        } else {
            Some(name.skip(k + 1))
        },
    }
}

/// `p` is empty or the root alone, `/` written one or more times: it has
/// no component that is a name.
pub open spec fn only_separators(p: Seq<char>) -> bool {
    forall|i: int| 0 <= i < p.len() ==> p[i] == '/'
}

/// `Path::file_name`, rendered as a string. Claimed here, as its
/// documentation gives it: the final component of a portable path whose
/// last segment is a normal name is that segment; a path that ends in `..`
/// has none, nor has the root or the empty path. Other paths (separators
/// and prefixes differ between platforms) are left unsaid.
#[verifier::external_body]
pub(crate) fn path_file_name(p: &str) -> (r: Option<String>)
    ensures
        portable_path(p@) && normal_name(last_segment(p@)) ==> r is Some,
        r matches Some(n) ==> (portable_path(p@) && normal_name(last_segment(p@)) ==> n@ == last_segment(p@)),
        ends_in_parent(p@) ==> r is None,
        only_separators(p@) ==> r is None,
{
    std::path::Path::new(p).file_name().map(|q| q.to_string_lossy().into_owned())
}

/// `Path::extension`, rendered as a string. Claimed here, as its
/// documentation gives it: for a portable path whose last segment is a
/// normal name, the extension of that name (`name_extension`). Other paths
/// are left unsaid.
#[verifier::external_body]
pub(crate) fn path_extension(p: &str) -> (r: Option<String>)
    ensures
        portable_path(p@) && normal_name(last_segment(p@)) ==> match r {
            Some(e) => name_extension(last_segment(p@)) == Some(e@),
            None => name_extension(last_segment(p@)) is None,
        },
{
    std::path::Path::new(p).extension().map(|q| q.to_string_lossy().into_owned())
}

// ---------------------------------------------------------------------
// Plain paths: parent, stem, equality
// ---------------------------------------------------------------------

/// A `.` or `..` component starts at `i`.
pub open spec fn dot_component_at(p: Seq<char>, i: int) -> bool {
    &&& p[i] == '.'
    &&& (i == 0 || p[i - 1] == '/')
    &&& ((i + 1 == p.len() || p[i + 1] == '/') || (i + 1 < p.len() && p[i + 1] == '.' && (i + 2
        == p.len() || p[i + 2] == '/')))
}

/// A portable path in its plain form: `/` only as the leading root or
/// between two names, no `.` or `..` component, and no trailing `/` but for
/// the root itself. Its text and its components determine each other.
pub open spec fn plain_path(p: Seq<char>) -> bool {
    &&& portable_path(p)
    &&& forall|i: int| 1 <= i < p.len() && #[trigger] p[i] == '/' ==> p[i - 1] != '/'
    &&& (p.len() > 1 ==> p.last() != '/')
    &&& forall|i: int| 0 <= i < p.len() ==> !dot_component_at(p, i)
}

/// A plain path that names a file: its last component is a name.
pub open spec fn plain_file(p: Seq<char>) -> bool {
    plain_path(p) && normal_name(last_segment(p))
}

/// The parent of a plain file path, as `Path::parent` documents it: the
/// text before the last `/`, the root when that is the leading one, and the
/// empty path for a single relative component.
pub open spec fn spec_parent(p: Seq<char>) -> Seq<char> {
    match last_index_of(p, '/') {
        None => Seq::empty(),
        Some(k) => if k == 0 {
            seq!['/']
        } else {
            p.take(k)
        },
    }
}

/// The stem of a file name, as `Path::file_stem` documents it: the whole
/// name without a `.` or when its only `.` leads it, else the text before
/// the last `.`.
pub open spec fn name_stem(name: Seq<char>) -> Seq<char> {
    match last_index_of(name, '.') {
        None => name,
        Some(k) => if k == 0 {
            name
        } else {
            name.take(k)
        },
    }
}

/// The file stem of a plain file path.
pub open spec fn spec_stem(p: Seq<char>) -> Seq<char> {
    name_stem(last_segment(p))
}

/// `Path::parent`, rendered as a string. Claimed here, as its
/// documentation gives it: for a plain file path, the text before its last
/// component (`spec_parent`). Other paths are left unsaid.
#[verifier::external_body]
pub(crate) fn path_parent(p: &str) -> (r: Option<String>)
    ensures
        plain_file(p@) ==> r is Some,
        r matches Some(q) ==> (plain_file(p@) ==> q@ == spec_parent(p@)),
{
    std::path::Path::new(p).parent().map(|q| q.to_string_lossy().into_owned())
}

/// `Path::file_stem`, rendered as a string. Claimed here, as its
/// documentation gives it: for a plain file path, the stem of its last
/// component (`spec_stem`). Other paths are left unsaid.
#[verifier::external_body]
pub(crate) fn path_file_stem(p: &str) -> (r: Option<String>)
    ensures
        plain_file(p@) ==> r is Some,
        r matches Some(q) ==> (plain_file(p@) ==> q@ == spec_stem(p@)),
{
    std::path::Path::new(p).file_stem().map(|q| q.to_string_lossy().into_owned())
}

/// `Path` equality (component-wise). Claimed here: two identical strings
/// name equal paths, and two plain paths are equal exactly when their
/// texts are.
#[verifier::external_body]
pub(crate) fn same_path(a: &str, b: &str) -> (r: bool)
    ensures
        a@ == b@ ==> r,
        plain_path(a@) && plain_path(b@) ==> (r <==> a@ == b@),
{
    std::path::Path::new(a) == std::path::Path::new(b)
}

/// `Path::is_absolute`. Claimed here: a portable path that does not start
/// with `/` is relative on every platform. Whether one that does is
/// absolute depends on the platform and is left unsaid.
#[verifier::external_body]
pub(crate) fn path_is_absolute(p: &str) -> (r: bool)
    ensures
        portable_path(p@) && (p@.len() == 0 || p@[0] != '/') ==> !r,
{
    std::path::Path::new(p).is_absolute()
}

// ---------------------------------------------------------------------
// Joining
// ---------------------------------------------------------------------

/// `c` separates components on Unix (`/`) or on Windows (`/` and `\\`).
pub open spec fn is_sep(c: char) -> bool {
    c == '/' || c == '\\'
}

pub open spec fn no_colon(s: Seq<char>) -> bool {
    forall|i: int| 0 <= i < s.len() ==> s[i] != ':'
}

/// A directory text that `Path::join` extends alike on Unix and Windows:
/// no `:` (no drive prefix), not two leading separators (no UNC prefix),
/// and no trailing `\\`.
pub open spec fn join_base(b: Seq<char>) -> bool {
    &&& no_colon(b)
    &&& !(b.len() >= 2 && is_sep(b[0]) && is_sep(b[1]))
    &&& (b.len() > 0 ==> b.last() != '\\')
}

/// A relative component text that `Path::join` appends as it is: not
/// empty, no `:`, no leading separator and no trailing `\\`.
pub open spec fn join_part(p: Seq<char>) -> bool {
    &&& no_colon(p)
    &&& p.len() > 0
    &&& !is_sep(p[0])
    &&& p.last() != '\\'
}

/// `base` joined with `part`: `sep` goes between them unless `base` is
/// empty or already ends in `/`.
pub open spec fn joined(base: Seq<char>, part: Seq<char>, sep: char) -> Seq<char> {
    if base.len() == 0 {
        part
    } else if base.last() == '/' {
        base + part
    } else {
        base.push(sep) + part
    }
}

/// `base` joined with each of `parts` in turn, the k-th join putting
/// `seps[k]` where a separator goes.
pub open spec fn joined_all(base: Seq<char>, parts: Seq<Seq<char>>, seps: Seq<char>) -> Seq<char>
    decreases parts.len(),
{
    if parts.len() == 0 {
        base
    } else {
        joined(joined_all(base, parts.drop_last(), seps.drop_last()), parts.last(), seps.last())
    }
}

/// `r` is `base` joined with each of `parts` in turn, with the platform's
/// separator (`/` on Unix, `\\` on Windows) where one goes.
pub open spec fn is_join_of(r: Seq<char>, base: Seq<char>, parts: Seq<Seq<char>>) -> bool {
    exists|seps: Seq<char>|
        #![trigger joined_all(base, parts, seps)]
        seps.len() == parts.len() && (forall|k: int| 0 <= k < seps.len() ==> is_sep(seps[k])) && r
            == joined_all(base, parts, seps)
}

/// `Path::join`, rendered as a string. Claimed here, as the documentation
/// of `PathBuf::push` gives it: a relative component is appended to the
/// directory, with the platform's separator between them unless the
/// directory is empty or ends in `/`. Directories with a prefix, and
/// components that are absolute or have a root, are left unsaid.
#[verifier::external_body]
pub(crate) fn path_join(base: &str, part: &str) -> (r: String)
    ensures
        join_base(base@) && join_part(part@) ==> (r@ == joined(base@, part@, '/') || r@ == joined(
            base@,
            part@,
            '\\',
        )),
{
    std::path::Path::new(base).join(part).to_string_lossy().into_owned()
}

/// The texts of a list of string slices.
pub open spec fn str_seq(v: Seq<&str>) -> Seq<Seq<char>> {
    v.map_values(|x: &str| x@)
}

/// `base` joined with each of `parts` in turn (`Path::join` applied one
/// component at a time).
pub fn join_parts(base: &str, parts: &Vec<&str>) -> (r: String)
    ensures
        join_base(base@) && (forall|k: int| 0 <= k < parts@.len() ==> join_part(#[trigger] parts@[k]@))
            ==> is_join_of(r@, base@, str_seq(parts@)),
{
    let ghost good = join_base(base@) && (forall|k: int|
        0 <= k < parts@.len() ==> join_part(#[trigger] parts@[k]@));
    let mut cur = String::from_str(base);
    proof {
        lemma_join_none(base@);
        assert(str_seq(parts@).take(0) =~= Seq::<Seq<char>>::empty());
    }
    let mut k: usize = 0;
    while k < parts.len()
        invariant
            k <= parts@.len(),
            good == (join_base(base@) && (forall|m: int|
                0 <= m < parts@.len() ==> join_part(#[trigger] parts@[m]@))),
            good ==> is_join_of(cur@, base@, str_seq(parts@).take(k as int)),
            good ==> join_base(cur@),
        decreases parts@.len() - k,
    {
        let next = path_join(cur.as_str(), parts[k]);
        proof {
            if good {
                let ps = str_seq(parts@);
                assert(join_part(parts@[k as int]@));
                assert(ps.take(k as int).push(parts@[k as int]@) =~= ps.take(k + 1));
                lemma_join_step(cur@, base@, ps.take(k as int), parts@[k as int]@, next@);
                assert forall|m: int| 0 <= m < ps.take(k + 1).len() implies join_part(
                    #[trigger] ps.take(k + 1)[m],
                ) by {
                    assert(join_part(parts@[m]@));
                }
                lemma_join_of_base(next@, base@, ps.take(k + 1));
            }
        }
        cur = next;
        k = k + 1;
    }
    proof {
        assert(str_seq(parts@).take(k as int) =~= str_seq(parts@));
    }
    cur
}

/// A directory is its own join with no component.
pub proof fn lemma_join_none(base: Seq<char>)
    ensures
        is_join_of(base, base, seq![]),
{
    let seps = Seq::<char>::empty();
    assert(joined_all(base, seq![], seps) == base);
}

/// Joining one more component onto a join extends it.
pub proof fn lemma_join_step(d: Seq<char>, base: Seq<char>, parts: Seq<Seq<char>>, part: Seq<char>, r: Seq<
    char,
>)
    requires
        is_join_of(d, base, parts),
        r == joined(d, part, '/') || r == joined(d, part, '\\'),
    ensures
        is_join_of(r, base, parts.push(part)),
{
    let seps = choose|seps: Seq<char>|
        #![trigger joined_all(base, parts, seps)]
        seps.len() == parts.len() && (forall|k: int| 0 <= k < seps.len() ==> is_sep(seps[k])) && d
            == joined_all(base, parts, seps);
    let s = if r == joined(d, part, '/') {
        '/'
    } else {
        '\\'
    };
    let s2 = seps.push(s);
    assert(parts.push(part).drop_last() =~= parts);
    assert(s2.drop_last() =~= seps);
    assert(joined_all(base, parts.push(part), s2) == r);
    assert(forall|k: int| 0 <= k < s2.len() ==> is_sep(s2[k]));
}

/// A join of a directory with one component.
pub proof fn lemma_join_one(base: Seq<char>, part: Seq<char>, r: Seq<char>)
    requires
        r == joined(base, part, '/') || r == joined(base, part, '\\'),
    ensures
        is_join_of(r, base, seq![part]),
{
    lemma_join_none(base);
    assert(Seq::<Seq<char>>::empty().push(part) =~= seq![part]);
    lemma_join_step(base, base, seq![], part, r);
}

/// Joining a component onto a directory that `Path::join` extends alike
/// gives another such directory.
pub proof fn lemma_joined_base(b: Seq<char>, p: Seq<char>, s: char)
    requires
        join_base(b),
        join_part(p),
        is_sep(s),
    ensures
        join_base(joined(b, p, s)),
{
    let r = joined(b, p, s);
    if b.len() == 0 {
    } else if b.last() == '/' {
        assert(r.last() == p.last());
        assert forall|i: int| 0 <= i < r.len() implies r[i] != ':' by {
            if i >= b.len() {
                assert(r[i] == p[i - b.len()]);
            }
        }
        if b.len() == 1 {
            assert(r[1] == p[0]);
        }
    } else {
        assert(r.last() == p.last());
        assert forall|i: int| 0 <= i < r.len() implies r[i] != ':' by {
            if i > b.len() {
                assert(r[i] == p[i - b.len() - 1]);
            } else if i == b.len() {
                assert(r[i] == s);
            }
        }
        if b.len() == 1 {
            assert(r[0] == b[0]);
            assert(r[1] == s);
        }
    }
}

/// A join of such a directory with components that are appended as they
/// are is again such a directory.
pub proof fn lemma_join_of_base(r: Seq<char>, base: Seq<char>, parts: Seq<Seq<char>>)
    requires
        join_base(base),
        forall|k: int| 0 <= k < parts.len() ==> join_part(#[trigger] parts[k]),
        is_join_of(r, base, parts),
    ensures
        join_base(r),
{
    let seps = choose|seps: Seq<char>|
        #![trigger joined_all(base, parts, seps)]
        seps.len() == parts.len() && (forall|k: int| 0 <= k < seps.len() ==> is_sep(seps[k])) && r
            == joined_all(base, parts, seps);
    lemma_joined_all_base(base, parts, seps);
}

proof fn lemma_joined_all_base(base: Seq<char>, parts: Seq<Seq<char>>, seps: Seq<char>)
    requires
        join_base(base),
        forall|k: int| 0 <= k < parts.len() ==> join_part(#[trigger] parts[k]),
        seps.len() == parts.len(),
        forall|k: int| 0 <= k < seps.len() ==> is_sep(seps[k]),
    ensures
        join_base(joined_all(base, parts, seps)),
    decreases parts.len(),
{
    if parts.len() > 0 {
        let pl = parts.drop_last();
        let sl = seps.drop_last();
        assert forall|k: int| 0 <= k < pl.len() implies join_part(#[trigger] pl[k]) by {
            assert(pl[k] == parts[k]);
        }
        lemma_joined_all_base(base, pl, sl);
        assert(join_part(parts[parts.len() - 1]));
        assert(is_sep(seps[seps.len() - 1]));
        lemma_joined_base(joined_all(base, pl, sl), parts.last(), seps.last());
    }
}

// ---------------------------------------------------------------------
// Facts about the plain form
// ---------------------------------------------------------------------

/// Where the last `c` of `s` is, and that none follows it.
pub proof fn lemma_last_index_of(s: Seq<char>, c: char)
    ensures
        last_index_of(s, c) matches Some(k) ==> 0 <= k < s.len() && s[k] == c && forall|j: int|
            k < j < s.len() ==> s[j] != c,
        last_index_of(s, c) is None ==> forall|j: int| 0 <= j < s.len() ==> s[j] != c,
    decreases s.len(),
{
    if s.len() > 0 {
        let t = s.drop_last();
        lemma_last_index_of(t, c);
        assert(forall|j: int| 0 <= j < t.len() ==> t[j] == s[j]);
    }
}

/// The last segment is the text after the last `/`.
pub proof fn lemma_last_segment(p: Seq<char>)
    ensures
        last_segment(p) == match last_index_of(p, '/') {
            None => p,
            Some(k) => p.skip(k + 1),
        },
    decreases p.len(),
{
    if p.len() > 0 {
        lemma_last_segment(p.drop_last());
        if p.last() == '/' {
            assert(p.skip(p.len() as int) =~= Seq::<char>::empty());
        } else {
            match last_index_of(p.drop_last(), '/') {
                None => {
                    assert(p.drop_last().push(p.last()) =~= p);
                },
                Some(k) => {
                    lemma_last_index_of(p.drop_last(), '/');
                    assert(p.drop_last().skip(k + 1).push(p.last()) =~= p.skip(k + 1));
                },
            }
        }
    }
}

/// The parent of a plain file is a plain path that `Path::join` extends
/// alike everywhere; its stem is a component that is appended as it is
/// (with any suffix that is).
pub proof fn lemma_plain_file_parts(p: Seq<char>)
    requires
        plain_file(p),
    ensures
        plain_path(spec_parent(p)),
        join_base(spec_parent(p)),
        spec_stem(p).len() > 0,
        no_colon(spec_stem(p)),
        !is_sep(spec_stem(p)[0]),
{
    lemma_last_index_of(p, '/');
    lemma_last_segment(p);
    let name = last_segment(p);
    let par = spec_parent(p);
    match last_index_of(p, '/') {
        None => {},
        Some(k) => {
            if k > 0 {
                assert(p[k] == '/');
                assert(p[k - 1] != '/');
                assert forall|i: int| 1 <= i < par.len() && #[trigger] par[i] == '/' implies par[i - 1]
                    != '/' by {
                    assert(par[i] == p[i]);
                    assert(par[i - 1] == p[i - 1]);
                }
                assert forall|i: int| 0 <= i < par.len() implies !dot_component_at(par, i) by {
                    assert(!dot_component_at(p, i));
                    assert(par[i] == p[i]);
                    if i > 0 {
                        assert(par[i - 1] == p[i - 1]);
                    }
                    if i + 1 < par.len() {
                        assert(par[i + 1] == p[i + 1]);
                    }
                    if i + 2 < par.len() {
                        assert(par[i + 2] == p[i + 2]);
                    }
                }
                assert forall|i: int| 0 <= i < par.len() implies par[i] != ':' && par[i] != '\\' by {
                    assert(par[i] == p[i]);
                }
                if par.len() >= 2 {
                    assert(par[0] == p[0]);
                    assert(par[1] == p[1]);
                }
            }
        },
    }
    assert forall|i: int| 0 <= i < name.len() implies name[i] != '/' && name[i] != ':'
        && name[i] != '\\' by {
        match last_index_of(p, '/') {
            None => {},
            Some(k) => {
                assert(name[i] == p[k + 1 + i]);
            },
        }
    }
    lemma_last_index_of(name, '.');
    let st = spec_stem(p);
    match last_index_of(name, '.') {
        None => {},
        Some(k) => {
            if k > 0 {
                assert(st[0] == name[0]);
                assert forall|i: int| 0 <= i < st.len() implies st[i] != ':' by {
                    assert(st[i] == name[i]);
                }
            }
        },
    }
}

} // verus!
