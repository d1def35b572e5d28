//! Where an archive lives in the store, and where it is downloaded from.
use vstd::prelude::*;
use vstd::string::*;
use crate::record::CrateData;

verus! {

/// The store path of version `vers` of package `name`: one or two levels of
/// directories taken from the start of the name, then `<name>-<vers>.crate`.
pub open spec fn shard_path(name: Seq<char>, vers: Seq<char>) -> Seq<char> {
    let file = name + "-"@ + vers + ".crate"@;
    if name.len() == 1 {
        "1/"@ + file
    } else if name.len() == 2 {
        "2/"@ + file
    } else if name.len() == 3 {
        "3/"@ + name.subrange(0, 2) + "/"@ + file
    } else {
        name.subrange(0, 2) + "/"@ + name.subrange(2, 4) + "/"@ + file
    }
}

/// Store path of a record's archive, relative to the store root.
pub fn path_to_crate(data: &CrateData) -> (r: String)
    requires
        data.name@.len() > 0,
    ensures
        r@ == shard_path(data.name@, data.vers@),
{
    let n = data.name.as_str().unicode_len();
    let mut r = if n == 1 {
        String::from_str("1/")
    } else if n == 2 {
        String::from_str("2/")
    } else if n == 3 {
        let mut p = String::from_str("3/");
        p.append(data.name.as_str().substring_char(0, 2));
        p.append("/");
        p
    } else {
        let mut p = String::from_str(data.name.as_str().substring_char(0, 2));
        p.append("/");
        p.append(data.name.as_str().substring_char(2, 4));
        p.append("/");
        p
    };
    r.append(data.name.as_str());
    r.append("-");
    r.append(data.vers.as_str());
    r.append(".crate");
    proof {
        reveal_strlit("-");
        reveal_strlit(".crate");
    }
    assert(r@ =~= shard_path(data.name@, data.vers@));
    r
}

/// The store path is a function of name and version alone, so every caller
/// computes the same path for a record; it ends in `<name>-<vers>.crate`, and
/// its directories follow the name's length: `1/` or `2/` for one or two
/// characters, `3/` and the first two characters for three, the first two
/// and the next two characters for more.
pub proof fn lemma_shard_path_shape(name: Seq<char>, vers: Seq<char>)
    requires
        name.len() > 0,
    ensures
        ({
            let p = shard_path(name, vers);
            let file = name + "-"@ + vers + ".crate"@;
            &&& p.len() > file.len()
            &&& p.skip(p.len() - file.len()) == file
            &&& name.len() == 1 ==> p.take(p.len() - file.len()) == "1/"@
            &&& name.len() == 2 ==> p.take(p.len() - file.len()) == "2/"@
            &&& name.len() == 3 ==> p.take(p.len() - file.len()) == "3/"@ + name.take(2) + "/"@
            &&& name.len() >= 4 ==> p.take(p.len() - file.len()) == name.take(2) + "/"@
                + name.subrange(2, 4) + "/"@
        }),
{
    let p = shard_path(name, vers);
    let file = name + "-"@ + vers + ".crate"@;
    reveal_strlit("1/");
    reveal_strlit("2/");
    reveal_strlit("3/");
    reveal_strlit("/");
    let dir = if name.len() == 1 {
        "1/"@
    } else if name.len() == 2 {
        "2/"@
    } else if name.len() == 3 {
        "3/"@ + name.subrange(0, 2) + "/"@
    } else {
        name.subrange(0, 2) + "/"@ + name.subrange(2, 4) + "/"@
    };
    assert(p =~= dir + file);
    assert(p.skip(p.len() - file.len()) =~= file);
    assert(p.take(p.len() - file.len()) =~= dir);
    assert(name.take(2) =~= name.subrange(0, 2));
}

/// Whether `m` stands in `t` at position `i`.
pub open spec fn marker_at(t: Seq<char>, i: int, m: Seq<char>) -> bool {
    0 <= i && i + m.len() <= t.len() && t.subrange(i, i + m.len()) == m
}

/// `t` with each `{crate}` or `{name}` replaced by `name` and each
/// `{version}` by `vers`.
pub open spec fn expand(t: Seq<char>, name: Seq<char>, vers: Seq<char>) -> Seq<char>
    decreases t.len(),
{
    if t.len() == 0 {
        seq![]
    } else if 7 <= t.len() && marker_at(t, 0, "{crate}"@) {
        name + expand(t.skip(7), name, vers)
    } else if 6 <= t.len() && marker_at(t, 0, "{name}"@) {
        name + expand(t.skip(6), name, vers)
    } else if 9 <= t.len() && marker_at(t, 0, "{version}"@) {
        vers + expand(t.skip(9), name, vers)
    } else {
        seq![t[0]] + expand(t.skip(1), name, vers)
    }
}

/// Whether `t` holds a marker that `expand` replaces.
pub open spec fn has_marker(t: Seq<char>) -> bool
    decreases t.len(),
{
    if t.len() == 0 {
        false
    } else {
        marker_at(t, 0, "{crate}"@) || marker_at(t, 0, "{name}"@) || marker_at(t, 0, "{version}"@)
            || has_marker(t.skip(1))
    }
}

/// The URL that version `vers` of `name` is downloaded from, given the
/// index's download location `dl`: a template with markers is expanded,
/// a plain base URL gets `/<name>/<vers>/download` appended.
pub open spec fn url_of(dl: Seq<char>, name: Seq<char>, vers: Seq<char>) -> Seq<char> {
    if has_marker(dl) {
        expand(dl, name, vers)
    } else {
        dl + "/"@ + name + "/"@ + vers + "/download"@
    }
}

/// Whether `m` stands in `t` at character position `i`.
fn starts_at(t: &str, i: usize, m: &str) -> (r: bool)
    requires
        i <= t@.len(),
    ensures
        r == marker_at(t@, i as int, m@),
{
    let n = t.unicode_len();
    let k = m.unicode_len();
    if k > n - i {
        return false;
    }
    let mut j: usize = 0;
    while j < k
        invariant
            n == t@.len(),
            k == m@.len(),
            i + k <= n,
            j <= k,
            t@.subrange(i as int, i + j) == m@.subrange(0, j as int),
        decreases k - j,
    {
        if t.get_char(i + j) != m.get_char(j) {
            assert(t@.subrange(i as int, i + k)[j as int] != m@[j as int]);
            return false;
        }
        assert(t@.subrange(i as int, i + j + 1) =~= t@.subrange(i as int, i + j).push(t@[i + j]));
        assert(m@.subrange(0, j + 1) =~= m@.subrange(0, j as int).push(m@[j as int]));
        j = j + 1;
    }
    assert(m@.subrange(0, k as int) =~= m@);
    true
}

/// The URL that a record's archive is downloaded from, given the index's
/// download location `dl`.
pub fn download_url(dl: &str, data: &CrateData) -> (r: String)
    ensures
        r@ == url_of(dl@, data.name@, data.vers@),
{
    let ghost name = data.name@;
    let ghost vers = data.vers@;
    let n = dl.unicode_len();
    let mut out = String::from_str("");
    let mut found = false;
    let mut i: usize = 0;
    proof {
        reveal_strlit("{crate}");
        reveal_strlit("{name}");
        reveal_strlit("{version}");
        reveal_strlit("");
        assert(dl@.skip(0) =~= dl@);
        assert(out@ =~= Seq::<char>::empty());
    }
    while i < n
        invariant
            n == dl@.len(),
            i <= n,
            name == data.name@,
            vers == data.vers@,
            out@ + expand(dl@.skip(i as int), name, vers) == expand(dl@, name, vers),
            has_marker(dl@) == (found || has_marker(dl@.skip(i as int))),
            "{crate}"@.len() == 7,
            "{name}"@.len() == 6,
            "{version}"@.len() == 9,
        decreases n - i,
    {
        let ghost rest = dl@.skip(i as int);
        let c = starts_at(dl, i, "{crate}");
        let nm = starts_at(dl, i, "{name}");
        let v = starts_at(dl, i, "{version}");
        assert(marker_at(rest, 0, "{crate}"@) == c) by {
            if i + 7 <= n {
                assert(rest.subrange(0, 7) =~= dl@.subrange(i as int, i + 7));
            }
        }
        assert(marker_at(rest, 0, "{name}"@) == nm) by {
            if i + 6 <= n {
                assert(rest.subrange(0, 6) =~= dl@.subrange(i as int, i + 6));
            }
        }
        assert(marker_at(rest, 0, "{version}"@) == v) by {
            if i + 9 <= n {
                assert(rest.subrange(0, 9) =~= dl@.subrange(i as int, i + 9));
            }
        }
        let ghost before = out@;
        if c {
            out.append(data.name.as_str());
            assert(rest.skip(7) =~= dl@.skip(i + 7));
            i = i + 7;
        } else if nm {
            out.append(data.name.as_str());
            assert(rest.skip(6) =~= dl@.skip(i + 6));
            i = i + 6;
        } else if v {
            out.append(data.vers.as_str());
            assert(rest.skip(9) =~= dl@.skip(i + 9));
            i = i + 9;
        } else {
            out.append(dl.substring_char(i, i + 1));
            assert(rest.skip(1) =~= dl@.skip(i + 1));
            assert(dl@.subrange(i as int, i + 1) =~= seq![rest[0]]);
            i = i + 1;
        }
        if c || nm || v {
            found = true;
        }
        assert(out@ + expand(dl@.skip(i as int), name, vers) =~= expand(dl@, name, vers));
    }
    assert(dl@.skip(i as int) =~= Seq::<char>::empty());
    if found {
        assert(out@ =~= expand(dl@, name, vers));
        out
    } else {
        let mut url = String::from_str(dl);
        url.append("/");
        url.append(data.name.as_str());
        url.append("/");
        url.append(data.vers.as_str());
        url.append("/download");
        url
    }
}

} // verus!
